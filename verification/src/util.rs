use vstd::prelude::*;

use crate::document::{
    distinct_keys, entries_model, lemma_put_new, put, values_model, Document, DocumentModel, Value,
    ValueModel,
};

verus! {

/// A key in mixed case, as `heck` writes it: the words of the key joined without a separator,
/// the first in lower case and each later one capitalised.
pub uninterp spec fn mixed_case(text: Seq<char>) -> Seq<char>;

/// A key in snake case, as `heck` writes it: the words of the key in lower case, joined by
/// underscores.
pub uninterp spec fn snake_case(text: Seq<char>) -> Seq<char>;

/// Calls `heck::MixedCase::to_mixed_case`. The result is a function of the text alone; the
/// contract gives it its name and claims nothing else.
#[verifier::external_body]
fn to_mixed_case(text: &str) -> (r: String)
    ensures
        r@ == mixed_case(text@),
{
    heck::MixedCase::to_mixed_case(text)
}

/// Calls `heck::SnakeCase::to_snake_case`. The result is a function of the text alone; the
/// contract gives it its name and claims nothing else.
#[verifier::external_body]
fn to_snake_case(text: &str) -> (r: String)
    ensures
        r@ == snake_case(text@),
{
    heck::SnakeCase::to_snake_case(text)
}

/// The two conventions for keys: mixed case at rest, snake case in memory.
#[derive(Clone, Copy, Debug, PartialEq, Eq)]
pub enum KeyCase {
    Mixed,
    Snake,
}

/// `key` written in the convention `case`.
pub open spec fn recased(case: KeyCase, key: Seq<char>) -> Seq<char> {
    match case {
        KeyCase::Mixed => mixed_case(key),
        KeyCase::Snake => snake_case(key),
    }
}

/// The first `count` entries of `doc`, each under its recased key and with its value recased
/// in depth, put into an empty document in order. Where two keys become the same, the later
/// value stands in the earlier place.
pub open spec fn recased_prefix(case: KeyCase, doc: DocumentModel, count: nat) -> DocumentModel
    decreases doc, count,
{
    if count == 0 || count > doc.len() {
        DocumentModel::empty()
    } else {
        put(
            recased_prefix(case, doc, (count - 1) as nat),
            recased(case, doc[count - 1].0),
            recased_value(case, doc[count - 1].1),
        )
    }
}

/// `value` with the keys of every document in it recased: through sub-documents and arrays,
/// never into a scalar.
pub open spec fn recased_value(case: KeyCase, value: ValueModel) -> ValueModel
    decreases value,
{
    match value {
        ValueModel::Array(items) => ValueModel::Array(
            Seq::new(
                items.len(),
                |i: int|
                    if 0 <= i < items.len() {
                        recased_value(case, items[i])
                    } else {
                        ValueModel::Null
                    },
            ),
        ),
        ValueModel::Document(doc) => ValueModel::Document(recased_prefix(case, doc, doc.len())),
        other => other,
    }
}

/// `doc` with every key recased, in depth.
pub open spec fn recased_document(case: KeyCase, doc: DocumentModel) -> DocumentModel {
    recased_prefix(case, doc, doc.len())
}

/// Whether writing the keys of `value` in the convention `to` loses nothing: at every depth,
/// the keys of a document are distinct, and each comes back when its form in `to` is written
/// in the convention `back`.
pub open spec fn keys_come_back(value: ValueModel, to: KeyCase, back: KeyCase) -> bool
    decreases value,
{
    match value {
        ValueModel::Document(doc) => distinct_keys(doc) && forall|i: int|
            0 <= i < doc.len() ==> recased(back, recased(to, (#[trigger] doc[i]).0)) == doc[i].0
                && keys_come_back(doc[i].1, to, back),
        ValueModel::Array(items) => forall|i: int|
            0 <= i < items.len() ==> keys_come_back(#[trigger] items[i], to, back),
        _ => true,
    }
}

/// Where the recased keys of the first `count` entries differ from each other, each entry
/// stays in its place.
pub proof fn lemma_recased_prefix(case: KeyCase, doc: DocumentModel, count: nat)
    requires
        count <= doc.len(),
        forall|i: int, j: int|
            0 <= i < j < count ==> recased(case, (#[trigger] doc[i]).0) != recased(
                case,
                (#[trigger] doc[j]).0,
            ),
    ensures
        recased_prefix(case, doc, count) == Seq::new(
            count,
            |i: int| (recased(case, doc[i].0), recased_value(case, doc[i].1)),
        ),
    decreases count,
{
    let mapped = |i: int| (recased(case, doc[i].0), recased_value(case, doc[i].1));
    if count == 0 {
        assert(recased_prefix(case, doc, count) =~= Seq::new(count, mapped));
    } else {
        let n = (count - 1) as nat;
        lemma_recased_prefix(case, doc, n);
        let before = Seq::new(n, mapped);
        let key = recased(case, doc[n as int].0);
        assert forall|i: int| 0 <= i < before.len() implies (#[trigger] before[i]).0 != key by {
            assert(recased(case, doc[i].0) != recased(case, doc[n as int].0));
        }
        lemma_put_new(before, key, recased_value(case, doc[n as int].1));
        assert(before.push(mapped(n as int)) =~= Seq::new(count, mapped));
    }
}

/// Recasing is reversible: a value whose keys come back is itself again after it was written
/// in the convention `to` and then in the convention `back`, whatever its depth.
pub proof fn lemma_recasing_is_reversible(value: ValueModel, to: KeyCase, back: KeyCase)
    requires
        keys_come_back(value, to, back),
    ensures
        recased_value(back, recased_value(to, value)) == value,
    decreases value,
{
    match value {
        ValueModel::Document(doc) => {
            let n = doc.len();
            assert forall|i: int, j: int| 0 <= i < j < n implies recased(to, (#[trigger] doc[i]).0)
                != recased(to, (#[trigger] doc[j]).0) by {
                assert(recased(back, recased(to, doc[i].0)) == doc[i].0);
                assert(recased(back, recased(to, doc[j].0)) == doc[j].0);
            }
            lemma_recased_prefix(to, doc, n);
            let there = recased_prefix(to, doc, n);
            assert forall|i: int, j: int| 0 <= i < j < n implies recased(
                back,
                (#[trigger] there[i]).0,
            ) != recased(back, (#[trigger] there[j]).0) by {
                assert(recased(back, recased(to, doc[i].0)) == doc[i].0);
                assert(recased(back, recased(to, doc[j].0)) == doc[j].0);
            }
            lemma_recased_prefix(back, there, n);
            let again = recased_prefix(back, there, n);
            assert forall|i: int| 0 <= i < n implies again[i] == doc[i] by {
                assert(keys_come_back(doc[i].1, to, back));
                assert(decreases_to!(value => value->Document_0[i].1));
                lemma_recasing_is_reversible(doc[i].1, to, back);
            }
            assert(again =~= doc);
        },
        ValueModel::Array(items) => {
            let there = recased_value(to, value)->Array_0;
            let again = recased_value(back, recased_value(to, value))->Array_0;
            assert forall|i: int| 0 <= i < items.len() implies again[i] == items[i] by {
                assert(keys_come_back(items[i], to, back));
                assert(decreases_to!(value => value->Array_0[i]));
                lemma_recasing_is_reversible(items[i], to, back);
            }
            assert(again =~= items);
        },
        _ => {},
    }
}

/// A document whose keys come back is itself again after its keys were written in mixed case
/// and then in snake case.
pub proof fn lemma_snakeify_undoes_camelize(doc: DocumentModel)
    requires
        keys_come_back(ValueModel::Document(doc), KeyCase::Mixed, KeyCase::Snake),
    ensures
        recased_document(KeyCase::Snake, recased_document(KeyCase::Mixed, doc)) == doc,
{
    lemma_recasing_is_reversible(ValueModel::Document(doc), KeyCase::Mixed, KeyCase::Snake);
}

/// `key` written in the convention `case`.
pub fn recase_key(case: KeyCase, key: &str) -> (r: String)
    ensures
        r@ == recased(case, key@),
{
    match case {
        KeyCase::Mixed => to_mixed_case(key),
        KeyCase::Snake => to_snake_case(key),
    }
}

/// `value` with the keys of every document in it recased.
pub fn transform_value(value: Value, case: KeyCase) -> (r: Value)
    ensures
        r@ == recased_value(case, value@),
    decreases value@,
{
    match value {
        Value::Array(items) => {
            let ghost before = values_model(items@);
            let mut out: Vec<Value> = Vec::new();
            for item in it: items
                invariant
                    values_model(it.seq()) == before,
                    value@ == ValueModel::Array(before),
                    out.len() == it.index(),
                    forall|k: int|
                        0 <= k < out.len() ==> (#[trigger] out@[k])@ == recased_value(
                            case,
                            before[k],
                        ),
            {
                assert(item@ == before[it.index() as int]);
                assert(decreases_to!(value@ => value@->Array_0[it.index() as int]));
                let moved = transform_value(item, case);
                out.push(moved);
            }
            assert(values_model(out@) =~= recased_value(case, ValueModel::Array(before))->Array_0);
            Value::Array(out)
        },
        Value::Document(doc) => Value::Document(transform_document(doc, case)),
        other => other,
    }
}

/// `doc` with every key recased, in depth.
pub fn transform_document(doc: Document, case: KeyCase) -> (r: Document)
    ensures
        r@ == recased_document(case, doc@),
        distinct_keys(r@),
    decreases doc@,
{
    let ghost before = doc@;
    let entries = doc.into_entries();
    let mut out = Document::new();
    for entry in it: entries
        invariant
            entries_model(it.seq()) == before,
            before == doc@,
            distinct_keys(out@),
            out@ == recased_prefix(case, before, it.index() as nat),
    {
        assert(before[it.index() as int] == (entry.0@, entry.1@));
        assert(decreases_to!(before => before[it.index() as int].1));
        let key = recase_key(case, entry.0.as_str());
        let value = transform_value(entry.1, case);
        out.insert(key, value);
    }
    out
}

/// `doc` with every key in mixed case, in depth: the form at rest.
pub fn camelize_document(doc: Document) -> (r: Document)
    ensures
        r@ == recased_document(KeyCase::Mixed, doc@),
        distinct_keys(r@),
{
    transform_document(doc, KeyCase::Mixed)
}

/// `doc` with every key in snake case, in depth: the form in memory.
pub fn snakeify_document(doc: Document) -> (r: Document)
    ensures
        r@ == recased_document(KeyCase::Snake, doc@),
        distinct_keys(r@),
{
    transform_document(doc, KeyCase::Snake)
}

} // verus!
