use vstd::prelude::*;

use crate::document::{text_eq, values_model, Document, DocumentModel, Value, ValueModel};

verus! {

/// Whether `value` holds `operator` as a key, at any depth: in the value itself where it is a
/// document, in the values of its entries, and in the items of its arrays.
pub open spec fn value_has_operator(value: ValueModel, operator: Seq<char>) -> bool
    decreases value,
{
    match value {
        ValueModel::Document(doc) => exists|i: int|
            0 <= i < doc.len() && ((#[trigger] doc[i]).0 == operator || value_has_operator(
                doc[i].1,
                operator,
            )),
        ValueModel::Array(items) => exists|i: int|
            0 <= i < items.len() && value_has_operator(#[trigger] items[i], operator),
        _ => false,
    }
}

/// Whether `doc` holds `operator` as a key, at any depth.
pub open spec fn document_has_operator(doc: DocumentModel, operator: Seq<char>) -> bool {
    value_has_operator(ValueModel::Document(doc), operator)
}

/// Whether `doc` holds `operator` as a key, at any depth.
pub fn has_operator(doc: &Document, operator: &str) -> (r: bool)
    ensures
        r == document_has_operator(doc@, operator@),
    decreases ValueModel::Document(doc@), 0nat,
{
    let mut i: usize = 0;
    while i < doc.len()
        invariant
            i <= doc@.len(),
            forall|k: int|
                0 <= k < i ==> !((#[trigger] doc@[k]).0 == operator@ || value_has_operator(
                    doc@[k].1,
                    operator@,
                )),
        decreases doc@.len() - i,
    {
        let ghost whole = ValueModel::Document(doc@);
        if text_eq(doc.key_at(i).as_str(), operator) {
            assert(doc@[i as int].0 == operator@);
            return true;
        }
        assert(decreases_to!(whole => whole->Document_0[i as int].1));
        if value_holds_operator(doc.value_at(i), operator) {
            assert(value_has_operator(doc@[i as int].1, operator@));
            return true;
        }
        i += 1;
    }
    false
}

/// Whether `value` holds `operator` as a key, at any depth.
pub fn value_holds_operator(value: &Value, operator: &str) -> (r: bool)
    ensures
        r == value_has_operator(value@, operator@),
    decreases value@, 1nat,
{
    match value {
        Value::Document(doc) => has_operator(doc, operator),
        Value::Array(items) => {
            let mut i: usize = 0;
            while i < items.len()
                invariant
                    i <= items.len(),
                    value@ == ValueModel::Array(values_model(items@)),
                    forall|k: int|
                        0 <= k < i ==> !value_has_operator(
                            #[trigger] values_model(items@)[k],
                            operator@,
                        ),
                decreases items.len() - i,
            {
                assert(decreases_to!(value@ => value@->Array_0[i as int]));
                if value_holds_operator(&items[i], operator) {
                    assert(value_has_operator(values_model(items@)[i as int], operator@));
                    return true;
                }
                i += 1;
            }
            false
        },
        _ => false,
    }
}

} // verus!
