use vstd::prelude::*;
use vstd::string::*;
use vstd::utf8::*;

verus! {

/// The mathematical value of a stored [`Value`].
pub enum ValueModel {
    Null,
    Boolean(bool),
    Int32(i32),
    Int64(i64),
    /// A double, by the bits of its IEEE 754 representation.
    Double(u64),
    Text(Seq<char>),
    Array(Seq<ValueModel>),
    Document(Seq<(Seq<char>, ValueModel)>),
    /// Milliseconds since the Unix epoch.
    DateTime(i64),
    /// The twelve raw bytes of a store identifier.
    ObjectId(Seq<u8>),
}

/// The mathematical value of a [`Document`]: its entries in order.
pub type DocumentModel = Seq<(Seq<char>, ValueModel)>;

/// The index of the first entry of `doc` under `key`, or `doc.len()` if there is none.
pub open spec fn position(doc: DocumentModel, key: Seq<char>) -> int
    decreases doc.len(),
{
    if doc.len() == 0 {
        0
    } else if doc[0].0 == key {
        0
    } else {
        1 + position(doc.drop_first(), key)
    }
}

/// Whether `doc` has an entry under `key`.
pub open spec fn has_key(doc: DocumentModel, key: Seq<char>) -> bool {
    position(doc, key) < doc.len()
}

/// The value that `doc` holds under `key`.
pub open spec fn lookup(doc: DocumentModel, key: Seq<char>) -> Option<ValueModel> {
    if has_key(doc, key) {
        Some(doc[position(doc, key)].1)
    } else {
        None
    }
}

/// `doc` with `value` under `key`: in the place of the old value if there was one, at the end
/// otherwise.
pub open spec fn put(doc: DocumentModel, key: Seq<char>, value: ValueModel) -> DocumentModel {
    if has_key(doc, key) {
        doc.update(position(doc, key), (key, value))
    } else {
        doc.push((key, value))
    }
}

/// `doc` without its entry under `key`; the other entries keep their order.
pub open spec fn without(doc: DocumentModel, key: Seq<char>) -> DocumentModel {
    if has_key(doc, key) {
        doc.remove(position(doc, key))
    } else {
        doc
    }
}

/// `doc` after every entry of `other` has been put into it, first entry first.
pub open spec fn merged(doc: DocumentModel, other: DocumentModel) -> DocumentModel
    decreases other.len(),
{
    if other.len() == 0 {
        doc
    } else {
        put(merged(doc, other.drop_last()), other.last().0, other.last().1)
    }
}

/// No two entries of `doc` share a key.
pub open spec fn distinct_keys(doc: DocumentModel) -> bool {
    forall|i: int, j: int| 0 <= i < j < doc.len() ==> doc[i].0 != doc[j].0
}

/// `position` finds the first entry under the key, and nothing before it has that key.
pub proof fn lemma_position(doc: DocumentModel, key: Seq<char>)
    ensures
        0 <= position(doc, key) <= doc.len(),
        has_key(doc, key) ==> doc[position(doc, key)].0 == key,
        forall|i: int| 0 <= i < position(doc, key) ==> (#[trigger] doc[i]).0 != key,
    decreases doc.len(),
{
    if doc.len() != 0 && doc[0].0 != key {
        let rest = doc.drop_first();
        lemma_position(rest, key);
        assert forall|i: int| 0 <= i < position(doc, key) implies (#[trigger] doc[i]).0 != key by {
            if i > 0 {
                assert(doc[i] == rest[i - 1]);
            }
        }
    }
}

/// An index whose entry has the key, with no earlier such entry, is the key's position.
pub proof fn lemma_position_is(doc: DocumentModel, key: Seq<char>, at: int)
    requires
        0 <= at <= doc.len(),
        at < doc.len() ==> doc[at].0 == key,
        forall|i: int| 0 <= i < at ==> (#[trigger] doc[i]).0 != key,
    ensures
        position(doc, key) == at,
{
    lemma_position(doc, key);
    let p = position(doc, key);
    if p < at {
        assert(doc[p].0 != key);
    }
}

/// Putting a value keeps the keys distinct.
pub proof fn lemma_put_distinct(doc: DocumentModel, key: Seq<char>, value: ValueModel)
    requires
        distinct_keys(doc),
    ensures
        distinct_keys(put(doc, key, value)),
        lookup(put(doc, key, value), key) == Some(value),
{
    lemma_position(doc, key);
    let after = put(doc, key, value);
    let p = position(doc, key);
    lemma_position_is(after, key, p);
}

/// Taking an entry out keeps the keys distinct.
pub proof fn lemma_without_distinct(doc: DocumentModel, key: Seq<char>)
    requires
        distinct_keys(doc),
    ensures
        distinct_keys(without(doc, key)),
        !has_key(without(doc, key), key),
{
    lemma_position(doc, key);
    let rest = without(doc, key);
    let p = position(doc, key);
    assert forall|i: int| 0 <= i < rest.len() implies (#[trigger] rest[i]).0 != key by {
        if has_key(doc, key) {
            if i < p {
                assert(rest[i] == doc[i]);
            } else {
                assert(rest[i] == doc[i + 1]);
            }
        }
    }
    lemma_position_is(rest, key, rest.len() as int);
}

/// Putting entries with whatever keys into a document keeps the keys distinct.
pub proof fn lemma_merged_distinct(doc: DocumentModel, other: DocumentModel)
    requires
        distinct_keys(doc),
    ensures
        distinct_keys(merged(doc, other)),
    decreases other.len(),
{
    if other.len() != 0 {
        lemma_merged_distinct(doc, other.drop_last());
        lemma_put_distinct(merged(doc, other.drop_last()), other.last().0, other.last().1);
    }
}

/// A key that no entry has is put at the end.
pub proof fn lemma_put_new(doc: DocumentModel, key: Seq<char>, value: ValueModel)
    requires
        forall|i: int| 0 <= i < doc.len() ==> (#[trigger] doc[i]).0 != key,
    ensures
        put(doc, key, value) == doc.push((key, value)),
{
    lemma_position_is(doc, key, doc.len() as int);
}

/// Entries with distinct keys, none of which `doc` has, go behind `doc` as they are.
pub proof fn lemma_merged_disjoint(doc: DocumentModel, other: DocumentModel)
    requires
        distinct_keys(other),
        forall|i: int, j: int|
            0 <= i < doc.len() && 0 <= j < other.len() ==> (#[trigger] doc[i]).0 != (
            #[trigger] other[j]).0,
    ensures
        merged(doc, other) == doc + other,
    decreases other.len(),
{
    if other.len() == 0 {
        assert(doc + other =~= doc);
    } else {
        let before = other.drop_last();
        lemma_merged_disjoint(doc, before);
        let key = other.last().0;
        assert forall|i: int| 0 <= i < (doc + before).len() implies (#[trigger] (doc + before)[i]).0
            != key by {
            if i < doc.len() {
                assert((doc + before)[i] == doc[i]);
                assert(doc[i].0 != other[other.len() - 1].0);
            } else {
                assert((doc + before)[i] == other[i - doc.len()]);
            }
        }
        lemma_put_new(doc + before, key, other.last().1);
        assert((doc + before).push(other.last()) =~= doc + other);
    }
}

/// A value that a document can hold.
#[derive(Debug, PartialEq, Eq)]
pub enum Value {
    Null,
    Boolean(bool),
    Int32(i32),
    Int64(i64),
    /// A double, by the bits of its IEEE 754 representation.
    Double(u64),
    Text(String),
    Array(Vec<Value>),
    Document(Document),
    /// Milliseconds since the Unix epoch.
    DateTime(i64),
    /// The twelve raw bytes of a store identifier.
    ObjectId([u8; 12]),
}

/// An ordered mapping from string keys to values: the form in which records are stored.
#[derive(Debug, PartialEq, Eq)]
pub struct Document {
    entries: Vec<(String, Value)>,
}

/// The model of a list of values.
pub open spec fn values_model(items: Seq<Value>) -> Seq<ValueModel>
    decreases items,
{
    Seq::new(
        items.len(),
        |i: int|
            if 0 <= i < items.len() {
                items[i]@
            } else {
                ValueModel::Null
            },
    )
}

/// The model of a list of entries.
pub open spec fn entries_model(entries: Seq<(String, Value)>) -> DocumentModel
    decreases entries,
{
    Seq::new(
        entries.len(),
        |i: int|
            if 0 <= i < entries.len() {
                (entries[i].0@, entries[i].1@)
            } else {
                (Seq::empty(), ValueModel::Null)
            },
    )
}

impl View for Value {
    type V = ValueModel;

    open spec fn view(&self) -> ValueModel
        decreases self,
    {
        match self {
            Value::Null => ValueModel::Null,
            Value::Boolean(b) => ValueModel::Boolean(*b),
            Value::Int32(n) => ValueModel::Int32(*n),
            Value::Int64(n) => ValueModel::Int64(*n),
            Value::Double(bits) => ValueModel::Double(*bits),
            Value::Text(s) => ValueModel::Text(s@),
            Value::Array(items) => ValueModel::Array(values_model(items@)),
            Value::Document(d) => ValueModel::Document(d@),
            Value::DateTime(ms) => ValueModel::DateTime(*ms),
            Value::ObjectId(raw) => ValueModel::ObjectId(raw@),
        }
    }
}

impl View for Document {
    type V = DocumentModel;

    closed spec fn view(&self) -> DocumentModel
        decreases self,
    {
        entries_model(self.entries@)
    }
}

/// Whether two strings hold the same text.
pub fn text_eq(a: &str, b: &str) -> (r: bool)
    ensures
        r == (a@ == b@),
{
    let x = a.as_bytes();
    let y = b.as_bytes();
    proof {
        encode_utf8_decode_utf8(a@);
        encode_utf8_decode_utf8(b@);
    }
    if x.len() != y.len() {
        return false;
    }
    let mut i: usize = 0;
    while i < x.len()
        invariant
            i <= x.len(),
            x.len() == y.len(),
            x@ == encode_utf8(a@),
            y@ == encode_utf8(b@),
            forall|k: int| 0 <= k < i ==> x@[k] == y@[k],
        decreases x.len() - i,
    {
        if x[i] != y[i] {
            return false;
        }
        i += 1;
    }
    assert(x@ =~= y@);
    true
}

impl Document {
    /// A document without entries.
    pub fn new() -> (r: Document)
        ensures
            r@ == DocumentModel::empty(),
            distinct_keys(r@),
    {
        let r = Document { entries: Vec::new() };
        assert(r@ =~= DocumentModel::empty());
        r
    }

    /// The number of entries.
    pub fn len(&self) -> (n: usize)
        ensures
            n == self@.len(),
    {
        self.entries.len()
    }

    /// Whether the document has no entry.
    pub fn is_empty(&self) -> (r: bool)
        ensures
            r == (self@.len() == 0),
    {
        self.entries.len() == 0
    }

    /// The key of the entry at `index`.
    pub fn key_at(&self, index: usize) -> (r: &String)
        requires
            index < self@.len(),
        ensures
            r@ == self@[index as int].0,
    {
        &self.entries[index].0
    }

    /// The value of the entry at `index`.
    pub fn value_at(&self, index: usize) -> (r: &Value)
        requires
            index < self@.len(),
        ensures
            r@ == self@[index as int].1,
    {
        &self.entries[index].1
    }

    /// The index of the first entry under `key`, or the number of entries if there is none.
    fn find(&self, key: &str) -> (r: usize)
        ensures
            r == position(self@, key@),
            r <= self@.len(),
    {
        let mut i: usize = 0;
        while i < self.entries.len()
            invariant
                i <= self.entries.len(),
                forall|k: int| 0 <= k < i ==> (#[trigger] self@[k]).0 != key@,
            decreases self.entries.len() - i,
        {
            if text_eq(self.entries[i].0.as_str(), key) {
                proof {
                    lemma_position_is(self@, key@, i as int);
                }
                return i;
            }
            i += 1;
        }
        proof {
            lemma_position_is(self@, key@, i as int);
        }
        i
    }

    /// Whether the document has an entry under `key`.
    pub fn contains_key(&self, key: &str) -> (r: bool)
        ensures
            r == has_key(self@, key@),
    {
        self.find(key) < self.entries.len()
    }

    /// The value under `key`, if there is one.
    pub fn get(&self, key: &str) -> (r: Option<&Value>)
        ensures
            match r {
                Some(value) => lookup(self@, key@) == Some(value@),
                None => lookup(self@, key@).is_none(),
            },
    {
        let i = self.find(key);
        if i < self.entries.len() {
            Some(&self.entries[i].1)
        } else {
            None
        }
    }

    /// Puts `value` under `key` and returns the value that was there before. A new key goes to
    /// the end; a known key keeps its place.
    pub fn insert(&mut self, key: String, value: Value) -> (r: Option<Value>)
        ensures
            final(self)@ == put(old(self)@, key@, value@),
            distinct_keys(old(self)@) ==> distinct_keys(final(self)@),
            match r {
                Some(before) => lookup(old(self)@, key@) == Some(before@),
                None => lookup(old(self)@, key@).is_none(),
            },
    {
        proof {
            if distinct_keys(self@) {
                lemma_put_distinct(self@, key@, value@);
            }
        }
        let i = self.find(key.as_str());
        if i < self.entries.len() {
            let before = self.entries.remove(i);
            self.entries.insert(i, (key, value));
            assert(self@ =~= put(old(self)@, key@, value@));
            Some(before.1)
        } else {
            self.entries.push((key, value));
            assert(self@ =~= put(old(self)@, key@, value@));
            None
        }
    }

    /// Takes the entry under `key` out and returns its value. The other entries keep their
    /// order.
    pub fn remove(&mut self, key: &str) -> (r: Option<Value>)
        ensures
            final(self)@ == without(old(self)@, key@),
            distinct_keys(old(self)@) ==> distinct_keys(final(self)@),
            match r {
                Some(before) => lookup(old(self)@, key@) == Some(before@),
                None => lookup(old(self)@, key@).is_none(),
            },
    {
        proof {
            if distinct_keys(self@) {
                lemma_without_distinct(self@, key@);
            }
        }
        let i = self.find(key);
        if i < self.entries.len() {
            let before = self.entries.remove(i);
            assert(self@ =~= without(old(self)@, key@));
            Some(before.1)
        } else {
            None
        }
    }

    /// The entries in order, taken out of the document.
    pub fn into_entries(self) -> (r: Vec<(String, Value)>)
        ensures
            entries_model(r@) == self@,
    {
        self.entries
    }

    /// Puts every entry of `other` into this document, first entry first.
    pub fn extend(&mut self, other: Document)
        ensures
            final(self)@ == merged(old(self)@, other@),
            distinct_keys(old(self)@) ==> distinct_keys(final(self)@),
    {
        proof {
            if distinct_keys(self@) {
                lemma_merged_distinct(self@, other@);
            }
        }
        let mut rest = other.entries;
        let ghost all = other@;
        let mut done: usize = 0;
        let total = rest.len();
        while rest.len() > 0
            invariant
                done + rest.len() == total,
                total == all.len(),
                self@ == merged(old(self)@, all.take(done as int)),
                entries_model(rest@) == all.skip(done as int),
            decreases rest.len(),
        {
            let ghost before = rest@;
            let entry = rest.remove(0);
            proof {
                assert(all.take(done as int + 1).drop_last() =~= all.take(done as int));
                assert(entries_model(before)[0] == all.skip(done as int)[0]);
                assert forall|k: int| 0 <= k < rest@.len() implies entries_model(rest@)[k]
                    == all.skip(done as int + 1)[k] by {
                    assert(rest@[k] == before[k + 1]);
                    assert(entries_model(before)[k + 1] == all.skip(done as int)[k + 1]);
                }
                assert(entries_model(rest@) =~= all.skip(done as int + 1));
            }
            self.insert(entry.0, entry.1);
            done += 1;
        }
        proof {
            assert(all.take(done as int) =~= all);
        }
    }
}

/// A copy of a list of values.
fn clone_values(items: &Vec<Value>) -> (r: Vec<Value>)
    ensures
        values_model(r@) == values_model(items@),
    decreases items,
{
    let mut out: Vec<Value> = Vec::new();
    let mut i: usize = 0;
    while i < items.len()
        invariant
            i <= items.len(),
            out.len() == i,
            forall|k: int| 0 <= k < i ==> (#[trigger] out@[k])@ == items@[k]@,
        decreases items.len() - i,
    {
        let item = items[i].clone();
        out.push(item);
        i += 1;
    }
    assert(values_model(out@) =~= values_model(items@));
    out
}

impl Clone for Value {
    fn clone(&self) -> (r: Value)
        ensures
            r@ == self@,
        decreases self,
    {
        match self {
            Value::Null => Value::Null,
            Value::Boolean(b) => Value::Boolean(*b),
            Value::Int32(n) => Value::Int32(*n),
            Value::Int64(n) => Value::Int64(*n),
            Value::Double(bits) => Value::Double(*bits),
            Value::Text(s) => Value::Text(s.clone()),
            Value::Array(items) => Value::Array(clone_values(items)),
            Value::Document(d) => Value::Document(d.clone()),
            Value::DateTime(ms) => Value::DateTime(*ms),
            Value::ObjectId(raw) => Value::ObjectId(*raw),
        }
    }
}

impl Clone for Document {
    fn clone(&self) -> (r: Document)
        ensures
            r@ == self@,
        decreases self,
    {
        let mut out: Vec<(String, Value)> = Vec::new();
        let mut i: usize = 0;
        while i < self.entries.len()
            invariant
                i <= self.entries.len(),
                out.len() == i,
                forall|k: int| 0 <= k < i ==> (#[trigger] out@[k]).0@ == self.entries@[k].0@
                    && out@[k].1@ == self.entries@[k].1@,
            decreases self.entries.len() - i,
        {
            let key = self.entries[i].0.clone();
            let value = self.entries[i].1.clone();
            out.push((key, value));
            i += 1;
        }
        let r = Document { entries: out };
        assert(r@ =~= self@);
        r
    }
}

} // verus!
