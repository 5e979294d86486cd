use vstd::prelude::*;
use vstd::string::*;

use crate::document::{Document, DocumentModel, Value, ValueModel};
use crate::entity::Entity;
use crate::find::{FindModel, FindQuery};
use crate::operator::{document_has_operator, value_has_operator};
use crate::meta::Timestamp;

verus! {

/// The view of a record that can be discarded: the time at which it was.
#[derive(Debug)]
pub struct DiscardableView<'a> {
    pub discarded_at: &'a Option<Timestamp>,
}

/// The view through which a record is discarded or restored.
#[derive(Debug)]
pub struct DiscardableViewMut<'a> {
    pub discarded_at: &'a mut Option<Timestamp>,
}

/// The filter that matches the documents in which the field `key` is there (`present`) or is
/// not.
pub open spec fn presence_filter(key: Seq<char>, present: bool) -> DocumentModel {
    seq![(key, ValueModel::Document(seq![("$exists"@, ValueModel::Boolean(present))]))]
}

/// The filter that matches the records whose field `discardedAt` is there or is not.
pub open spec fn discarded_filter(present: bool) -> DocumentModel {
    presence_filter("discardedAt"@, present)
}

/// The filter that matches the documents in which the field `key` is there or is not.
pub fn presence_document(key: &str, present: bool) -> (r: Document)
    ensures
        r@ == presence_filter(key@, present),
{
    let mut exists = Document::new();
    exists.insert("$exists".to_owned(), Value::Boolean(present));
    let mut doc = Document::new();
    doc.insert(key.to_owned(), Value::Document(exists));
    assert(doc@ =~= presence_filter(key@, present)) by {
        assert(exists@ =~= seq![("$exists"@, ValueModel::Boolean(present))]);
    }
    doc
}

/// The filter that matches the records whose field `discardedAt` is there or is not.
pub fn discarded_document(present: bool) -> (r: Document)
    ensures
        r@ == discarded_filter(present),
{
    presence_document("discardedAt", present)
}

/// A filter on the presence of a field searches no full text, unless the field is called
/// `$text`.
pub proof fn lemma_presence_filter_is_plain(key: Seq<char>, present: bool)
    requires
        key != "$text"@,
    ensures
        !document_has_operator(presence_filter(key, present), "$text"@),
{
    reveal_strlit("$text");
    reveal_strlit("$exists");
    let inner = seq![("$exists"@, ValueModel::Boolean(present))];
    assert("$exists"@[1] != "$text"@[1]);
    assert(!value_has_operator(ValueModel::Document(inner), "$text"@)) by {
        assert(!value_has_operator(ValueModel::Boolean(present), "$text"@));
    }
    reveal_with_fuel(value_has_operator, 3);
}

/// The filter on `discardedAt` searches no full text.
pub proof fn lemma_discarded_filter_is_plain(present: bool)
    ensures
        !document_has_operator(discarded_filter(present), "$text"@),
{
    reveal_strlit("$text");
    reveal_strlit("discardedAt");
    assert("discardedAt"@[0] != "$text"@[0]);
    lemma_presence_filter_is_plain("discardedAt"@, present);
}

/// A kind of record that is discarded by a mark, and can be restored.
pub trait Discardable: Entity {
    /// When the record was discarded, if it is.
    open spec fn discarded_at(&self) -> Option<Timestamp> {
        arbitrary()
    }

    fn as_discardable(&self) -> (r: DiscardableView)
        ensures
            *r.discarded_at == self.discarded_at(),
    ;

    fn as_discardable_mut(&mut self) -> (r: DiscardableViewMut)
        ensures
            *r.discarded_at == old(self).discarded_at(),
            final(self).discarded_at() == *final(r.discarded_at),
    ;

    /// Whether the record is discarded.
    fn is_discarded(&self) -> (r: bool)
        ensures
            r == self.discarded_at().is_some(),
    {
        let view = self.as_discardable();
        view.discarded_at.is_some()
    }

    /// The query for the records that are not discarded.
    fn kept() -> (r: FindQuery<Self>)
        ensures
            r.wf(),
            r@ == (FindModel {
                conditions: Some(discarded_filter(false)),
                sort: None,
                skip: None,
                limit: None,
            }),
    {
        proof {
            lemma_discarded_filter_is_plain(false);
        }
        FindQuery::new_untyped(Some(discarded_document(false)))
    }

    /// The query for the records that are discarded.
    fn discarded() -> (r: FindQuery<Self>)
        ensures
            r.wf(),
            r@ == (FindModel {
                conditions: Some(discarded_filter(true)),
                sort: None,
                skip: None,
                limit: None,
            }),
    {
        proof {
            lemma_discarded_filter_is_plain(true);
        }
        FindQuery::new_untyped(Some(discarded_document(true)))
    }

    /// Marks the record as discarded at the time `at`. The application then saves it.
    fn discard(&mut self, at: Timestamp)
        ensures
            final(self).discarded_at() == Some(at),
    {
        let view = self.as_discardable_mut();
        *view.discarded_at = Some(at);
    }

    /// Takes the mark off the record. The application then saves it.
    fn restore(&mut self)
        ensures
            final(self).discarded_at().is_none(),
    {
        let view = self.as_discardable_mut();
        *view.discarded_at = None;
    }
}

} // verus!
