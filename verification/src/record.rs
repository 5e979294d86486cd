use vstd::prelude::*;
use vstd::string::*;

use crate::document::{
    distinct_keys, entries_model, lemma_merged_disjoint, lemma_put_new, merged, put, Document,
    DocumentModel,
};
use crate::entity::Entity;
use crate::error::Error;
use crate::id::EntityId;
use crate::lifecycle::{Lifecycle, LifecycleModel, Operation};
use crate::discardable::{lemma_presence_filter_is_plain, presence_document, presence_filter};
use crate::find::{FindModel, FindQuery};
use crate::meta::{lemma_meta_keys, meta_document, EntityMeta, MetaModel, Timestamp};
use crate::object::Object;

verus! {

/// A record: the bookkeeping and the payload. The payload knows nothing of the store.
#[derive(Debug, Clone)]
pub struct Record<T: Entity> {
    pub meta: EntityMeta<T>,
    pub data: T,
}

/// Whether a key belongs to the bookkeeping: those keys, and no key of a payload, start with
/// an underscore.
pub open spec fn is_meta_key(key: Seq<char>) -> bool {
    key.len() > 0 && key[0] == '_'
}

/// The document of a record: the entries of the payload, then those of the bookkeeping.
pub open spec fn record_document(meta: DocumentModel, data: DocumentModel) -> DocumentModel {
    merged(merged(DocumentModel::empty(), data), meta)
}

/// The entries of `doc` that belong to the bookkeeping (`meta`) or to the payload (`!meta`),
/// put into an empty document in order.
pub open spec fn selected(doc: DocumentModel, meta: bool) -> DocumentModel
    decreases doc.len(),
{
    if doc.len() == 0 {
        DocumentModel::empty()
    } else {
        let before = selected(doc.drop_last(), meta);
        if is_meta_key(doc.last().0) == meta {
            put(before, doc.last().0, doc.last().1)
        } else {
            before
        }
    }
}

/// Entries with distinct keys that are all of one side make up that side, and nothing of the
/// other.
pub proof fn lemma_selected_one_side(doc: DocumentModel, meta: bool)
    requires
        distinct_keys(doc),
        forall|i: int| 0 <= i < doc.len() ==> is_meta_key((#[trigger] doc[i]).0) == meta,
    ensures
        selected(doc, meta) == doc,
        selected(doc, !meta) == DocumentModel::empty(),
    decreases doc.len(),
{
    if doc.len() != 0 {
        let before = doc.drop_last();
        lemma_selected_one_side(before, meta);
        assert(is_meta_key(doc[doc.len() - 1].0) == meta);
        assert forall|i: int| 0 <= i < before.len() implies (#[trigger] before[i]).0
            != doc.last().0 by {
            assert(before[i] == doc[i]);
        }
        lemma_put_new(before, doc.last().0, doc.last().1);
        assert(before.push(doc.last()) =~= doc);
    } else {
        assert(doc =~= DocumentModel::empty());
    }
}

/// The document of a payload and a bookkeeping falls apart into the two again, where the
/// keys of each are distinct and only those of the bookkeeping start with an underscore.
pub proof fn lemma_record_document_splits(meta: DocumentModel, data: DocumentModel)
    requires
        distinct_keys(meta),
        distinct_keys(data),
        forall|i: int| 0 <= i < meta.len() ==> is_meta_key((#[trigger] meta[i]).0),
        forall|i: int| 0 <= i < data.len() ==> !is_meta_key((#[trigger] data[i]).0),
    ensures
        record_document(meta, data) == data + meta,
        selected(record_document(meta, data), true) == meta,
        selected(record_document(meta, data), false) == data,
{
    lemma_merged_disjoint(DocumentModel::empty(), data);
    assert(DocumentModel::empty() + data =~= data);
    assert forall|i: int, j: int| 0 <= i < data.len() && 0 <= j < meta.len() implies (
    #[trigger] data[i]).0 != (#[trigger] meta[j]).0 by {
        assert(!is_meta_key(data[i].0));
        assert(is_meta_key(meta[j].0));
    }
    lemma_merged_disjoint(data, meta);
    lemma_selected_after(data, meta, meta.len());
    assert(meta.take(meta.len() as int) =~= meta);
}

/// Behind a payload, the first `count` entries of a bookkeeping are what is selected for the
/// bookkeeping, and the payload what is selected for the payload.
proof fn lemma_selected_after(data: DocumentModel, meta: DocumentModel, count: nat)
    requires
        count <= meta.len(),
        distinct_keys(meta),
        distinct_keys(data),
        forall|i: int| 0 <= i < meta.len() ==> is_meta_key((#[trigger] meta[i]).0),
        forall|i: int| 0 <= i < data.len() ==> !is_meta_key((#[trigger] data[i]).0),
    ensures
        selected(data + meta.take(count as int), true) == meta.take(count as int),
        selected(data + meta.take(count as int), false) == data,
    decreases count,
{
    if count == 0 {
        assert(data + meta.take(0) =~= data);
        assert(meta.take(0) =~= DocumentModel::empty());
        lemma_selected_one_side(data, false);
    } else {
        let n = count as int;
        lemma_selected_after(data, meta, (count - 1) as nat);
        let whole = data + meta.take(n);
        assert(whole.drop_last() =~= data + meta.take(n - 1));
        assert(whole.last() == meta[n - 1]);
        assert(is_meta_key(meta[n - 1].0));
        assert forall|i: int| 0 <= i < meta.take(n - 1).len() implies (#[trigger] meta.take(
            n - 1,
        )[i]).0 != meta[n - 1].0 by {
            assert(meta.take(n - 1)[i] == meta[i]);
        }
        lemma_put_new(meta.take(n - 1), meta[n - 1].0, meta[n - 1].1);
        assert(meta.take(n - 1).push(meta[n - 1]) =~= meta.take(n));
    }
}

/// The keys of the document of a bookkeeping are distinct, and each starts with an
/// underscore.
pub proof fn lemma_meta_document_keys(meta: crate::meta::MetaModel)
    ensures
        distinct_keys(meta_document(meta)),
        forall|i: int|
            0 <= i < meta_document(meta).len() ==> is_meta_key((#[trigger] meta_document(meta)[i]).0),
{
    lemma_meta_keys();
    let doc = meta_document(meta);
    assert(doc[0].0 == "_id"@);
    assert(doc[1].0 == "_createdAt"@);
    assert forall|i: int| 0 <= i < doc.len() implies (doc[i].0 == "_id"@ && i == 0) || (doc[i].0
        == "_createdAt"@ && i == 1) || (doc[i].0 == "_updatedAt"@ && i == 2) || (doc[i].0
        == "_deletedAt"@ && i >= 2 && (i == 2 ==> meta.updated_at == meta.created_at)) by {}
    assert forall|i: int| 0 <= i < doc.len() implies is_meta_key((#[trigger] doc[i]).0) by {
        assert(doc[i].0 == "_id"@ || doc[i].0 == "_createdAt"@ || doc[i].0 == "_updatedAt"@
            || doc[i].0 == "_deletedAt"@);
    }
}

/// Reading the document of a record gives the record back, where the payload does so for
/// itself and its document has distinct keys without an underscore in front.
pub proof fn lemma_record_round_trip<T: Entity>(record: Record<T>)
    requires
        record.data.encoded() matches Some(data) && distinct_keys(data) && (forall|i: int|
            0 <= i < data.len() ==> !is_meta_key((#[trigger] data[i]).0)) && T::decoded(data)
            == Some(record.data),
    ensures
        record.encoded() matches Some(doc) && Record::<T>::decoded(doc) == Some(record),
{
    let data = record.data.encoded().unwrap();
    let meta = meta_document(record.meta@);
    lemma_meta_document_keys(record.meta@);
    lemma_record_document_splits(meta, data);
    crate::meta::lemma_meta_object_round_trip(record.meta);
}

/// Whether a key belongs to the bookkeeping.
pub fn starts_with_underscore(key: &str) -> (r: bool)
    ensures
        r == is_meta_key(key@),
{
    key.unicode_len() > 0 && key.get_char(0) == '_'
}

impl<T: Entity> Record<T> {
    /// The record of a fresh payload: with a fresh identifier, made now.
    pub fn new(entity: T) -> (r: Self)
        ensures
            r.data == entity,
            r.meta.updated_at == r.meta.created_at,
            r.meta.deleted_at.is_none(),
    {
        Record { meta: EntityMeta::new(), data: entity }
    }

    /// The identifier of the record.
    pub fn id(&self) -> (r: EntityId<T>)
        ensures
            r == self.meta.id,
    {
        self.meta.id
    }

    /// When the record was made.
    pub fn created_at(&self) -> (r: Timestamp)
        ensures
            r == self.meta.created_at,
    {
        self.meta.created_at
    }

    /// When the record was last saved.
    pub fn updated_at(&self) -> (r: Timestamp)
        ensures
            r == self.meta.updated_at,
    {
        self.meta.updated_at
    }

    /// Whether the record is marked as deleted.
    pub fn is_discarded(&self) -> (r: bool)
        ensures
            r == self.meta.deleted_at.is_some(),
    {
        self.meta.is_archived()
    }

    /// Marks the record as deleted at the time `at`. Nothing else changes; the application
    /// then saves the record like any other.
    pub fn discard(&mut self, at: Timestamp)
        ensures
            final(self).meta@ == (MetaModel { deleted_at: Some(at), ..old(self).meta@ }),
            final(self).data == old(self).data,
    {
        self.meta.deleted_at = Some(at);
    }

    /// Takes the mark off the record. Nothing else changes; the application then saves the
    /// record like any other.
    pub fn restore(&mut self)
        ensures
            final(self).meta@ == (MetaModel { deleted_at: None, ..old(self).meta@ }),
            final(self).data == old(self).data,
    {
        self.meta.deleted_at = None;
    }

    /// The query for the records that are not marked as deleted. A query without this filter
    /// yields the marked records too.
    pub fn kept() -> (r: FindQuery<T>)
        ensures
            r.wf(),
            r@ == (FindModel {
                conditions: Some(presence_filter("_deletedAt"@, false)),
                sort: None,
                skip: None,
                limit: None,
            }),
    {
        proof {
            reveal_strlit("$text");
            reveal_strlit("_deletedAt");
            assert("_deletedAt"@[0] != "$text"@[0]);
            lemma_presence_filter_is_plain("_deletedAt"@, false);
        }
        FindQuery::new_untyped(Some(presence_document("_deletedAt", false)))
    }

    /// The query for the records that are marked as deleted.
    pub fn discarded() -> (r: FindQuery<T>)
        ensures
            r.wf(),
            r@ == (FindModel {
                conditions: Some(presence_filter("_deletedAt"@, true)),
                sort: None,
                skip: None,
                limit: None,
            }),
    {
        proof {
            reveal_strlit("$text");
            reveal_strlit("_deletedAt");
            assert("_deletedAt"@[0] != "$text"@[0]);
            lemma_presence_filter_is_plain("_deletedAt"@, true);
        }
        FindQuery::new_untyped(Some(presence_document("_deletedAt", true)))
    }

    /// The course of saving the record, before its first step.
    pub fn save(&self) -> (r: Lifecycle)
        ensures
            r@ == (LifecycleModel { operation: Operation::Save, done: 0, failed: false }),
    {
        Lifecycle::start(Operation::Save)
    }

    /// The course of deleting the record, before its first step.
    pub fn delete(&self) -> (r: Lifecycle)
        ensures
            r@ == (LifecycleModel { operation: Operation::Delete, done: 0, failed: false }),
    {
        Lifecycle::start(Operation::Delete)
    }
}

impl<T: Entity> Object for Record<T> {
    open spec fn encoded(&self) -> Option<DocumentModel> {
        match self.data.encoded() {
            Some(data) => Some(record_document(meta_document(self.meta@), data)),
            None => None,
        }
    }

    open spec fn decoded(doc: DocumentModel) -> Option<Self> {
        match (
            EntityMeta::<T>::decoded(selected(doc, true)),
            T::decoded(selected(doc, false)),
        ) {
            (Some(meta), Some(data)) => Some(Record { meta, data }),
            _ => None,
        }
    }

    /// The document of the record: one document with the entries of the payload and of the
    /// bookkeeping. It fails where the payload cannot be written.
    fn to_document(&self) -> (r: Result<Document, Error>)
        ensures
            r matches Err(fault) ==> fault.trail().len() > 0 && fault.trail().last()
                == "failed to serialize entity"@,
    {
        let meta = match self.meta.to_document() {
            Ok(meta) => meta,
            Err(fault) => {
                return Err(fault.context("failed to serialize entity meta"));
            },
        };
        let data = match self.data.to_document() {
            Ok(data) => data,
            Err(fault) => {
                return Err(fault.context("failed to serialize entity"));
            },
        };
        let mut doc = Document::new();
        doc.extend(data);
        doc.extend(meta);
        Ok(doc)
    }

    /// The record that `doc` stands for: its entries under keys with an underscore go to the
    /// bookkeeping, the others to the payload. It fails where either half stands for nothing.
    fn from_document(doc: Document) -> (r: Result<Self, Error>)
        ensures
            r matches Err(fault) ==> fault.trail().len() > 0 && (fault.trail().last()
                == "failed to deserialize entity meta"@ || fault.trail().last()
                == "failed to deserialize entity"@),
    {
        let ghost all = doc@;
        let mut meta = Document::new();
        let mut data = Document::new();
        let entries = doc.into_entries();
        for entry in it: entries
            invariant
                entries_model(it.seq()) == all,
                meta@ == selected(all.take(it.index() as int), true),
                data@ == selected(all.take(it.index() as int), false),
        {
            proof {
                let i = it.index() as int;
                assert(all[i] == (entry.0@, entry.1@));
                assert(all.take(i + 1).drop_last() =~= all.take(i));
                assert(all.take(i + 1).last() == all[i]);
            }
            if starts_with_underscore(entry.0.as_str()) {
                meta.insert(entry.0, entry.1);
            } else {
                data.insert(entry.0, entry.1);
            }
        }
        proof {
            assert(all.take(all.len() as int) =~= all);
        }
        let meta = match EntityMeta::<T>::from_document(meta) {
            Ok(meta) => meta,
            Err(fault) => {
                return Err(fault.context("failed to deserialize entity meta"));
            },
        };
        let data = match T::from_document(data) {
            Ok(data) => data,
            Err(fault) => {
                return Err(fault.context("failed to deserialize entity"));
            },
        };
        Ok(Record { meta, data })
    }
}

} // verus!
