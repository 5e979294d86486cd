use vstd::prelude::*;
use vstd::string::*;

use crate::document::{lookup, Document, DocumentModel, Value, ValueModel};
use crate::error::{Error, ErrorKind};
use crate::id::{EntityId, ObjectId};
use crate::object::Object;

verus! {

/// A point in time: milliseconds since the Unix epoch, the precision in which the store keeps
/// time.
pub type Timestamp = i64;

/// Calls `chrono::Utc::now` and hands out the time in milliseconds since the Unix epoch.
/// Nothing is claimed of it.
#[verifier::external_body]
pub(crate) fn now() -> (r: Timestamp) {
    chrono::Utc::now().timestamp_millis()
}

/// The bookkeeping of a record.
#[derive(Debug)]
pub struct EntityMeta<T> {
    pub id: EntityId<T>,
    pub created_at: Timestamp,
    pub updated_at: Timestamp,
    pub deleted_at: Option<Timestamp>,
}

/// The mathematical value of an [`EntityMeta`].
pub struct MetaModel {
    pub id: Seq<u8>,
    pub created_at: i64,
    pub updated_at: i64,
    pub deleted_at: Option<i64>,
}

impl<T> View for EntityMeta<T> {
    type V = MetaModel;

    open spec fn view(&self) -> MetaModel {
        MetaModel {
            id: self.id@,
            created_at: self.created_at,
            updated_at: self.updated_at,
            deleted_at: self.deleted_at,
        }
    }
}

/// The document that stands for the bookkeeping of a record. The time of the last update is
/// written only where it differs from the time of creation, the time of deletion only where
/// there is one.
pub open spec fn meta_document(meta: MetaModel) -> DocumentModel {
    seq![
        ("_id"@, ValueModel::ObjectId(meta.id)),
        ("_createdAt"@, ValueModel::DateTime(meta.created_at)),
    ] + (if meta.updated_at != meta.created_at {
        seq![("_updatedAt"@, ValueModel::DateTime(meta.updated_at))]
    } else {
        Seq::empty()
    }) + (match meta.deleted_at {
        Some(at) => seq![("_deletedAt"@, ValueModel::DateTime(at))],
        None => Seq::empty(),
    })
}

/// The time under `key`, which may be absent or null; `None` where `key` holds anything else.
pub open spec fn optional_time(doc: DocumentModel, key: Seq<char>) -> Option<Option<i64>> {
    match lookup(doc, key) {
        None => Some(None),
        Some(ValueModel::Null) => Some(None),
        Some(ValueModel::DateTime(at)) => Some(Some(at)),
        Some(_) => None,
    }
}

/// The bookkeeping that a document stands for: its identifier and its time of creation have
/// to be there; a record without a time of update was last updated when it was created.
pub open spec fn meta_fields(doc: DocumentModel) -> Option<MetaModel> {
    match (
        lookup(doc, "_id"@),
        lookup(doc, "_createdAt"@),
        optional_time(doc, "_updatedAt"@),
        optional_time(doc, "_deletedAt"@),
    ) {
        (
            Some(ValueModel::ObjectId(raw)),
            Some(ValueModel::DateTime(created_at)),
            Some(updated_at),
            Some(deleted_at),
        ) => if raw.len() == 12 {
            Some(
                MetaModel {
                    id: raw,
                    created_at,
                    updated_at: match updated_at {
                        Some(at) => at,
                        None => created_at,
                    },
                    deleted_at,
                },
            )
        } else {
            None
        },
        _ => None,
    }
}

/// The four keys of the bookkeeping differ from each other.
pub proof fn lemma_meta_keys()
    ensures
        "_id"@ != "_createdAt"@,
        "_id"@ != "_updatedAt"@,
        "_id"@ != "_deletedAt"@,
        "_createdAt"@ != "_updatedAt"@,
        "_createdAt"@ != "_deletedAt"@,
        "_updatedAt"@ != "_deletedAt"@,
        "_id"@.len() > 0 && "_id"@[0] == '_',
        "_createdAt"@.len() > 0 && "_createdAt"@[0] == '_',
        "_updatedAt"@.len() > 0 && "_updatedAt"@[0] == '_',
        "_deletedAt"@.len() > 0 && "_deletedAt"@[0] == '_',
{
    reveal_strlit("_id");
    reveal_strlit("_createdAt");
    reveal_strlit("_updatedAt");
    reveal_strlit("_deletedAt");
    assert("_id"@.len() == 3);
    assert("_createdAt"@[1] == 'c');
    assert("_updatedAt"@[1] == 'u');
    assert("_deletedAt"@[1] == 'd');
}

/// Reading the document of a bookkeeping gives the bookkeeping back.
pub proof fn lemma_meta_round_trip(meta: MetaModel)
    requires
        meta.id.len() == 12,
    ensures
        meta_fields(meta_document(meta)) == Some(meta),
{
    lemma_meta_keys();
    let doc = meta_document(meta);
    reveal_with_fuel(crate::document::position, 5);
    assert(doc[0] == ("_id"@, ValueModel::ObjectId(meta.id)));
    assert(doc[1] == ("_createdAt"@, ValueModel::DateTime(meta.created_at)));
    if meta.updated_at != meta.created_at {
        assert(doc[2] == ("_updatedAt"@, ValueModel::DateTime(meta.updated_at)));
        if meta.deleted_at.is_some() {
            assert(doc[3] == ("_deletedAt"@, ValueModel::DateTime(meta.deleted_at.unwrap())));
            assert(doc.len() == 4);
        } else {
            assert(doc.len() == 3);
        }
    } else {
        if meta.deleted_at.is_some() {
            assert(doc[2] == ("_deletedAt"@, ValueModel::DateTime(meta.deleted_at.unwrap())));
            assert(doc.len() == 3);
        } else {
            assert(doc.len() == 2);
        }
    }
    crate::document::lemma_position(doc, "_id"@);
    crate::document::lemma_position(doc, "_createdAt"@);
    crate::document::lemma_position(doc, "_updatedAt"@);
    crate::document::lemma_position(doc, "_deletedAt"@);
}

/// Reading the document of a bookkeeping gives the bookkeeping back.
pub proof fn lemma_meta_object_round_trip<T>(value: EntityMeta<T>)
    ensures
        value.encoded() matches Some(doc) && EntityMeta::<T>::decoded(doc) == Some(value),
{
    value.id.lemma_same(value.id);
    lemma_meta_round_trip(value@);
    let fields = meta_fields(meta_document(value@)).unwrap();
    assert(value@ == fields);
    let chosen = choose|meta: EntityMeta<T>| meta@ == fields;
    value.lemma_same(chosen);
}

/// The time under `key`, which may be absent or null.
fn read_optional_time(doc: &Document, key: &str) -> (r: Option<Option<Timestamp>>)
    ensures
        r == optional_time(doc@, key@),
{
    match doc.get(key) {
        None => Some(None),
        Some(Value::Null) => Some(None),
        Some(Value::DateTime(at)) => Some(Some(*at)),
        Some(_) => None,
    }
}

impl<T> EntityMeta<T> {
    /// The bookkeeping of a record made now: with a fresh identifier, not yet updated and not
    /// deleted.
    pub fn new() -> (r: Self)
        ensures
            r.updated_at == r.created_at,
            r.deleted_at.is_none(),
    {
        Self::with(EntityId::new(), now())
    }

    /// The bookkeeping of a record with the identifier `id`, made at the time `at`.
    pub fn with(id: EntityId<T>, at: Timestamp) -> (r: Self)
        ensures
            r@ == (MetaModel { id: id@, created_at: at, updated_at: at, deleted_at: None }),
    {
        EntityMeta { id, created_at: at, updated_at: at, deleted_at: None }
    }

    /// Whether the record is marked as deleted.
    pub fn is_archived(&self) -> (r: bool)
        ensures
            r == self.deleted_at.is_some(),
    {
        self.deleted_at.is_some()
    }

    /// Records an update at the time `at`. The identifier and the time of creation stay.
    pub fn touch(&mut self, at: Timestamp)
        ensures
            final(self)@ == (MetaModel { updated_at: at, ..old(self)@ }),
    {
        self.updated_at = at;
    }

    /// Bookkeepings with the same fields are equal.
    pub proof fn lemma_same(self, other: Self)
        ensures
            self@ == other@ ==> self == other,
    {
        self.id.lemma_same(other.id);
    }
}

impl<T> Clone for EntityMeta<T> {
    fn clone(&self) -> (r: Self)
        ensures
            r == *self,
    {
        EntityMeta {
            id: self.id,
            created_at: self.created_at,
            updated_at: self.updated_at,
            deleted_at: self.deleted_at,
        }
    }
}

impl<T> Default for EntityMeta<T> {
    fn default() -> (r: Self)
        ensures
            r.updated_at == r.created_at,
            r.deleted_at.is_none(),
    {
        Self::new()
    }
}

impl<T> Object for EntityMeta<T> {
    open spec fn encoded(&self) -> Option<DocumentModel> {
        Some(meta_document(self@))
    }

    open spec fn decoded(doc: DocumentModel) -> Option<Self> {
        match meta_fields(doc) {
            Some(fields) => Some(choose|meta: Self| meta@ == fields),
            None => None,
        }
    }

    /// The document of the bookkeeping. It can always be written.
    fn to_document(&self) -> (r: Result<Document, Error>)
        ensures
            r matches Ok(doc) && doc@ == meta_document(self@),
    {
        let mut doc = Document::new();
        doc.insert("_id".to_owned(), self.id.to_value());
        doc.insert("_createdAt".to_owned(), Value::DateTime(self.created_at));
        if self.updated_at != self.created_at {
            doc.insert("_updatedAt".to_owned(), Value::DateTime(self.updated_at));
        }
        if let Some(at) = self.deleted_at {
            doc.insert("_deletedAt".to_owned(), Value::DateTime(at));
        }
        proof {
            lemma_meta_keys();
            reveal_with_fuel(crate::document::position, 5);
            assert(doc@ =~= meta_document(self@));
        }
        Ok(doc)
    }

    /// The bookkeeping that `doc` stands for, or a decode error where it stands for none.
    fn from_document(doc: Document) -> (r: Result<Self, Error>)
        ensures
            match r {
                Ok(meta) => meta_fields(doc@) == Some(meta@),
                Err(fault) => meta_fields(doc@).is_none() && fault.spec_kind() == ErrorKind::Decode,
            },
    {
        let raw = match doc.get("_id") {
            Some(Value::ObjectId(raw)) => *raw,
            _ => {
                return Err(Error::new(ErrorKind::Decode, "the document holds no identifier"));
            },
        };
        let created_at = match doc.get("_createdAt") {
            Some(Value::DateTime(at)) => *at,
            _ => {
                return Err(Error::new(ErrorKind::Decode, "the document holds no time of creation"));
            },
        };
        let updated_at = match read_optional_time(&doc, "_updatedAt") {
            Some(at) => at,
            None => {
                return Err(Error::new(ErrorKind::Decode, "the time of update is no time"));
            },
        };
        let deleted_at = match read_optional_time(&doc, "_deletedAt") {
            Some(at) => at,
            None => {
                return Err(Error::new(ErrorKind::Decode, "the time of deletion is no time"));
            },
        };
        let meta = EntityMeta {
            id: EntityId::from_object_id(ObjectId::from_bytes(raw)),
            created_at,
            updated_at: match updated_at {
                Some(at) => at,
                None => created_at,
            },
            deleted_at,
        };
        proof {
            let fields = meta_fields(doc@).unwrap();
            assert(meta@ == fields);
            let chosen = choose|meta: Self| meta@ == fields;
            meta.lemma_same(chosen);
        }
        Ok(meta)
    }
}

} // verus!
