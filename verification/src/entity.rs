use vstd::prelude::*;
use vstd::string::*;

use crate::aggregate::{pipeline_model, AggregateModel, AggregateOneQuery, AggregateQuery};
use crate::conditions::EntityConditions;
use crate::document::{values_model, Document, DocumentModel, Value, ValueModel};
use crate::error::Error;
use crate::find::{
    conditions_document, filter_of, initial_sort, FindModel, FindOneQuery, FindQuery,
};
use crate::id::EntityId;
use crate::object::Object;
use crate::services::EntityServices;
use crate::sorting::EntitySorting;
use crate::util::{mixed_case, recase_key, KeyCase};

verus! {

/// A kind of record that the store holds.
pub trait Entity: Clone + Object + Send + Sync + 'static {
    /// The name of the kind: the namespace of its identifiers, and the source of its
    /// collection's name.
    const NAME: &'static str;

    type Services: EntityServices;

    type Conditions: EntityConditions;

    type Sorting: EntitySorting;

    /// The raw bytes of the record's identifier.
    open spec fn raw_id(&self) -> Seq<u8> {
        arbitrary()
    }

    fn id(&self) -> (r: EntityId<Self>)
        ensures
            r@ == self.raw_id(),
    ;

    /// Rejects a record that may not be saved. Every record may, unless the kind says
    /// otherwise: the verdict of a kind that says so is its own.
    fn validate(&self) -> (r: Result<(), Error>)
        default_ensures
            r.is_ok(),
    {
        Ok(())
    }

    /// The name of the collection that holds the records of this kind: the name of the kind
    /// in mixed case.
    fn collection_name() -> (r: String)
        ensures
            r@ == mixed_case(Self::NAME@),
    {
        recase_key(KeyCase::Mixed, Self::NAME)
    }

    /// The query for the record with the identifier `id`.
    fn get(id: EntityId<Self>) -> (r: FindOneQuery<Self>)
        ensures
            r@ == Some(id_filter(id@)),
    {
        FindOneQuery::new_untyped(Some(id_document(id)))
    }

    /// The query for the records with the identifiers `ids`.
    fn get_many(ids: Vec<EntityId<Self>>) -> (r: FindQuery<Self>)
        ensures
            r.wf(),
            r@ == (FindModel {
                conditions: Some(ids_filter(raws_of(ids@))),
                sort: initial_sort(Some(ids_filter(raws_of(ids@)))),
                skip: None,
                limit: None,
            }),
    {
        FindQuery::new_untyped(Some(ids_document(ids)))
    }

    /// The query for every record of the kind.
    fn all() -> (r: FindQuery<Self>)
        ensures
            r.wf(),
            r@ == (FindModel { conditions: None, sort: None, skip: None, limit: None }),
    {
        FindQuery::new_untyped(None)
    }

    /// The query for the records that meet `conditions`.
    fn find(conditions: Option<Self::Conditions>) -> (r: FindQuery<Self>)
        ensures
            r.wf(),
            r@ == (FindModel {
                conditions: filter_of(conditions),
                sort: initial_sort(filter_of(conditions)),
                skip: None,
                limit: None,
            }),
    {
        FindQuery::new_untyped(conditions_document(conditions))
    }

    /// The query for one record that meets `conditions`.
    fn find_one(conditions: Option<Self::Conditions>) -> (r: FindOneQuery<Self>)
        ensures
            r@ == filter_of(conditions),
    {
        FindOneQuery::new_untyped(conditions_document(conditions))
    }

    /// The aggregation over the records of the kind with the given stages.
    fn aggregate<U: Object>(pipeline: Vec<Document>) -> (r: AggregateQuery<Self, U>)
        ensures
            r@ == (AggregateModel { pipeline: pipeline_model(pipeline@), skip: None, take: None }),
    {
        AggregateQuery::new(pipeline)
    }

    /// The aggregation for one value with the given stages.
    fn aggregate_one<U: Object>(pipeline: Vec<Document>) -> (r: AggregateOneQuery<Self, U>)
        ensures
            r@ == pipeline_model(pipeline@),
    {
        AggregateOneQuery::new(pipeline)
    }
}

/// The filter that matches the record with the raw identifier `raw`.
pub open spec fn id_filter(raw: Seq<u8>) -> DocumentModel {
    seq![("_id"@, ValueModel::ObjectId(raw))]
}

/// The filter that matches the records with the raw identifiers `raws`.
pub open spec fn ids_filter(raws: Seq<Seq<u8>>) -> DocumentModel {
    seq![
        (
            "_id"@,
            ValueModel::Document(
                seq![("$in"@, ValueModel::Array(raws.map_values(|raw: Seq<u8>| ValueModel::ObjectId(raw))))],
            ),
        ),
    ]
}

/// The raw bytes of a list of identifiers.
pub open spec fn raws_of<T>(ids: Seq<EntityId<T>>) -> Seq<Seq<u8>> {
    ids.map_values(|id: EntityId<T>| id@)
}

/// The filter that matches the record with the identifier `id`.
pub fn id_document<T>(id: EntityId<T>) -> (r: Document)
    ensures
        r@ == id_filter(id@),
{
    let mut doc = Document::new();
    doc.insert("_id".to_owned(), id.to_value());
    assert(doc@ =~= id_filter(id@));
    doc
}

/// The filter that matches the records with the identifiers `ids`.
pub fn ids_document<T>(ids: Vec<EntityId<T>>) -> (r: Document)
    ensures
        r@ == ids_filter(raws_of(ids@)),
{
    let mut items: Vec<Value> = Vec::new();
    let mut i: usize = 0;
    while i < ids.len()
        invariant
            i <= ids.len(),
            items.len() == i,
            forall|k: int| 0 <= k < i ==> (#[trigger] items@[k])@ == ValueModel::ObjectId(ids@[k]@),
        decreases ids.len() - i,
    {
        items.push(ids[i].to_value());
        i += 1;
    }
    let mut among = Document::new();
    among.insert("$in".to_owned(), Value::Array(items));
    let mut doc = Document::new();
    doc.insert("_id".to_owned(), Value::Document(among));
    assert(doc@ =~= ids_filter(raws_of(ids@))) by {
        assert(values_model(items@) =~= raws_of(ids@).map_values(
            |raw: Seq<u8>| ValueModel::ObjectId(raw),
        ));
        assert(among@ =~= seq![("$in"@, ValueModel::Array(values_model(items@)))]);
    }
    doc
}

} // verus!
