use core::marker::PhantomData;

use vstd::prelude::*;
use vstd::string::*;

use crate::context::EntityContext;
use crate::document::{lookup, Document, DocumentModel, Value, ValueModel};
use crate::entity::Entity;
use crate::error::{Error, ErrorKind};
use crate::find::require;
use crate::object::Object;
use crate::util::mixed_case;

verus! {

/// The models of a list of documents.
pub open spec fn pipeline_model(stages: Seq<Document>) -> Seq<DocumentModel> {
    Seq::new(stages.len(), |i: int| stages[i]@)
}

/// The value that the store reads as a count of `n`: a 32-bit integer where `n` fits in one,
/// a 64-bit integer otherwise.
pub open spec fn count_value(n: u32) -> ValueModel {
    if n <= i32::MAX as u32 {
        ValueModel::Int32(n as i32)
    } else {
        ValueModel::Int64(n as i64)
    }
}

/// The stage that leaves the first `n` documents out.
pub open spec fn skip_stage(n: u32) -> DocumentModel {
    seq![("$skip"@, count_value(n))]
}

/// The stage that lets at most `n` documents through.
pub open spec fn limit_stage(n: u32) -> DocumentModel {
    seq![("$limit"@, count_value(n))]
}

/// The stage that counts the documents into the field `_count`.
pub open spec fn count_stage() -> DocumentModel {
    seq![("$count"@, ValueModel::Text("_count"@))]
}

/// The stages that paginate: the skip stage, then the limit stage, each only where asked for.
pub open spec fn paging_stages(skip: Option<u32>, take: Option<u32>) -> Seq<DocumentModel> {
    (match skip {
        Some(n) => seq![skip_stage(n)],
        None => Seq::empty(),
    }) + (match take {
        Some(n) => seq![limit_stage(n)],
        None => Seq::empty(),
    })
}

/// The count that the answer to a counting pipeline holds: the 64-bit integer under
/// `_count`, where it is there and not negative.
pub open spec fn counted_in(doc: DocumentModel) -> Option<u64> {
    match lookup(doc, "_count"@) {
        Some(ValueModel::Int64(n)) => if n >= 0 {
            Some(n as u64)
        } else {
            None
        },
        _ => None,
    }
}

/// An aggregation for the store to run. `in_session` says whether it runs on the shared
/// session of the transaction, and its cursor with it, or on its own.
#[derive(Debug, PartialEq, Eq)]
pub struct AggregateRequest {
    pub collection: String,
    pub pipeline: Vec<Document>,
    pub in_session: bool,
}

/// The value that the store reads as a count of `n`.
fn count_of(n: u32) -> (r: Value)
    ensures
        r@ == count_value(n),
{
    if n <= i32::MAX as u32 {
        Value::Int32(n as i32)
    } else {
        Value::Int64(n as i64)
    }
}

/// The document with the one entry `key`: `value`.
fn stage(key: &str, value: Value) -> (r: Document)
    ensures
        r@ == seq![(key@, value@)],
{
    let mut doc = Document::new();
    doc.insert(key.to_owned(), value);
    assert(doc@ =~= seq![(key@, value@)]);
    doc
}

/// `pipeline` with the paging stages behind it.
fn paginated(pipeline: Vec<Document>, skip: Option<u32>, take: Option<u32>) -> (r: Vec<Document>)
    ensures
        pipeline_model(r@) == pipeline_model(pipeline@) + paging_stages(skip, take),
{
    let mut stages = pipeline;
    if let Some(n) = skip {
        stages.push(stage("$skip", count_of(n)));
    }
    if let Some(n) = take {
        stages.push(stage("$limit", count_of(n)));
    }
    assert(pipeline_model(stages@) =~= pipeline_model(pipeline@) + paging_stages(skip, take));
    stages
}

/// The state of an aggregation: the pipeline and the pagination.
pub struct AggregateModel {
    pub pipeline: Seq<DocumentModel>,
    pub skip: Option<u32>,
    pub take: Option<u32>,
}

/// An aggregation over the records of the kind `T` that yields values of the type `U`.
#[derive(Debug)]
pub struct AggregateQuery<T, U> {
    pipeline: Vec<Document>,
    phantom_entity: PhantomData<T>,
    phantom_object: PhantomData<U>,
    skip: Option<u32>,
    take: Option<u32>,
}

impl<T, U> View for AggregateQuery<T, U> {
    type V = AggregateModel;

    closed spec fn view(&self) -> AggregateModel {
        AggregateModel {
            pipeline: pipeline_model(self.pipeline@),
            skip: self.skip,
            take: self.take,
        }
    }
}

impl<T, U> AggregateQuery<T, U> {
    /// The aggregation with the given stages.
    pub fn new(pipeline: Vec<Document>) -> (r: Self)
        ensures
            r@ == (AggregateModel { pipeline: pipeline_model(pipeline@), skip: None, take: None }),
    {
        AggregateQuery {
            pipeline,
            phantom_entity: PhantomData,
            phantom_object: PhantomData,
            skip: None,
            take: None,
        }
    }

    /// The aggregation that leaves the first `n` results out, or none where `n` is absent.
    pub fn skip(self, n: Option<u32>) -> (r: Self)
        ensures
            r@ == (AggregateModel { skip: n, ..self@ }),
    {
        let mut query = self;
        query.skip = n;
        query
    }

    /// The aggregation that yields at most `n` results, or all where `n` is absent.
    pub fn take(self, n: Option<u32>) -> (r: Self)
        ensures
            r@ == (AggregateModel { take: n, ..self@ }),
    {
        let mut query = self;
        query.take = n;
        query
    }

}

impl<T: Entity, U: Object> AggregateQuery<T, U> {
    /// The aggregation that loads the results: the pipeline, then the skip stage, then the
    /// limit stage.
    pub fn load<X>(self, ctx: &EntityContext<T::Services, X>) -> (r: AggregateRequest)
        ensures
            r.collection@ == mixed_case(T::NAME@),
            pipeline_model(r.pipeline@) == self@.pipeline + paging_stages(self@.skip, self@.take),
            r.in_session == ctx.spec_transaction().is_some(),
    {
        AggregateRequest {
            collection: T::collection_name(),
            pipeline: paginated(self.pipeline, self.skip, self.take),
            in_session: ctx.in_transaction(),
        }
    }

    /// The aggregation that counts the results: the pipeline, then the skip stage, then the
    /// limit stage, then the count stage.
    pub fn count<X>(self, ctx: &EntityContext<T::Services, X>) -> (r: AggregateRequest)
        ensures
            r.collection@ == mixed_case(T::NAME@),
            pipeline_model(r.pipeline@) == self@.pipeline + paging_stages(self@.skip, self@.take)
                + seq![count_stage()],
            r.in_session == ctx.spec_transaction().is_some(),
    {
        let mut stages = paginated(self.pipeline, self.skip, self.take);
        let ghost paged = pipeline_model(stages@);
        stages.push(stage("$count", Value::Text("_count".to_owned())));
        assert(pipeline_model(stages@) =~= paged + seq![count_stage()]);
        AggregateRequest {
            collection: T::collection_name(),
            pipeline: stages,
            in_session: ctx.in_transaction(),
        }
    }

    /// What one result of the aggregation becomes: the store's error as it is, the value
    /// that the document stands for, or a decode error where it stands for none.
    pub fn decode(item: Result<Document, Error>) -> (r: Result<U, Error>)
        ensures
            match item {
                Err(fault) => r == Err::<U, Error>(fault),
                Ok(doc) => match U::decoded(doc@) {
                    Some(value) => r == Ok::<U, Error>(value),
                    None => r matches Err(e) && e.trail().len() > 0 && e.trail().last()
                        == "failed to deserialize object"@,
                },
            },
    {
        match item {
            Err(fault) => Err(fault),
            Ok(doc) => match U::from_document(doc) {
                Ok(value) => Ok(value),
                Err(fault) => Err(fault.context("failed to deserialize object")),
            },
        }
    }

    /// The count that the first document of a counting aggregation holds. An answer without
    /// a document, or with a document without a count, is a decode error.
    pub fn counted(answer: Result<Option<Document>, Error>) -> (r: Result<u64, Error>)
        ensures
            match answer {
                Err(fault) => r == Err::<u64, Error>(fault),
                Ok(Some(doc)) => match counted_in(doc@) {
                    Some(n) => r == Ok::<u64, Error>(n),
                    None => r matches Err(e) && e.spec_kind() == ErrorKind::Decode,
                },
                Ok(None) => r matches Err(e) && e.spec_kind() == ErrorKind::Decode,
            },
    {
        match answer {
            Err(fault) => Err(fault),
            Ok(None) => Err(Error::new(ErrorKind::Decode, "the count came without a document")),
            Ok(Some(doc)) => match doc.get("_count") {
                Some(Value::Int64(n)) => {
                    if *n >= 0 {
                        Ok(*n as u64)
                    } else {
                        Err(Error::new(ErrorKind::Decode, "the count is negative"))
                    }
                },
                _ => Err(Error::new(ErrorKind::Decode, "the document holds no count")),
            },
        }
    }
}

/// An aggregation for one value; what the required and the optional form share.
#[derive(Debug)]
pub struct AggregateOneQueryInner<T, U> {
    pipeline: Vec<Document>,
    phantom_entity: PhantomData<T>,
    phantom_object: PhantomData<U>,
}

impl<T, U> View for AggregateOneQueryInner<T, U> {
    type V = Seq<DocumentModel>;

    closed spec fn view(&self) -> Seq<DocumentModel> {
        pipeline_model(self.pipeline@)
    }
}

impl<T, U> AggregateOneQueryInner<T, U> {
    /// The aggregation with the given stages.
    pub fn new(pipeline: Vec<Document>) -> (r: Self)
        ensures
            r@ == pipeline_model(pipeline@),
    {
        AggregateOneQueryInner { pipeline, phantom_entity: PhantomData, phantom_object: PhantomData }
    }
}

impl<T: Entity, U: Object> AggregateOneQueryInner<T, U> {
    /// The aggregation that loads the value: the pipeline, then a limit of one.
    pub fn load<X>(self, ctx: &EntityContext<T::Services, X>) -> (r: AggregateRequest)
        ensures
            r.collection@ == mixed_case(T::NAME@),
            pipeline_model(r.pipeline@) == self@ + seq![limit_stage(1)],
            r.in_session == ctx.spec_transaction().is_some(),
    {
        let mut stages = self.pipeline;
        stages.push(stage("$limit", count_of(1)));
        assert(pipeline_model(stages@) =~= self@ + seq![limit_stage(1)]);
        AggregateRequest {
            collection: T::collection_name(),
            pipeline: stages,
            in_session: ctx.in_transaction(),
        }
    }

    /// What the load returns for the first document of the answer: the store's error as it
    /// is, nothing where there is no document, the value that the document stands for, or a
    /// decode error where it stands for none.
    pub fn loaded(answer: Result<Option<Document>, Error>) -> (r: Result<Option<U>, Error>)
        ensures
            match answer {
                Err(fault) => r == Err::<Option<U>, Error>(fault),
                Ok(None) => r == Ok::<Option<U>, Error>(None),
                Ok(Some(doc)) => match U::decoded(doc@) {
                    Some(value) => r == Ok::<Option<U>, Error>(Some(value)),
                    None => r matches Err(e) && e.trail().len() > 0 && e.trail().last()
                        == "failed to deserialize object"@,
                },
            },
    {
        match answer {
            Err(fault) => Err(fault),
            Ok(None) => Ok(None),
            Ok(Some(doc)) => match U::from_document(doc) {
                Ok(value) => Ok(Some(value)),
                Err(fault) => Err(fault.context("failed to deserialize object")),
            },
        }
    }
}

/// An aggregation for one value that has to be there: loading nothing is an error.
#[derive(Debug)]
pub struct AggregateOneQuery<T, U>(AggregateOneQueryInner<T, U>);

/// An aggregation for one value that may be absent: loading nothing is no error.
#[derive(Debug)]
pub struct MaybeAggregateOneQuery<T, U>(AggregateOneQueryInner<T, U>);

impl<T, U> View for AggregateOneQuery<T, U> {
    type V = Seq<DocumentModel>;

    closed spec fn view(&self) -> Seq<DocumentModel> {
        self.0@
    }
}

impl<T, U> View for MaybeAggregateOneQuery<T, U> {
    type V = Seq<DocumentModel>;

    closed spec fn view(&self) -> Seq<DocumentModel> {
        self.0@
    }
}

impl<T, U> AggregateOneQuery<T, U> {
    /// The aggregation with the given stages.
    pub fn new(pipeline: Vec<Document>) -> (r: Self)
        ensures
            r@ == pipeline_model(pipeline@),
    {
        AggregateOneQuery(AggregateOneQueryInner::new(pipeline))
    }
}

impl<T: Entity, U: Object> AggregateOneQuery<T, U> {
    /// The same aggregation, for a value that may be absent.
    pub fn optional(self) -> (r: MaybeAggregateOneQuery<T, U>)
        ensures
            r@ == self@,
    {
        MaybeAggregateOneQuery(self.0)
    }

    /// The aggregation that loads the value: the pipeline, then a limit of one.
    pub fn load<X>(self, ctx: &EntityContext<T::Services, X>) -> (r: AggregateRequest)
        ensures
            r.collection@ == mixed_case(T::NAME@),
            pipeline_model(r.pipeline@) == self@ + seq![limit_stage(1)],
            r.in_session == ctx.spec_transaction().is_some(),
    {
        self.0.load(ctx)
    }

    /// What the load returns for the first document of the answer: the value, or a not-found
    /// error where there is no document.
    pub fn loaded(answer: Result<Option<Document>, Error>) -> (r: Result<U, Error>)
        ensures
            match answer {
                Err(fault) => r == Err::<U, Error>(fault),
                Ok(None) => r matches Err(e) && e.spec_kind() == ErrorKind::NotFound && e.trail()
                    == seq!["not found"@],
                Ok(Some(doc)) => match U::decoded(doc@) {
                    Some(value) => r == Ok::<U, Error>(value),
                    None => r matches Err(e) && e.trail().len() > 0 && e.trail().last()
                        == "failed to deserialize object"@,
                },
            },
    {
        require(AggregateOneQueryInner::<T, U>::loaded(answer))
    }
}

impl<T, U> MaybeAggregateOneQuery<T, U> {
    /// The aggregation with the given stages.
    pub fn new(pipeline: Vec<Document>) -> (r: Self)
        ensures
            r@ == pipeline_model(pipeline@),
    {
        MaybeAggregateOneQuery(AggregateOneQueryInner::new(pipeline))
    }
}

impl<T: Entity, U: Object> MaybeAggregateOneQuery<T, U> {
    /// The same aggregation, for a value that has to be there.
    pub fn required(self) -> (r: AggregateOneQuery<T, U>)
        ensures
            r@ == self@,
    {
        AggregateOneQuery(self.0)
    }

    /// The aggregation that loads the value: the pipeline, then a limit of one.
    pub fn load<X>(self, ctx: &EntityContext<T::Services, X>) -> (r: AggregateRequest)
        ensures
            r.collection@ == mixed_case(T::NAME@),
            pipeline_model(r.pipeline@) == self@ + seq![limit_stage(1)],
            r.in_session == ctx.spec_transaction().is_some(),
    {
        self.0.load(ctx)
    }

    /// What the load returns for the first document of the answer: the value, or nothing
    /// where there is no document.
    pub fn loaded(answer: Result<Option<Document>, Error>) -> (r: Result<Option<U>, Error>)
        ensures
            match answer {
                Err(fault) => r == Err::<Option<U>, Error>(fault),
                Ok(None) => r == Ok::<Option<U>, Error>(None),
                Ok(Some(doc)) => match U::decoded(doc@) {
                    Some(value) => r == Ok::<Option<U>, Error>(Some(value)),
                    None => r matches Err(e) && e.trail().len() > 0 && e.trail().last()
                        == "failed to deserialize object"@,
                },
            },
    {
        AggregateOneQueryInner::<T, U>::loaded(answer)
    }
}

} // verus!
