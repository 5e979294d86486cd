use core::marker::PhantomData;

use vstd::prelude::*;
use vstd::string::*;

use crate::conditions::EntityConditions;
use crate::context::EntityContext;
use crate::document::{merged, Document, DocumentModel, Value, ValueModel};
use crate::entity::Entity;
use crate::error::{Error, ErrorKind};
use crate::object::Object;
use crate::operator::{document_has_operator, has_operator};
use crate::sorting::EntitySorting;
use crate::util::mixed_case;

verus! {

/// The model of a document that may be absent.
pub open spec fn model_of(doc: Option<Document>) -> Option<DocumentModel> {
    match doc {
        Some(doc) => Some(doc@),
        None => None,
    }
}

/// What a find query asks of the store besides the filter.
#[derive(Debug, Clone, PartialEq, Eq)]
pub struct FindOptions {
    pub sort: Option<Document>,
    pub skip: Option<u64>,
    pub limit: Option<i64>,
}

/// What a count asks of the store besides the filter.
#[derive(Debug, Clone, Copy, PartialEq, Eq)]
pub struct CountOptions {
    pub limit: Option<u64>,
    pub skip: Option<u64>,
}

/// The state of a find query: the filter, the sort document, and the pagination.
pub struct FindModel {
    pub conditions: Option<DocumentModel>,
    pub sort: Option<DocumentModel>,
    pub skip: Option<u64>,
    pub limit: Option<i64>,
}

/// A find for the store to run. `in_session` says whether it runs on the shared session of
/// the transaction, and its cursor with it, or on its own.
#[derive(Debug, PartialEq, Eq)]
pub struct FindRequest {
    pub collection: String,
    pub filter: Option<Document>,
    pub options: FindOptions,
    pub in_session: bool,
}

/// A count for the store to run.
#[derive(Debug, PartialEq, Eq)]
pub struct CountRequest {
    pub collection: String,
    pub filter: Option<Document>,
    pub options: CountOptions,
    pub in_session: bool,
}

/// A find of one document for the store to run.
#[derive(Debug, PartialEq, Eq)]
pub struct FindOneRequest {
    pub collection: String,
    pub filter: Option<Document>,
    pub in_session: bool,
}

/// The sort document that puts the best full-text matches first.
pub open spec fn relevance_sort() -> DocumentModel {
    seq![("score"@, ValueModel::Document(seq![("$meta"@, ValueModel::Text("textScore"@))]))]
}

/// The sort document of a fresh query: by relevance where the filter searches full text at
/// any depth, none otherwise.
pub open spec fn initial_sort(conditions: Option<DocumentModel>) -> Option<DocumentModel> {
    match conditions {
        Some(filter) => if document_has_operator(filter, "$text"@) {
            Some(relevance_sort())
        } else {
            None
        },
        None => None,
    }
}

/// The filter that asks for both: `incoming` alone where there was none, the conjunction of
/// the two where there was one, and the old filter where nothing comes in.
pub open spec fn conjoined(
    existing: Option<DocumentModel>,
    incoming: Option<DocumentModel>,
) -> Option<DocumentModel> {
    match incoming {
        None => existing,
        Some(right) => match existing {
            None => Some(right),
            Some(left) => Some(
                seq![
                    (
                        "$and"@,
                        ValueModel::Array(
                            seq![ValueModel::Document(left), ValueModel::Document(right)],
                        ),
                    ),
                ],
            ),
        },
    }
}

/// No condition on no filter leaves no filter; a first filter stands as it is; a second one is
/// joined to it under `$and`, the first one first.
pub proof fn lemma_conjoined(first: DocumentModel, second: DocumentModel)
    ensures
        conjoined(None, None).is_none(),
        conjoined(None, Some(first)) == Some(first),
        conjoined(conjoined(None, Some(first)), Some(second)) == Some(
            seq![
                (
                    "$and"@,
                    ValueModel::Array(
                        seq![ValueModel::Document(first), ValueModel::Document(second)],
                    ),
                ),
            ],
        ),
{
}

/// The sort document after `incoming` has been put into it.
pub open spec fn extended_sort(
    existing: Option<DocumentModel>,
    incoming: Option<DocumentModel>,
) -> Option<DocumentModel> {
    match incoming {
        None => existing,
        Some(more) => match existing {
            None => Some(more),
            Some(sort) => Some(merged(sort, more)),
        },
    }
}

/// The limit for a count of `n`: `n` itself, or the largest limit where `n` is beyond it.
pub open spec fn clamped(n: u64) -> i64 {
    if n > i64::MAX as u64 {
        i64::MAX
    } else {
        n as i64
    }
}

/// A limit is never negative and never beyond the largest one; a count beyond the largest
/// limit gets the largest limit, any other count itself.
pub proof fn lemma_clamped(n: u64)
    ensures
        0 <= clamped(n) <= i64::MAX,
        n > i64::MAX ==> clamped(n) == i64::MAX,
        n <= i64::MAX ==> clamped(n) == n,
{
}

/// The limit for a count that may be absent.
pub open spec fn clamped_limit(n: Option<u64>) -> Option<i64> {
    match n {
        Some(n) => Some(clamped(n)),
        None => None,
    }
}

/// The limit of a count, from the limit of a find.
pub open spec fn count_limit(limit: Option<i64>) -> Option<u64> {
    match limit {
        Some(limit) => Some(limit as u64),
        None => None,
    }
}

/// The filter of conditions that may be absent.
pub open spec fn filter_of<C: EntityConditions>(conditions: Option<C>) -> Option<DocumentModel> {
    match conditions {
        Some(conditions) => Some(conditions.filter()),
        None => None,
    }
}

/// The sort document of a sorting that may be absent.
pub open spec fn order_of<S: EntitySorting>(sorting: Option<S>) -> Option<DocumentModel> {
    match sorting {
        Some(sorting) => Some(sorting.order()),
        None => None,
    }
}

/// The filter document of conditions that may be absent.
pub fn conditions_document<C: EntityConditions>(conditions: Option<C>) -> (r: Option<Document>)
    ensures
        model_of(r) == filter_of(conditions),
{
    match conditions {
        Some(conditions) => Some(conditions.to_document()),
        None => None,
    }
}

/// A query for the records of one kind that match a filter.
#[derive(Debug)]
pub struct FindQuery<T> {
    conditions: Option<Document>,
    options: FindOptions,
    phantom: PhantomData<T>,
}

impl<T> View for FindQuery<T> {
    type V = FindModel;

    closed spec fn view(&self) -> FindModel {
        FindModel {
            conditions: model_of(self.conditions),
            sort: model_of(self.options.sort),
            skip: self.options.skip,
            limit: self.options.limit,
        }
    }
}

impl<T> FindQuery<T> {
    /// The limit, where there is one, is not negative.
    pub open spec fn wf(&self) -> bool {
        self@.limit matches Some(limit) ==> limit >= 0
    }

    /// The query for the records that match the filter `conditions`. Where the filter
    /// searches full text, at whatever depth, the query sorts by relevance.
    pub fn new_untyped(conditions: Option<Document>) -> (r: Self)
        ensures
            r.wf(),
            r@ == (FindModel {
                conditions: model_of(conditions),
                sort: initial_sort(model_of(conditions)),
                skip: None,
                limit: None,
            }),
    {
        let mut sort: Option<Document> = None;
        if let Some(filter) = &conditions {
            if has_operator(filter, "$text") {
                let mut meta = Document::new();
                meta.insert("$meta".to_owned(), Value::Text("textScore".to_owned()));
                let mut by_score = Document::new();
                by_score.insert("score".to_owned(), Value::Document(meta));
                assert(by_score@ =~= relevance_sort()) by {
                    assert(meta@ =~= seq![("$meta"@, ValueModel::Text("textScore"@))]);
                }
                sort = Some(by_score);
            }
        }
        FindQuery { conditions, options: FindOptions { sort, skip: None, limit: None }, phantom: PhantomData }
    }

    /// The query that asks for the filter `incoming` as well. The two filters are kept apart
    /// under `$and`, so that a key that both hold stands in each.
    pub fn and_untyped(self, incoming: Option<Document>) -> (r: Self)
        requires
            self.wf(),
        ensures
            r.wf(),
            r@ == (FindModel {
                conditions: conjoined(self@.conditions, model_of(incoming)),
                ..self@
            }),
    {
        let FindQuery { conditions, options, phantom } = self;
        let conditions = match incoming {
            Some(right) => match conditions {
                Some(left) => {
                    let mut both: Vec<Value> = Vec::new();
                    both.push(Value::Document(left));
                    both.push(Value::Document(right));
                    let mut all = Document::new();
                    all.insert("$and".to_owned(), Value::Array(both));
                    assert(all@ =~= conjoined(Some(left@), Some(right@)).unwrap()) by {
                        assert(crate::document::values_model(both@) =~= seq![
                            ValueModel::Document(left@),
                            ValueModel::Document(right@),
                        ]);
                    }
                    Some(all)
                },
                None => Some(right),
            },
            None => conditions,
        };
        FindQuery { conditions, options, phantom }
    }

    /// The query that leaves the first `n` matches out, or none where `n` is absent.
    pub fn skip(self, n: Option<u64>) -> (r: Self)
        requires
            self.wf(),
        ensures
            r.wf(),
            r@ == (FindModel { skip: n, ..self@ }),
    {
        let FindQuery { conditions, options, phantom } = self;
        let options = FindOptions { sort: options.sort, skip: n, limit: options.limit };
        FindQuery { conditions, options, phantom }
    }

    /// The query that yields at most `n` matches, or all where `n` is absent. A count beyond
    /// the largest limit asks for the largest limit.
    pub fn take(self, n: Option<u64>) -> (r: Self)
        requires
            self.wf(),
        ensures
            r.wf(),
            r@ == (FindModel { limit: clamped_limit(n), ..self@ }),
    {
        let FindQuery { conditions, options, phantom } = self;
        let limit = match n {
            Some(n) => if n > i64::MAX as u64 {
                Some(i64::MAX)
            } else {
                Some(n as i64)
            },
            None => None,
        };
        let options = FindOptions { sort: options.sort, skip: options.skip, limit };
        FindQuery { conditions, options, phantom }
    }

    /// The query that sorts by the sort document `incoming` as well.
    pub fn sort_untyped(self, incoming: Option<Document>) -> (r: Self)
        requires
            self.wf(),
        ensures
            r.wf(),
            r@ == (FindModel { sort: extended_sort(self@.sort, model_of(incoming)), ..self@ }),
    {
        let FindQuery { conditions, options, phantom } = self;
        let FindOptions { sort, skip, limit } = options;
        let sort = match incoming {
            Some(more) => match sort {
                Some(existing) => {
                    let mut existing = existing;
                    existing.extend(more);
                    Some(existing)
                },
                None => Some(more),
            },
            None => sort,
        };
        FindQuery { conditions, options: FindOptions { sort, skip, limit }, phantom }
    }

}

impl<T: Entity> FindQuery<T> {
    /// The query for the records that meet `conditions`.
    pub fn new(conditions: Option<T::Conditions>) -> (r: Self)
        ensures
            r.wf(),
            r@ == (FindModel {
                conditions: filter_of(conditions),
                sort: initial_sort(filter_of(conditions)),
                skip: None,
                limit: None,
            }),
    {
        Self::new_untyped(conditions_document(conditions))
    }

    /// The query that asks for `conditions` as well.
    pub fn and(self, conditions: Option<T::Conditions>) -> (r: Self)
        requires
            self.wf(),
        ensures
            r.wf(),
            r@ == (FindModel {
                conditions: conjoined(self@.conditions, filter_of(conditions)),
                ..self@
            }),
    {
        self.and_untyped(conditions_document(conditions))
    }

    /// The query that sorts by `sorting` as well: its keys go into the sort document that is
    /// there.
    pub fn sort(self, sorting: Option<T::Sorting>) -> (r: Self)
        requires
            self.wf(),
        ensures
            r.wf(),
            r@ == (FindModel { sort: extended_sort(self@.sort, order_of(sorting)), ..self@ }),
    {
        let incoming = match sorting {
            Some(sorting) => Some(sorting.to_document()),
            None => None,
        };
        self.sort_untyped(incoming)
    }

    /// The find that loads the matches: on the shared session inside a transaction, on its
    /// own outside.
    pub fn load<X>(self, ctx: &EntityContext<T::Services, X>) -> (r: FindRequest)
        requires
            self.wf(),
        ensures
            r.collection@ == mixed_case(T::NAME@),
            model_of(r.filter) == self@.conditions,
            model_of(r.options.sort) == self@.sort,
            r.options.skip == self@.skip,
            r.options.limit == self@.limit,
            r.in_session == ctx.spec_transaction().is_some(),
    {
        let FindQuery { conditions, options, .. } = self;
        FindRequest {
            collection: T::collection_name(),
            filter: conditions,
            options,
            in_session: ctx.in_transaction(),
        }
    }

    /// The count of the matches: with the limit and the skip of the find, and on the same
    /// route as the find.
    pub fn count<X>(self, ctx: &EntityContext<T::Services, X>) -> (r: CountRequest)
        requires
            self.wf(),
        ensures
            r.collection@ == mixed_case(T::NAME@),
            model_of(r.filter) == self@.conditions,
            r.options.limit == count_limit(self@.limit),
            r.options.skip == self@.skip,
            r.in_session == ctx.spec_transaction().is_some(),
    {
        let FindQuery { conditions, options, .. } = self;
        let limit = match options.limit {
            Some(limit) => Some(limit as u64),
            None => None,
        };
        CountRequest {
            collection: T::collection_name(),
            filter: conditions,
            options: CountOptions { limit, skip: options.skip },
            in_session: ctx.in_transaction(),
        }
    }
}

/// What one item of a loaded sequence becomes: the store's error as it is, or the value that
/// the document stands for. A failure concerns this item alone.
pub fn decode_item<U: Object>(item: Result<Document, Error>) -> (r: Result<U, Error>)
    ensures
        match item {
            Err(fault) => r == Err::<U, Error>(fault),
            Ok(doc) => match U::decoded(doc@) {
                Some(value) => r == Ok::<U, Error>(value),
                None => r.is_err(),
            },
        },
{
    match item {
        Err(fault) => Err(fault),
        Ok(doc) => U::from_document(doc),
    }
}

/// What a load of one record returns: the store's error as it is, nothing where nothing
/// matched, and otherwise the value that the document stands for.
pub fn decode_one<U: Object>(loaded: Result<Option<Document>, Error>) -> (r: Result<
    Option<U>,
    Error,
>)
    ensures
        match loaded {
            Err(fault) => r == Err::<Option<U>, Error>(fault),
            Ok(None) => r == Ok::<Option<U>, Error>(None),
            Ok(Some(doc)) => match U::decoded(doc@) {
                Some(value) => r == Ok::<Option<U>, Error>(Some(value)),
                None => r.is_err(),
            },
        },
{
    match loaded {
        Err(fault) => Err(fault),
        Ok(None) => Ok(None),
        Ok(Some(doc)) => match U::from_document(doc) {
            Ok(value) => Ok(Some(value)),
            Err(fault) => Err(fault),
        },
    }
}

/// What a required load returns where the optional one returns `found`: the value, or a
/// not-found error where there is none.
pub fn require<U>(found: Result<Option<U>, Error>) -> (r: Result<U, Error>)
    ensures
        match found {
            Err(fault) => r == Err::<U, Error>(fault),
            Ok(Some(value)) => r == Ok::<U, Error>(value),
            Ok(None) => r matches Err(e) && e.spec_kind() == ErrorKind::NotFound && e.trail()
                == seq!["not found"@],
        },
{
    match found {
        Err(fault) => Err(fault),
        Ok(Some(value)) => Ok(value),
        Ok(None) => Err(Error::new(ErrorKind::NotFound, "not found")),
    }
}

/// Whether a count of matches says that there is one.
pub fn counted(count: Result<u64, Error>) -> (r: Result<bool, Error>)
    ensures
        match count {
            Err(fault) => r == Err::<bool, Error>(fault),
            Ok(n) => r == Ok::<bool, Error>(n > 0),
        },
{
    match count {
        Err(fault) => Err(fault),
        Ok(n) => Ok(n > 0),
    }
}

/// A query for one record of a kind; what the required and the optional form share.
#[derive(Debug)]
pub struct FindOneQueryInner<T> {
    conditions: Option<Document>,
    phantom: PhantomData<T>,
}

impl<T> View for FindOneQueryInner<T> {
    type V = Option<DocumentModel>;

    closed spec fn view(&self) -> Option<DocumentModel> {
        model_of(self.conditions)
    }
}

impl<T> FindOneQueryInner<T> {
    /// The query for one record that matches the filter `conditions`.
    pub fn new_untyped(conditions: Option<Document>) -> (r: Self)
        ensures
            r@ == model_of(conditions),
    {
        FindOneQueryInner { conditions, phantom: PhantomData }
    }
}

impl<T: Entity> FindOneQueryInner<T> {
    /// The query for one record that meets `conditions`.
    pub fn new(conditions: Option<T::Conditions>) -> (r: Self)
        ensures
            r@ == filter_of(conditions),
    {
        Self::new_untyped(conditions_document(conditions))
    }

    /// The find that loads the record: on the shared session inside a transaction, on its own
    /// outside.
    pub fn load<X>(self, ctx: &EntityContext<T::Services, X>) -> (r: FindOneRequest)
        ensures
            r.collection@ == mixed_case(T::NAME@),
            model_of(r.filter) == self@,
            r.in_session == ctx.spec_transaction().is_some(),
    {
        FindOneRequest {
            collection: T::collection_name(),
            filter: self.conditions,
            in_session: ctx.in_transaction(),
        }
    }

    /// The count that tells whether a record matches.
    pub fn existence<X>(self, ctx: &EntityContext<T::Services, X>) -> (r: CountRequest)
        ensures
            r.collection@ == mixed_case(T::NAME@),
            model_of(r.filter) == self@,
            r.options == (CountOptions { limit: None, skip: None }),
            r.in_session == ctx.spec_transaction().is_some(),
    {
        CountRequest {
            collection: T::collection_name(),
            filter: self.conditions,
            options: CountOptions { limit: None, skip: None },
            in_session: ctx.in_transaction(),
        }
    }
}

/// A query for one record of a kind that has to be there: loading nothing is an error.
#[derive(Debug)]
pub struct FindOneQuery<T>(FindOneQueryInner<T>);

/// A query for one record of a kind that may be absent: loading nothing is no error.
#[derive(Debug)]
pub struct MaybeFindOneQuery<T>(FindOneQueryInner<T>);

impl<T> View for FindOneQuery<T> {
    type V = Option<DocumentModel>;

    closed spec fn view(&self) -> Option<DocumentModel> {
        self.0@
    }
}

impl<T> View for MaybeFindOneQuery<T> {
    type V = Option<DocumentModel>;

    closed spec fn view(&self) -> Option<DocumentModel> {
        self.0@
    }
}

impl<T> FindOneQuery<T> {
    /// The query for one record that matches the filter `conditions`.
    pub fn new_untyped(conditions: Option<Document>) -> (r: Self)
        ensures
            r@ == model_of(conditions),
    {
        FindOneQuery(FindOneQueryInner::new_untyped(conditions))
    }
}

impl<T: Entity> FindOneQuery<T> {
    /// The query for one record that meets `conditions`.
    pub fn new(conditions: Option<T::Conditions>) -> (r: Self)
        ensures
            r@ == filter_of(conditions),
    {
        FindOneQuery(FindOneQueryInner::new(conditions))
    }

    /// The same query, for a record that may be absent.
    pub fn optional(self) -> (r: MaybeFindOneQuery<T>)
        ensures
            r@ == self@,
    {
        MaybeFindOneQuery(self.0)
    }

    /// The find that loads the record.
    pub fn load<X>(self, ctx: &EntityContext<T::Services, X>) -> (r: FindOneRequest)
        ensures
            r.collection@ == mixed_case(T::NAME@),
            model_of(r.filter) == self@,
            r.in_session == ctx.spec_transaction().is_some(),
    {
        self.0.load(ctx)
    }

    /// The count that tells whether a record matches.
    pub fn existence<X>(self, ctx: &EntityContext<T::Services, X>) -> (r: CountRequest)
        ensures
            r.collection@ == mixed_case(T::NAME@),
            model_of(r.filter) == self@,
            r.options == (CountOptions { limit: None, skip: None }),
            r.in_session == ctx.spec_transaction().is_some(),
    {
        self.0.existence(ctx)
    }

    /// What the load returns for the store's answer: the record, or a not-found error where
    /// nothing matched.
    pub fn loaded(answer: Result<Option<Document>, Error>) -> (r: Result<T, Error>)
        ensures
            match answer {
                Err(fault) => r == Err::<T, Error>(fault),
                Ok(None) => r matches Err(e) && e.spec_kind() == ErrorKind::NotFound && e.trail()
                    == seq!["not found"@],
                Ok(Some(doc)) => match T::decoded(doc@) {
                    Some(value) => r == Ok::<T, Error>(value),
                    None => r.is_err(),
                },
            },
    {
        require(decode_one(answer))
    }
}

impl<T: Entity> MaybeFindOneQuery<T> {
    /// The query for one record that meets `conditions`.
    pub fn new(conditions: Option<T::Conditions>) -> (r: Self)
        ensures
            r@ == filter_of(conditions),
    {
        MaybeFindOneQuery(FindOneQueryInner::new(conditions))
    }

    /// The same query, for a record that has to be there.
    pub fn required(self) -> (r: FindOneQuery<T>)
        ensures
            r@ == self@,
    {
        FindOneQuery(self.0)
    }

    /// The find that loads the record.
    pub fn load<X>(self, ctx: &EntityContext<T::Services, X>) -> (r: FindOneRequest)
        ensures
            r.collection@ == mixed_case(T::NAME@),
            model_of(r.filter) == self@,
            r.in_session == ctx.spec_transaction().is_some(),
    {
        self.0.load(ctx)
    }

    /// The count that tells whether a record matches.
    pub fn existence<X>(self, ctx: &EntityContext<T::Services, X>) -> (r: CountRequest)
        ensures
            r.collection@ == mixed_case(T::NAME@),
            model_of(r.filter) == self@,
            r.options == (CountOptions { limit: None, skip: None }),
            r.in_session == ctx.spec_transaction().is_some(),
    {
        self.0.existence(ctx)
    }

    /// What the load returns for the store's answer: the record, or nothing where nothing
    /// matched.
    pub fn loaded(answer: Result<Option<Document>, Error>) -> (r: Result<Option<T>, Error>)
        ensures
            match answer {
                Err(fault) => r == Err::<Option<T>, Error>(fault),
                Ok(None) => r == Ok::<Option<T>, Error>(None),
                Ok(Some(doc)) => match T::decoded(doc@) {
                    Some(value) => r == Ok::<Option<T>, Error>(Some(value)),
                    None => r.is_err(),
                },
            },
    {
        decode_one(answer)
    }
}

} // verus!
