use entrust::aggregate::{
    AggregateOneQuery, AggregateOneQueryInner, AggregateQuery, MaybeAggregateOneQuery,
};
use entrust::comparison::Comparison;
use entrust::conditions::{EmptyConditions, EntityConditions};
use entrust::context::EntityContext;
use entrust::document::{Document, Value};
use entrust::entity::{id_document, ids_document, Entity};
use entrust::error::{Error, ErrorKind};
use entrust::find::{
    counted, decode_item, decode_one, require, CountOptions, FindOneQuery, FindOneQueryInner,
    FindQuery, MaybeFindOneQuery,
};
use entrust::id::{EntityId, ObjectId};
use entrust::object::Object;
use entrust::services::Services;
use entrust::sorting::{EmptySorting, EntitySorting, SortingDirection};
use std::sync::Arc;

fn text(s: &str) -> Value {
    Value::Text(s.to_owned())
}

fn doc(entries: Vec<(&str, Value)>) -> Document {
    let mut out = Document::new();
    for (key, value) in entries {
        out.insert(key.to_owned(), value);
    }
    out
}

#[derive(Clone, Debug, PartialEq, Eq, PartialOrd, Ord, Hash)]
struct Book {
    id: EntityId<Book>,
    title: String,
}

impl Object for Book {
    fn to_document(&self) -> Result<Document, Error> {
        Ok(doc(vec![("title", text(&self.title))]))
    }

    fn from_document(doc: Document) -> Result<Self, Error> {
        match (doc.get("_id"), doc.get("title")) {
            (Some(Value::ObjectId(raw)), Some(Value::Text(title))) => Ok(Book {
                id: EntityId::from_object_id(ObjectId::from_bytes(*raw)),
                title: title.clone(),
            }),
            _ => Err(Error::new(ErrorKind::Decode, "no book")),
        }
    }
}

struct BookConditions {
    title: Option<Comparison<Value>>,
    search: Option<String>,
}

impl EntityConditions for BookConditions {
    fn to_document(&self) -> Document {
        let mut out = Document::new();
        if let Some(title) = &self.title {
            out.insert("title".to_owned(), title.clone().into_value());
        }
        if let Some(search) = &self.search {
            out.insert("$text".to_owned(), Value::Document(doc(vec![("$search", text(search))])));
        }
        out
    }
}

struct BookSorting {
    title: Option<SortingDirection>,
    year: Option<SortingDirection>,
}

impl EntitySorting for BookSorting {
    fn to_document(&self) -> Document {
        let mut out = Document::new();
        if let Some(direction) = self.title {
            out.insert("title".to_owned(), direction.to_value());
        }
        if let Some(direction) = self.year {
            out.insert("year".to_owned(), direction.to_value());
        }
        out
    }
}

impl Entity for Book {
    const NAME: &'static str = "BookShelf";
    type Services = Services;
    type Conditions = BookConditions;
    type Sorting = BookSorting;

    fn id(&self) -> EntityId<Self> {
        self.id
    }
}

fn services() -> Services {
    let runtime = tokio::runtime::Builder::new_current_thread().enable_all().build().unwrap();
    let _guard = runtime.enter();
    let options = mongodb::options::ClientOptions::builder().build();
    let client = mongodb::Client::with_options(options).unwrap();
    let database = client.database("library");
    Services::new(database, client)
}

fn outside() -> EntityContext<Services, u32> {
    EntityContext::new(services())
}

fn inside() -> EntityContext<Services, u32> {
    outside().init_transaction(Arc::new(7)).ctx
}

fn by_title(title: &str) -> BookConditions {
    BookConditions { title: Some(Comparison::from(text(title))), search: None }
}

fn title_filter(title: &str) -> Document {
    doc(vec![("title", Value::Document(doc(vec![("$eq", text(title))])))])
}

fn relevance() -> Document {
    doc(vec![("score", Value::Document(doc(vec![("$meta", text("textScore"))])))])
}

#[test]
fn comparison_is_the_operand_under_the_operator() {
    let five = || Value::Int32(5);
    assert_eq!(Comparison::Eq(five()).into_value(), Value::Document(doc(vec![("$eq", five())])));
    assert_eq!(Comparison::Gt(five()).into_value(), Value::Document(doc(vec![("$gt", five())])));
    assert_eq!(Comparison::Gte(five()).into_value(), Value::Document(doc(vec![("$gte", five())])));
    assert_eq!(Comparison::Lt(five()).into_value(), Value::Document(doc(vec![("$lt", five())])));
    assert_eq!(Comparison::Lte(five()).into_value(), Value::Document(doc(vec![("$lte", five())])));
    assert!(matches!(Comparison::from(3u8), Comparison::Eq(3)));
}

#[test]
fn sorting_direction_values() {
    assert_eq!(SortingDirection::Asc.to_value(), Value::Int32(1));
    assert_eq!(SortingDirection::Desc.to_value(), Value::Int32(-1));
    assert_eq!(SortingDirection::default(), SortingDirection::Asc);
}

#[test]
fn empty_conditions_and_sorting_are_empty_documents() {
    assert_eq!(EntityConditions::to_document(&EmptyConditions), Document::new());
    assert_eq!(EntitySorting::to_document(&EmptySorting), Document::new());
}

#[test]
fn fresh_query_has_no_options() {
    let request = FindQuery::<Book>::new(None).load(&outside());
    assert_eq!(request.collection, "bookShelf");
    assert_eq!(request.filter, None);
    assert_eq!(request.options.sort, None);
    assert_eq!(request.options.skip, None);
    assert_eq!(request.options.limit, None);
    assert!(!request.in_session);
}

#[test]
fn query_in_a_transaction_runs_on_the_session() {
    let request = FindQuery::<Book>::new(Some(by_title("Emma"))).load(&inside());
    assert!(request.in_session);
    assert_eq!(request.filter, Some(title_filter("Emma")));
    let outside_request = FindQuery::<Book>::new(Some(by_title("Emma"))).load(&outside());
    assert_eq!(outside_request.filter, request.filter);
    assert_eq!(outside_request.options, request.options);
}

#[test]
fn and_nothing_on_no_filter_is_no_filter() {
    let request = FindQuery::<Book>::new(None).and(None).load(&outside());
    assert_eq!(request.filter, None);
}

#[test]
fn and_on_no_filter_is_the_filter() {
    let request = FindQuery::<Book>::new(None).and(Some(by_title("Emma"))).load(&outside());
    assert_eq!(request.filter, Some(title_filter("Emma")));
}

#[test]
fn and_twice_joins_under_and() {
    let request = FindQuery::<Book>::new(None)
        .and(Some(by_title("Emma")))
        .and(Some(by_title("Persuasion")))
        .load(&outside());
    let expected = doc(vec![(
        "$and",
        Value::Array(vec![
            Value::Document(title_filter("Emma")),
            Value::Document(title_filter("Persuasion")),
        ]),
    )]);
    assert_eq!(request.filter, Some(expected));
}

#[test]
fn and_nothing_keeps_the_filter() {
    let request = FindQuery::<Book>::new(Some(by_title("Emma"))).and(None).load(&outside());
    assert_eq!(request.filter, Some(title_filter("Emma")));
}

#[test]
fn and_keeps_conflicting_keys_apart() {
    let request = FindQuery::<Book>::new_untyped(Some(doc(vec![("a", Value::Int32(1))])))
        .and_untyped(Some(doc(vec![("a", Value::Int32(2))])))
        .load(&outside());
    let expected = doc(vec![(
        "$and",
        Value::Array(vec![
            Value::Document(doc(vec![("a", Value::Int32(1))])),
            Value::Document(doc(vec![("a", Value::Int32(2))])),
        ]),
    )]);
    assert_eq!(request.filter, Some(expected));
}

#[test]
fn take_is_the_limit() {
    let request = FindQuery::<Book>::new(None).take(Some(10)).load(&outside());
    assert_eq!(request.options.limit, Some(10));
    let request = FindQuery::<Book>::new(None).take(Some(10)).take(None).load(&outside());
    assert_eq!(request.options.limit, None);
    let request = FindQuery::<Book>::new(None).take(Some(0)).load(&outside());
    assert_eq!(request.options.limit, Some(0));
}

#[test]
fn take_beyond_the_largest_limit_is_the_largest_limit() {
    let request = FindQuery::<Book>::new(None).take(Some(u64::MAX)).load(&outside());
    assert_eq!(request.options.limit, Some(i64::MAX));
    let request = FindQuery::<Book>::new(None).take(Some(i64::MAX as u64 + 1)).load(&outside());
    assert_eq!(request.options.limit, Some(i64::MAX));
    let request = FindQuery::<Book>::new(None).take(Some(i64::MAX as u64)).load(&outside());
    assert_eq!(request.options.limit, Some(i64::MAX));
}

#[test]
fn skip_is_the_skip() {
    let request = FindQuery::<Book>::new(None).skip(Some(3)).take(Some(4)).load(&outside());
    assert_eq!(request.options.skip, Some(3));
    assert_eq!(request.options.limit, Some(4));
    let request = FindQuery::<Book>::new(None).skip(Some(3)).skip(None).load(&outside());
    assert_eq!(request.options.skip, None);
}

#[test]
fn sort_extends_the_sort_document() {
    let by_title = BookSorting { title: Some(SortingDirection::Asc), year: None };
    let by_year = BookSorting { title: None, year: Some(SortingDirection::Desc) };
    let request = FindQuery::<Book>::new(None)
        .sort(Some(by_title))
        .sort(None)
        .sort(Some(by_year))
        .load(&outside());
    assert_eq!(
        request.options.sort,
        Some(doc(vec![("title", Value::Int32(1)), ("year", Value::Int32(-1))]))
    );
}

#[test]
fn later_sort_replaces_the_direction_of_a_known_key() {
    let request = FindQuery::<Book>::new(None)
        .sort(Some(BookSorting { title: Some(SortingDirection::Asc), year: Some(SortingDirection::Asc) }))
        .sort(Some(BookSorting { title: Some(SortingDirection::Desc), year: None }))
        .load(&outside());
    assert_eq!(
        request.options.sort,
        Some(doc(vec![("title", Value::Int32(-1)), ("year", Value::Int32(1))]))
    );
}

#[test]
fn text_search_sorts_by_relevance() {
    let conditions = BookConditions { title: None, search: Some("austen".to_owned()) };
    let request = FindQuery::<Book>::new(Some(conditions)).load(&outside());
    assert_eq!(request.options.sort, Some(relevance()));
}

#[test]
fn nested_text_search_sorts_by_relevance() {
    let filter = doc(vec![(
        "$or",
        Value::Array(vec![Value::Document(doc(vec![(
            "inner",
            Value::Document(doc(vec![("$text", text("x"))])),
        )]))]),
    )]);
    let request = FindQuery::<Book>::new_untyped(Some(filter.clone())).load(&outside());
    assert_eq!(request.options.sort, Some(relevance()));
    assert_eq!(request.filter, Some(filter));
}

#[test]
fn relevance_sort_is_extended_by_a_later_sort() {
    let conditions = BookConditions { title: None, search: Some("austen".to_owned()) };
    let request = FindQuery::<Book>::new(Some(conditions))
        .sort(Some(BookSorting { title: Some(SortingDirection::Asc), year: None }))
        .load(&outside());
    let mut expected = relevance();
    expected.insert("title".to_owned(), Value::Int32(1));
    assert_eq!(request.options.sort, Some(expected));
}

#[test]
fn text_search_added_later_does_not_sort() {
    let conditions = BookConditions { title: None, search: Some("austen".to_owned()) };
    let request = FindQuery::<Book>::new(None).and(Some(conditions)).load(&outside());
    assert_eq!(request.options.sort, None);
}

#[test]
fn count_takes_limit_and_skip_from_the_find() {
    let request = FindQuery::<Book>::new(Some(by_title("Emma")))
        .skip(Some(2))
        .take(Some(5))
        .count(&inside());
    assert_eq!(request.collection, "bookShelf");
    assert_eq!(request.filter, Some(title_filter("Emma")));
    assert_eq!(request.options, CountOptions { limit: Some(5), skip: Some(2) });
    assert!(request.in_session);
    let request = FindQuery::<Book>::new(None).take(Some(u64::MAX)).count(&outside());
    assert_eq!(request.options, CountOptions { limit: Some(i64::MAX as u64), skip: None });
    assert!(!request.in_session);
}

#[test]
fn items_are_decoded_one_by_one() {
    let id = [9u8; 12];
    let good = doc(vec![("_id", Value::ObjectId(id)), ("title", text("Emma"))]);
    let book: Result<Book, Error> = decode_item(Ok(good));
    assert_eq!(book.unwrap().title, "Emma");
    let bad: Result<Book, Error> = decode_item(Ok(doc(vec![("title", Value::Int32(1))])));
    assert_eq!(bad.unwrap_err().kind(), ErrorKind::Decode);
    let failed: Result<Book, Error> = decode_item(Err(Error::new(ErrorKind::Store, "cursor died")));
    assert_eq!(failed, Err(Error::new(ErrorKind::Store, "cursor died")));
}

#[test]
fn find_one_request_and_existence() {
    let request = FindOneQuery::<Book>::new(Some(by_title("Emma"))).load(&inside());
    assert_eq!(request.collection, "bookShelf");
    assert_eq!(request.filter, Some(title_filter("Emma")));
    assert!(request.in_session);
    let request = FindOneQuery::<Book>::new(None).optional().load(&outside());
    assert_eq!(request.filter, None);
    assert!(!request.in_session);
    let request = MaybeFindOneQuery::<Book>::new(Some(by_title("Emma"))).required().existence(&outside());
    assert_eq!(request.filter, Some(title_filter("Emma")));
    assert_eq!(request.options, CountOptions { limit: None, skip: None });
    let request = FindOneQueryInner::<Book>::new(None).existence(&inside());
    assert!(request.in_session);
    let request = FindOneQueryInner::<Book>::new_untyped(Some(title_filter("x"))).load(&outside());
    assert_eq!(request.filter, Some(title_filter("x")));
    let request = MaybeFindOneQuery::<Book>::new(None).load(&inside());
    assert!(request.in_session);
    let request = MaybeFindOneQuery::<Book>::new(None).existence(&inside());
    assert!(request.in_session);
    let request = FindOneQuery::<Book>::new(None).existence(&outside());
    assert_eq!(request.filter, None);
}

#[test]
fn required_load_of_nothing_is_not_found() {
    let missing = FindOneQuery::<Book>::loaded(Ok(None)).unwrap_err();
    assert_eq!(missing.kind(), ErrorKind::NotFound);
    assert_eq!(missing.message().unwrap(), "not found");
    assert_eq!(MaybeFindOneQuery::<Book>::loaded(Ok(None)), Ok(None));
    let good = doc(vec![("_id", Value::ObjectId([1; 12])), ("title", text("Emma"))]);
    assert_eq!(FindOneQuery::<Book>::loaded(Ok(Some(good.clone()))).unwrap().title, "Emma");
    assert_eq!(MaybeFindOneQuery::<Book>::loaded(Ok(Some(good))).unwrap().unwrap().title, "Emma");
    let store = Error::new(ErrorKind::Store, "down");
    assert_eq!(FindOneQuery::<Book>::loaded(Err(store.clone())), Err(store.clone()));
    assert_eq!(MaybeFindOneQuery::<Book>::loaded(Err(store.clone())), Err(store.clone()));
    let bad = doc(vec![("title", text("Emma"))]);
    assert!(FindOneQuery::<Book>::loaded(Ok(Some(bad.clone()))).is_err());
    assert!(decode_one::<Book>(Ok(Some(bad))).is_err());
    assert_eq!(require::<u8>(Ok(Some(3))), Ok(3));
    assert_eq!(require::<u8>(Err(store.clone())), Err(store));
}

#[test]
fn existence_is_a_positive_count() {
    assert_eq!(counted(Ok(0)), Ok(false));
    assert_eq!(counted(Ok(1)), Ok(true));
    assert_eq!(counted(Ok(u64::MAX)), Ok(true));
    let store = Error::new(ErrorKind::Store, "down");
    assert_eq!(counted(Err(store.clone())), Err(store));
}

#[test]
fn entity_queries() {
    let id = EntityId::<Book>::from_object_id(ObjectId::from_bytes([4; 12]));
    let other = EntityId::<Book>::from_object_id(ObjectId::from_bytes([5; 12]));
    let request = Book::get(id).load(&outside());
    assert_eq!(request.filter, Some(doc(vec![("_id", Value::ObjectId([4; 12]))])));
    assert_eq!(id_document(id), doc(vec![("_id", Value::ObjectId([4; 12]))]));
    let request = Book::get_many(vec![id, other]).load(&outside());
    let among = doc(vec![(
        "_id",
        Value::Document(doc(vec![(
            "$in",
            Value::Array(vec![Value::ObjectId([4; 12]), Value::ObjectId([5; 12])]),
        )])),
    )]);
    assert_eq!(request.filter, Some(among.clone()));
    assert_eq!(ids_document(vec![id, other]), among);
    assert_eq!(request.options.sort, None);
    assert_eq!(Book::all().load(&outside()).filter, None);
    assert_eq!(Book::find(Some(by_title("Emma"))).load(&outside()).filter, Some(title_filter("Emma")));
    assert_eq!(Book::find_one(Some(by_title("Emma"))).load(&outside()).filter, Some(title_filter("Emma")));
    assert_eq!(Book::find_one(None).load(&outside()).filter, None);
    assert!(Book::validate(&Book { id, title: String::new() }).is_ok());
}

fn stage(key: &str, value: Value) -> Document {
    doc(vec![(key, value)])
}

#[test]
fn aggregation_appends_skip_then_limit() {
    let pipeline = vec![stage("$match", Value::Document(title_filter("Emma")))];
    let request = AggregateQuery::<Book, Book>::new(pipeline.clone())
        .take(Some(5))
        .skip(Some(2))
        .load(&outside());
    assert_eq!(request.collection, "bookShelf");
    assert!(!request.in_session);
    assert_eq!(
        request.pipeline,
        vec![pipeline[0].clone(), stage("$skip", Value::Int32(2)), stage("$limit", Value::Int32(5))]
    );
    let request = AggregateQuery::<Book, Book>::new(pipeline.clone()).load(&inside());
    assert!(request.in_session);
    assert_eq!(request.pipeline, pipeline);
    let request = Book::aggregate::<Book>(pipeline.clone()).take(Some(1)).load(&outside());
    assert_eq!(request.pipeline, vec![pipeline[0].clone(), stage("$limit", Value::Int32(1))]);
}

#[test]
fn aggregation_counts_behind_the_paging() {
    let request = AggregateQuery::<Book, Book>::new(vec![])
        .skip(Some(2))
        .take(Some(u32::MAX))
        .count(&inside());
    assert!(request.in_session);
    assert_eq!(
        request.pipeline,
        vec![
            stage("$skip", Value::Int32(2)),
            stage("$limit", Value::Int64(u32::MAX as i64)),
            stage("$count", text("_count")),
        ]
    );
    let request = AggregateQuery::<Book, Book>::new(vec![]).count(&outside());
    assert_eq!(request.pipeline, vec![stage("$count", text("_count"))]);
}

#[test]
fn paging_values_are_those_of_the_store_library() {
    for n in [0u32, 1, i32::MAX as u32, i32::MAX as u32 + 1, u32::MAX] {
        let request = AggregateQuery::<Book, Book>::new(vec![]).skip(Some(n)).load(&outside());
        let ours = request.pipeline[0].get("$skip").unwrap().clone();
        let theirs = match bson::Bson::from(n) {
            bson::Bson::Int32(i) => Value::Int32(i),
            bson::Bson::Int64(i) => Value::Int64(i),
            _ => unreachable!(),
        };
        assert_eq!(ours, theirs);
    }
}

#[test]
fn aggregation_count_is_read_from_the_answer() {
    let answer = doc(vec![("_count", Value::Int64(12))]);
    assert_eq!(AggregateQuery::<Book, Book>::counted(Ok(Some(answer))), Ok(12));
    let wrong = doc(vec![("_count", Value::Int32(12))]);
    assert_eq!(AggregateQuery::<Book, Book>::counted(Ok(Some(wrong))).unwrap_err().kind(), ErrorKind::Decode);
    let negative = doc(vec![("_count", Value::Int64(-1))]);
    assert_eq!(AggregateQuery::<Book, Book>::counted(Ok(Some(negative))).unwrap_err().kind(), ErrorKind::Decode);
    assert_eq!(AggregateQuery::<Book, Book>::counted(Ok(Some(Document::new()))).unwrap_err().kind(), ErrorKind::Decode);
    assert_eq!(AggregateQuery::<Book, Book>::counted(Ok(None)).unwrap_err().kind(), ErrorKind::Decode);
    let store = Error::new(ErrorKind::Store, "down");
    assert_eq!(AggregateQuery::<Book, Book>::counted(Err(store.clone())), Err(store));
}

#[test]
fn aggregation_items_are_decoded_with_context() {
    let good = doc(vec![("_id", Value::ObjectId([1; 12])), ("title", text("Emma"))]);
    assert_eq!(AggregateQuery::<Book, Book>::decode(Ok(good)).unwrap().title, "Emma");
    let bad = AggregateQuery::<Book, Book>::decode(Ok(Document::new())).unwrap_err();
    assert_eq!(bad.depth(), 2);
    assert_eq!(bad.message_at(0), "no book");
    assert_eq!(bad.message().unwrap(), "failed to deserialize object");
    let store = Error::new(ErrorKind::Store, "down");
    assert_eq!(AggregateQuery::<Book, Book>::decode(Err(store.clone())), Err(store));
}

#[test]
fn aggregation_for_one_limits_to_one() {
    let pipeline = vec![stage("$match", Value::Document(title_filter("Emma")))];
    let request = AggregateOneQuery::<Book, Book>::new(pipeline.clone()).load(&inside());
    assert!(request.in_session);
    assert_eq!(request.pipeline, vec![pipeline[0].clone(), stage("$limit", Value::Int32(1))]);
    let request = MaybeAggregateOneQuery::<Book, Book>::new(vec![]).required().optional().load(&outside());
    assert_eq!(request.pipeline, vec![stage("$limit", Value::Int32(1))]);
    let request = AggregateOneQueryInner::<Book, Book>::new(vec![]).load(&outside());
    assert_eq!(request.pipeline, vec![stage("$limit", Value::Int32(1))]);
    let request = Book::aggregate_one::<Book>(vec![]).load(&outside());
    assert_eq!(request.collection, "bookShelf");
}

#[test]
fn aggregation_for_one_requires_a_document() {
    let missing = AggregateOneQuery::<Book, Book>::loaded(Ok(None)).unwrap_err();
    assert_eq!(missing.kind(), ErrorKind::NotFound);
    assert_eq!(MaybeAggregateOneQuery::<Book, Book>::loaded(Ok(None)), Ok(None));
    let good = doc(vec![("_id", Value::ObjectId([1; 12])), ("title", text("Emma"))]);
    assert_eq!(AggregateOneQuery::<Book, Book>::loaded(Ok(Some(good.clone()))).unwrap().title, "Emma");
    assert_eq!(
        MaybeAggregateOneQuery::<Book, Book>::loaded(Ok(Some(good.clone()))).unwrap().unwrap().title,
        "Emma"
    );
    assert_eq!(AggregateOneQueryInner::<Book, Book>::loaded(Ok(Some(good))).unwrap().unwrap().title, "Emma");
    let bad = AggregateOneQuery::<Book, Book>::loaded(Ok(Some(Document::new()))).unwrap_err();
    assert_eq!(bad.message().unwrap(), "failed to deserialize object");
}
