use entrust::document::{text_eq, Document, Value};
use entrust::operator::{has_operator, value_holds_operator};
use entrust::util::{
    camelize_document, recase_key, snakeify_document, transform_document, transform_value, KeyCase,
};

fn text(s: &str) -> Value {
    Value::Text(s.to_owned())
}

fn doc(entries: Vec<(&str, Value)>) -> Document {
    let mut out = Document::new();
    for (key, value) in entries {
        out.insert(key.to_owned(), value);
    }
    out
}

#[test]
fn new_document_is_empty() {
    let d = Document::new();
    assert!(d.is_empty());
    assert_eq!(d.len(), 0);
    assert!(d.get("a").is_none());
    assert!(!d.contains_key("a"));
}

#[test]
fn insert_appends_new_keys_in_order() {
    let mut d = Document::new();
    assert_eq!(d.insert("b".to_owned(), Value::Int32(1)), None);
    assert_eq!(d.insert("a".to_owned(), Value::Int32(2)), None);
    assert_eq!(d.len(), 2);
    assert_eq!(d.key_at(0), "b");
    assert_eq!(d.key_at(1), "a");
    assert_eq!(d.value_at(0), &Value::Int32(1));
    assert_eq!(d.get("a"), Some(&Value::Int32(2)));
    assert!(d.contains_key("b"));
}

#[test]
fn insert_replaces_a_known_key_in_place() {
    let mut d = doc(vec![("a", Value::Int32(1)), ("b", Value::Int32(2)), ("c", Value::Int32(3))]);
    assert_eq!(d.insert("b".to_owned(), text("x")), Some(Value::Int32(2)));
    assert_eq!(d.len(), 3);
    assert_eq!(d.key_at(1), "b");
    assert_eq!(d.value_at(1), &text("x"));
    assert_eq!(d, doc(vec![("a", Value::Int32(1)), ("b", text("x")), ("c", Value::Int32(3))]));
}

#[test]
fn remove_keeps_the_order_of_the_rest() {
    let mut d = doc(vec![("a", Value::Int32(1)), ("b", Value::Int32(2)), ("c", Value::Int32(3))]);
    assert_eq!(d.remove("a"), Some(Value::Int32(1)));
    assert_eq!(d.remove("zz"), None);
    assert_eq!(d, doc(vec![("b", Value::Int32(2)), ("c", Value::Int32(3))]));
}

#[test]
fn extend_puts_each_entry_in_order() {
    let mut d = doc(vec![("a", Value::Int32(1)), ("b", Value::Int32(2))]);
    d.extend(doc(vec![("c", Value::Int32(3)), ("a", Value::Int32(9))]));
    assert_eq!(d, doc(vec![("a", Value::Int32(9)), ("b", Value::Int32(2)), ("c", Value::Int32(3))]));
}

#[test]
fn document_behaves_like_the_store_document() {
    let mut ours = Document::new();
    let mut theirs = bson::Document::new();
    for (key, n) in [("x", 1), ("y", 2), ("x", 3), ("z", 4)] {
        ours.insert(key.to_owned(), Value::Int32(n));
        theirs.insert(key, n);
    }
    ours.remove("y");
    theirs.remove("y");
    let keys: Vec<String> = (0..ours.len()).map(|i| ours.key_at(i).clone()).collect();
    let their_keys: Vec<String> = theirs.keys().cloned().collect();
    assert_eq!(keys, their_keys);
    assert_eq!(ours.get("x"), Some(&Value::Int32(3)));
    assert_eq!(theirs.get_i32("x").unwrap(), 3);
}

#[test]
fn into_entries_hands_out_the_entries() {
    let d = doc(vec![("a", Value::Null), ("b", Value::Boolean(true))]);
    assert_eq!(
        d.into_entries(),
        vec![("a".to_owned(), Value::Null), ("b".to_owned(), Value::Boolean(true))]
    );
}

#[test]
fn clone_is_deep() {
    let d = doc(vec![("a", Value::Array(vec![Value::Document(doc(vec![("b", text("c"))]))]))]);
    let copy = d.clone();
    assert_eq!(copy, d);
}

#[test]
fn text_eq_compares_texts() {
    assert!(text_eq("abc", "abc"));
    assert!(!text_eq("abc", "abd"));
    assert!(!text_eq("abc", "ab"));
    assert!(text_eq("", ""));
    assert!(text_eq("é", "é"));
}

#[test]
fn keys_are_recased_by_heck() {
    assert_eq!(recase_key(KeyCase::Mixed, "first_name"), "firstName");
    assert_eq!(recase_key(KeyCase::Snake, "firstName"), "first_name");
    assert_eq!(recase_key(KeyCase::Mixed, "first_name"), heck::MixedCase::to_mixed_case("first_name"));
    assert_eq!(recase_key(KeyCase::Snake, "XMLHttpRequest"), heck::SnakeCase::to_snake_case("XMLHttpRequest"));
    assert_eq!(recase_key(KeyCase::Snake, "XMLHttpRequest"), "xml_http_request");
}

#[test]
fn camelize_renames_keys_in_depth() {
    let d = doc(vec![
        ("first_name", text("snake_value")),
        (
            "home_address",
            Value::Document(doc(vec![("zip_code", Value::Int32(7)), ("street_name", text("a_b"))])),
        ),
        (
            "past_orders",
            Value::Array(vec![
                Value::Document(doc(vec![("order_id", Value::Int64(1))])),
                text("order_id"),
                Value::Array(vec![Value::Document(doc(vec![("line_no", Value::Int32(2))]))]),
            ]),
        ),
    ]);
    let expected = doc(vec![
        ("firstName", text("snake_value")),
        (
            "homeAddress",
            Value::Document(doc(vec![("zipCode", Value::Int32(7)), ("streetName", text("a_b"))])),
        ),
        (
            "pastOrders",
            Value::Array(vec![
                Value::Document(doc(vec![("orderId", Value::Int64(1))])),
                text("order_id"),
                Value::Array(vec![Value::Document(doc(vec![("lineNo", Value::Int32(2))]))]),
            ]),
        ),
    ]);
    assert_eq!(camelize_document(d), expected);
}

#[test]
fn snakeify_undoes_camelize() {
    let d = doc(vec![
        ("first_name", text("x")),
        ("address", Value::Document(doc(vec![("zip_code", Value::Int32(7))]))),
        ("tags", Value::Array(vec![Value::Document(doc(vec![("tag_name", text("t"))]))])),
        ("created", Value::DateTime(17)),
        ("owner", Value::ObjectId([3; 12])),
        ("ratio", Value::Double(0x3ff8000000000000)),
        ("nothing", Value::Null),
    ]);
    let there = camelize_document(d.clone());
    assert_eq!(there.key_at(0), "firstName");
    assert_eq!(snakeify_document(there), d);
}

#[test]
fn later_entry_wins_where_keys_collide() {
    let d = doc(vec![("foo_bar", Value::Int32(1)), ("x", Value::Int32(0)), ("fooBar", Value::Int32(2))]);
    let out = transform_document(d, KeyCase::Mixed);
    assert_eq!(out, doc(vec![("fooBar", Value::Int32(2)), ("x", Value::Int32(0))]));
}

#[test]
fn transform_leaves_scalars_alone() {
    assert_eq!(transform_value(text("some_key"), KeyCase::Mixed), text("some_key"));
    assert_eq!(transform_value(Value::Int32(4), KeyCase::Snake), Value::Int32(4));
    assert_eq!(transform_document(Document::new(), KeyCase::Snake), Document::new());
}

#[test]
fn operator_is_found_at_the_top() {
    let d = doc(vec![("$text", Value::Document(doc(vec![("$search", text("x"))])))]);
    assert!(has_operator(&d, "$text"));
    assert!(has_operator(&d, "$search"));
    assert!(!has_operator(&d, "$or"));
}

#[test]
fn operator_is_found_two_levels_deep() {
    let d = doc(vec![(
        "$or",
        Value::Array(vec![Value::Document(doc(vec![(
            "inner",
            Value::Document(doc(vec![("$text", text("x"))])),
        )]))]),
    )]);
    assert!(has_operator(&d, "$text"));
    assert!(!has_operator(&d, "$meta"));
}

#[test]
fn operator_is_not_found_in_a_text() {
    let d = doc(vec![("name", text("$text")), ("list", Value::Array(vec![text("$text")]))]);
    assert!(!has_operator(&d, "$text"));
    assert!(!has_operator(&Document::new(), "$text"));
    assert!(!value_holds_operator(&text("$text"), "$text"));
    assert!(value_holds_operator(&Value::Array(vec![Value::Document(doc(vec![("$text", Value::Null)]))]), "$text"));
}
