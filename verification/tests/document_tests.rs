use mongoose::document::{Document, Value};

fn key(s: &str) -> String {
    s.to_string()
}

#[test]
fn insert_appends_in_order() {
    let mut d = Document::new();
    d.insert(key("a"), Value::Int32(1));
    d.insert(key("b"), Value::Int32(2));
    d.insert(key("c"), Value::Int32(3));
    assert_eq!(d.len(), 3);
    assert_eq!(d.key_at(0), "a");
    assert_eq!(d.key_at(1), "b");
    assert_eq!(d.key_at(2), "c");
    assert_eq!(d.value_at(1), &Value::Int32(2));
}

#[test]
fn insert_replaces_in_place() {
    let mut d = Document::new();
    d.insert(key("a"), Value::Int32(1));
    d.insert(key("b"), Value::Int32(2));
    d.insert(key("a"), Value::Int32(9));
    assert_eq!(d.len(), 2);
    assert_eq!(d.key_at(0), "a");
    assert_eq!(d.value_at(0), &Value::Int32(9));
    assert_eq!(d.get("a"), Some(&Value::Int32(9)));
}

#[test]
fn get_missing_is_none() {
    let mut d = Document::new();
    d.insert(key("a"), Value::Null);
    assert_eq!(d.get("b"), None);
    assert!(d.get("a").is_some());
}

#[test]
fn empty_document() {
    let d = Document::new();
    assert!(d.is_empty());
    assert_eq!(d.len(), 0);
    assert_eq!(d.get("anything"), None);
}

#[test]
fn take_entries_preserves_order() {
    let mut d = Document::new();
    d.insert(key("x"), Value::Bool(true));
    d.insert(key("y"), Value::Str("hello".to_string()));
    let entries = d.take_entries();
    assert_eq!(entries.len(), 2);
    assert_eq!(entries[0].0, "x");
    assert_eq!(entries[0].1, Value::Bool(true));
    assert_eq!(entries[1].0, "y");
    assert_eq!(entries[1].1, Value::Str("hello".to_string()));
}

#[test]
fn array_and_null_values_are_stored_as_given() {
    let mut d = Document::new();
    d.insert(
        key("example_array"),
        Value::Array(vec![Value::Int32(1), Value::Int32(2), Value::Int32(3)]),
    );
    d.insert(key("apt_number"), Value::Null);
    assert_eq!(
        d.get("example_array"),
        Some(&Value::Array(vec![
            Value::Int32(1),
            Value::Int32(2),
            Value::Int32(3)
        ]))
    );
    assert_eq!(d.get("apt_number"), Some(&Value::Null));
}

#[test]
fn nested_documents_compare_deeply() {
    let mut inner1 = Document::new();
    inner1.insert(key("n"), Value::Int64(7));
    let mut inner2 = Document::new();
    inner2.insert(key("n"), Value::Int64(7));
    let mut d1 = Document::new();
    d1.insert(key("outer"), Value::Doc(inner1));
    let mut d2 = Document::new();
    d2.insert(key("outer"), Value::Doc(inner2));
    assert_eq!(d1, d2);
}
