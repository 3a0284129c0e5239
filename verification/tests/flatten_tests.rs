//! Scenarios for the flattener: paths, leaf texts, collisions, and the
//! corner shapes of the structured value.

use string_templater::{flatten, parse_to_hashmap, StructuredValue};

fn text(s: &str) -> StructuredValue {
    StructuredValue::Text(s.to_string())
}

fn object(fields: Vec<(&str, StructuredValue)>) -> StructuredValue {
    StructuredValue::Object(fields.into_iter().map(|(k, v)| (k.to_string(), v)).collect())
}

#[test]
fn flatten_nested_object() {
    let v = object(vec![("son", object(vec![("name", text("Doe"))]))]);
    let map = flatten(&v);
    assert_eq!(map.get(&"son.name".to_string()), Some(&"Doe".to_string()));
}

#[test]
fn flatten_array_uses_indices() {
    let v = object(vec![(
        "items",
        StructuredValue::Array(vec![text("a"), text("b")]),
    )]);
    let map = flatten(&v);
    assert_eq!(map.get(&"items.0".to_string()), Some(&"a".to_string()));
    assert_eq!(map.get(&"items.1".to_string()), Some(&"b".to_string()));
}

#[test]
fn flatten_scalar_leaf_texts() {
    let v = object(vec![
        ("null_field", StructuredValue::Null),
        ("yes", StructuredValue::Bool(true)),
        ("no", StructuredValue::Bool(false)),
        ("count", StructuredValue::Number("42".to_string())),
        ("word", text("hi")),
    ]);
    let map = flatten(&v);
    assert_eq!(map.get(&"null_field".to_string()), Some(&"null".to_string()));
    assert_eq!(map.get(&"yes".to_string()), Some(&"true".to_string()));
    assert_eq!(map.get(&"no".to_string()), Some(&"false".to_string()));
    assert_eq!(map.get(&"count".to_string()), Some(&"42".to_string()));
    assert_eq!(map.get(&"word".to_string()), Some(&"hi".to_string()));
}

#[test]
fn flatten_top_level_leaf_uses_empty_path() {
    let map = flatten(&StructuredValue::Null);
    assert_eq!(map.get(&"".to_string()), Some(&"null".to_string()));
}

#[test]
fn flatten_top_level_array_keeps_leading_separator() {
    // A bare top-level array extends the empty prefix with `.index`, so its
    // items live under paths that start with the separator.
    let map = flatten(&StructuredValue::Array(vec![text("a")]));
    assert_eq!(map.get(&".0".to_string()), Some(&"a".to_string()));
}

#[test]
fn flatten_collision_last_write_wins() {
    let v = object(vec![("a", text("first")), ("a", text("second"))]);
    let map = flatten(&v);
    assert_eq!(map.get(&"a".to_string()), Some(&"second".to_string()));
}

#[test]
fn flatten_two_digit_indices() {
    let items: Vec<StructuredValue> = (0..12).map(|i| text(&i.to_string())).collect();
    let v = object(vec![("items", StructuredValue::Array(items))]);
    let map = flatten(&v);
    assert_eq!(map.get(&"items.10".to_string()), Some(&"10".to_string()));
    assert_eq!(map.get(&"items.11".to_string()), Some(&"11".to_string()));
}

#[test]
fn flatten_empty_containers_yield_no_entries() {
    let v = object(vec![
        ("obj", StructuredValue::Object(vec![])),
        ("arr", StructuredValue::Array(vec![])),
    ]);
    let map = flatten(&v);
    assert_eq!(map.get(&"obj".to_string()), None);
    assert_eq!(map.get(&"arr".to_string()), None);
}

#[test]
fn parse_to_hashmap_always_succeeds() {
    let v = object(vec![("name", text("Doe"))]);
    let map = parse_to_hashmap(&v).unwrap();
    assert_eq!(map.get(&"name".to_string()), Some(&"Doe".to_string()));
}
