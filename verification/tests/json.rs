use laracli::json::{
    list_or_empty_under_key, list_under_key, member_of, parse_json, strings_of_json, Json,
};

fn text(value: &str) -> Json {
    Json::Text(value.to_string())
}

#[test]
fn parse_reads_every_kind_of_value() {
    assert_eq!(parse_json("null"), Some(Json::Null));
    assert_eq!(parse_json("true"), Some(Json::Bool(true)));
    assert_eq!(parse_json("false"), Some(Json::Bool(false)));
    assert_eq!(parse_json("12.5"), Some(Json::Number));
    assert_eq!(parse_json("-3"), Some(Json::Number));
    assert_eq!(parse_json("\"C:\\\\www\""), Some(text("C:\\www")));
    assert_eq!(parse_json(" [ ] "), Some(Json::Array(Vec::new())));
    assert_eq!(parse_json("{}"), Some(Json::Object(Vec::new())));
}

#[test]
fn parse_reads_nested_values_in_order() {
    let doc = parse_json("{\"b\": [\"x\", 1, null], \"a\": {\"c\": \"\\u00e9\"}}");
    assert_eq!(
        doc,
        Some(Json::Object(vec![
            ("b".to_string(), Json::Array(vec![text("x"), Json::Number, Json::Null])),
            ("a".to_string(), Json::Object(vec![("c".to_string(), text("\u{e9}"))])),
        ]))
    );
}

#[test]
fn parse_refuses_what_is_not_one_document() {
    assert_eq!(parse_json(""), None);
    assert_eq!(parse_json("{"), None);
    assert_eq!(parse_json("{} {}"), None);
    assert_eq!(parse_json("{'a': 1}"), None);
    assert_eq!(parse_json("[1,]"), None);
    assert_eq!(parse_json("watched_paths"), None);
}

#[test]
fn a_key_given_twice_keeps_its_last_value() {
    assert_eq!(
        parse_json("{\"a\": [\"x\"], \"a\": [\"y\"]}"),
        Some(Json::Object(vec![("a".to_string(), Json::Array(vec![text("y")]))]))
    );
}

#[test]
fn members_are_found_by_key() {
    let doc = Json::Object(vec![("a".to_string(), text("x")), ("b".to_string(), Json::Null)]);
    assert_eq!(member_of(&doc, "a"), Some(&text("x")));
    assert_eq!(member_of(&doc, "b"), Some(&Json::Null));
    assert_eq!(member_of(&doc, "c"), None);
    assert_eq!(member_of(&doc, "A"), None);
    assert_eq!(member_of(&Json::Array(vec![text("a")]), "a"), None);
    assert_eq!(member_of(&text("a"), "a"), None);
}

#[test]
fn only_arrays_of_strings_are_lists() {
    assert_eq!(
        strings_of_json(&Json::Array(vec![text("a"), text("b")])),
        Some(vec!["a".to_string(), "b".to_string()])
    );
    assert_eq!(strings_of_json(&Json::Array(Vec::new())), Some(Vec::new()));
    assert_eq!(strings_of_json(&Json::Array(vec![text("a"), Json::Number])), None);
    assert_eq!(strings_of_json(&Json::Array(vec![Json::Array(vec![text("a")])])), None);
    assert_eq!(strings_of_json(&text("a")), None);
    assert_eq!(strings_of_json(&Json::Null), None);
    assert_eq!(strings_of_json(&Json::Object(Vec::new())), None);
}

#[test]
fn lists_are_read_under_a_key() {
    let doc = Json::Object(vec![
        ("paths".to_string(), Json::Array(vec![text("/a")])),
        ("count".to_string(), Json::Number),
    ]);
    assert_eq!(list_under_key(&doc, "paths"), Some(vec!["/a".to_string()]));
    assert_eq!(list_under_key(&doc, "count"), None);
    assert_eq!(list_under_key(&doc, "other"), None);
    assert_eq!(list_under_key(&Json::Null, "paths"), None);
    assert_eq!(list_or_empty_under_key(&doc, "paths"), Some(vec!["/a".to_string()]));
    assert_eq!(list_or_empty_under_key(&doc, "count"), None);
    assert_eq!(list_or_empty_under_key(&doc, "other"), Some(Vec::new()));
    assert_eq!(list_or_empty_under_key(&Json::Null, "paths"), None);
}
