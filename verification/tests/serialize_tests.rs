use cwnote::json::Json;
use cwnote::serialize::to_json_string;
use cwnote::text::sanitize_name;

fn s(text: &str) -> Json {
    Json::Str(text.to_string())
}

fn obj(entries: Vec<(&str, Json)>) -> Json {
    Json::Obj(entries.into_iter().map(|(k, v)| (k.to_string(), v)).collect())
}

#[test]
fn serializes_scalars() {
    assert_eq!(to_json_string(&Json::Null), "null");
    assert_eq!(to_json_string(&Json::Bool(true)), "true");
    assert_eq!(to_json_string(&Json::Bool(false)), "false");
    assert_eq!(to_json_string(&Json::Num("42".to_string())), "42");
    assert_eq!(to_json_string(&s("hi")), "\"hi\"");
}

#[test]
fn number_literals_pass_through_unchanged() {
    assert_eq!(to_json_string(&Json::Num("-12.5e3".to_string())), "-12.5e3");
}

#[test]
fn serializes_compact_objects_in_field_order() {
    let doc = obj(vec![
        ("b", Json::Num("1".to_string())),
        ("a", Json::Arr(vec![Json::Null, Json::Bool(false)])),
    ]);
    assert_eq!(to_json_string(&doc), "{\"b\":1,\"a\":[null,false]}");
}

#[test]
fn escapes_quotes_backslashes_and_control_characters() {
    let doc = s("a\"b\\c\nd\te\u{1}f");
    assert_eq!(to_json_string(&doc), "\"a\\\"b\\\\c\\nd\\te\\u0001f\"");
}

#[test]
fn serialized_output_parses_back_with_a_standard_parser() {
    let doc = obj(vec![
        ("title", s("Latency \"p95\"\n")),
        ("widgets", Json::Arr(vec![obj(vec![("type", s("metric"))])])),
    ]);
    let body = to_json_string(&doc);
    let parsed: serde_json::Value = serde_json::from_str(&body).unwrap();
    assert_eq!(parsed["title"], "Latency \"p95\"\n");
    assert_eq!(parsed["widgets"][0]["type"], "metric");
}

#[test]
fn sanitize_lowercases_and_hyphenates() {
    assert_eq!(sanitize_name("My Dashboard (EU)!"), "my-dashboard--eu--");
    assert_eq!(sanitize_name("abc-123"), "abc-123");
    assert_eq!(sanitize_name(""), "");
}
