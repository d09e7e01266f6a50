use corky_relay::interop::{render, render_compact, try_parse_json_bytes, try_parse_json_str};
use corky_relay::json::{Json, JsonObject};

fn number(n: u64) -> Json {
    Json::Number(serde_json::Number::from(n))
}

fn text(s: &str) -> Json {
    Json::Text(s.to_string())
}

#[test]
fn new_object_is_empty() {
    let obj = JsonObject::new();
    assert_eq!(obj.len(), 0);
    assert_eq!(obj.find(&"a".to_string()), None);
}

#[test]
fn insert_appends_new_keys_in_order() {
    let mut obj = JsonObject::new();
    obj.insert("b".to_string(), number(1));
    obj.insert("a".to_string(), number(2));
    obj.insert("c".to_string(), Json::Null);
    assert_eq!(obj.len(), 3);
    assert_eq!(obj.key(0), "b");
    assert_eq!(obj.key(1), "a");
    assert_eq!(obj.key(2), "c");
    assert_eq!(obj.value(1), &number(2));
    assert_eq!(obj.find(&"a".to_string()), Some(1));
    assert_eq!(obj.find(&"z".to_string()), None);
    assert_eq!(obj.get(&"a".to_string()), Some(&number(2)));
    assert_eq!(obj.get(&"c".to_string()), Some(&Json::Null));
    assert_eq!(obj.get(&"z".to_string()), None);
}

#[test]
fn insert_replaces_the_value_of_a_key_in_place() {
    let mut obj = JsonObject::new();
    obj.insert("a".to_string(), number(1));
    obj.insert("b".to_string(), number(2));
    obj.insert("a".to_string(), text("new"));
    assert_eq!(obj.len(), 2);
    assert_eq!(obj.key(0), "a");
    assert_eq!(obj.value(0), &text("new"));
    assert_eq!(obj.key(1), "b");
    assert_eq!(obj.value(1), &number(2));
}

#[test]
fn clone_gives_an_equal_value() {
    let value = try_parse_json_str("{\"a\": [1, -2, 3.5, \"x\", null, true], \"b\": {\"c\": []}}")
        .unwrap();
    let copy = value.clone();
    assert_eq!(copy, value);
    assert_eq!(render(&copy), render(&value));
}

#[test]
fn parsing_keeps_the_order_of_keys() {
    let value = try_parse_json_str("{\"zeta\": 1, \"alpha\": 2, \"mid\": 3}").unwrap();
    match value {
        Json::Object(obj) => {
            assert_eq!(obj.len(), 3);
            assert_eq!(obj.key(0), "zeta");
            assert_eq!(obj.key(1), "alpha");
            assert_eq!(obj.key(2), "mid");
            assert_eq!(obj.value(0), &number(1));
        }
        other => panic!("not an object: {:?}", other),
    }
}

#[test]
fn parsing_tells_the_variants_apart() {
    assert_eq!(try_parse_json_str("null"), Some(Json::Null));
    assert_eq!(try_parse_json_str("true"), Some(Json::Bool(true)));
    assert_eq!(try_parse_json_str("false"), Some(Json::Bool(false)));
    assert_eq!(try_parse_json_str("17"), Some(number(17)));
    assert_eq!(try_parse_json_str("\"hi\""), Some(text("hi")));
    assert_eq!(
        try_parse_json_str("[1, \"a\"]"),
        Some(Json::Array(vec![number(1), text("a")]))
    );
    assert_eq!(try_parse_json_str("{}"), Some(Json::Object(JsonObject::new())));
}

#[test]
fn parsing_rejects_what_is_no_json() {
    assert_eq!(try_parse_json_str("hello"), None);
    assert_eq!(try_parse_json_str("{\"a\": }"), None);
    assert_eq!(try_parse_json_str(""), None);
    assert_eq!(try_parse_json_str("[1, 2] x"), None);
    assert_eq!(try_parse_json_bytes(b"{"), None);
    assert_eq!(try_parse_json_bytes(&[0xff, 0xfe]), None);
}

#[test]
fn parsing_bytes_and_text_agree() {
    let source = " {\"k\": [1, {\"n\": null}]} ";
    assert_eq!(try_parse_json_bytes(source.as_bytes()), try_parse_json_str(source));
    assert!(try_parse_json_bytes(source.as_bytes()).is_some());
}

#[test]
fn parsing_a_repeated_key_keeps_the_last_value_at_the_first_place() {
    let value = try_parse_json_str("{\"a\": 1, \"b\": 2, \"a\": 3}").unwrap();
    let mut expected = JsonObject::new();
    expected.insert("a".to_string(), number(3));
    expected.insert("b".to_string(), number(2));
    assert_eq!(value, Json::Object(expected));
}

#[test]
fn render_prints_indented() {
    let mut obj = JsonObject::new();
    obj.insert("b".to_string(), number(1));
    obj.insert("a".to_string(), Json::Array(vec![Json::Null, Json::Bool(false), text("q\"")]));
    let out = render(&Json::Object(obj));
    assert_eq!(
        out,
        "{\n  \"b\": 1,\n  \"a\": [\n    null,\n    false,\n    \"q\\\"\"\n  ]\n}"
    );
}

#[test]
fn render_compact_prints_on_one_line() {
    let mut obj = JsonObject::new();
    obj.insert("b".to_string(), number(1));
    obj.insert("a".to_string(), Json::Array(vec![Json::Null, text("x")]));
    assert_eq!(render_compact(&Json::Object(obj)), "{\"b\":1,\"a\":[null,\"x\"]}");
    assert_eq!(render_compact(&Json::Array(vec![])), "[]");
}

#[test]
fn render_gives_back_what_was_parsed() {
    let source = "{\n  \"n\": -12,\n  \"f\": 1.5,\n  \"s\": \"a b\",\n  \"l\": []\n}";
    let value = try_parse_json_str(source).unwrap();
    assert_eq!(render(&value), source);
}
