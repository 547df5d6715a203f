use hd2mm_lib::json::{JsonMember, JsonValue};

fn text(value: &str) -> JsonValue {
    JsonValue::Text(value.to_owned())
}

#[test]
fn parse_reads_every_kind_of_value() {
    assert_eq!(JsonValue::parse("null"), Ok(JsonValue::Null));
    assert_eq!(JsonValue::parse("true"), Ok(JsonValue::Bool(true)));
    assert_eq!(JsonValue::parse("false"), Ok(JsonValue::Bool(false)));
    assert_eq!(JsonValue::parse("12"), Ok(JsonValue::Integer(12)));
    assert_eq!(JsonValue::parse("-12"), Ok(JsonValue::Integer(-12)));
    assert_eq!(JsonValue::parse("9223372036854775807"), Ok(JsonValue::Integer(i64::MAX)));
    assert_eq!(JsonValue::parse("9223372036854775808"), Ok(JsonValue::Number));
    assert_eq!(JsonValue::parse("1.0"), Ok(JsonValue::Number));
    assert_eq!(JsonValue::parse("1e3"), Ok(JsonValue::Number));
    assert_eq!(JsonValue::parse("\"a\\nb\""), Ok(text("a\nb")));
    assert_eq!(JsonValue::parse("[]"), Ok(JsonValue::Array(vec![])));
    assert_eq!(JsonValue::parse("{}"), Ok(JsonValue::Object(vec![])));
}

#[test]
fn parse_reads_nested_values_in_order() {
    let parsed = JsonValue::parse(r#"{"a": [1, "x", null, [true]], "b": {"c": {"d": 0}}}"#).unwrap();
    let expected = JsonValue::Object(vec![
        JsonMember {
            key: "a".to_owned(),
            value: JsonValue::Array(vec![
                JsonValue::Integer(1),
                text("x"),
                JsonValue::Null,
                JsonValue::Array(vec![JsonValue::Bool(true)]),
            ]),
        },
        JsonMember {
            key: "b".to_owned(),
            value: JsonValue::Object(vec![JsonMember {
                key: "c".to_owned(),
                value: JsonValue::Object(vec![JsonMember { key: "d".to_owned(), value: JsonValue::Integer(0) }]),
            }]),
        },
    ]);
    assert_eq!(parsed, expected);
}

#[test]
fn parse_refuses_what_is_no_json() {
    assert!(JsonValue::parse("").is_err());
    assert!(JsonValue::parse("{").is_err());
    assert!(JsonValue::parse("[1,]").is_err());
    assert!(JsonValue::parse("nul").is_err());
    assert!(JsonValue::parse("1 2").is_err());
    assert!(!JsonValue::parse("{").unwrap_err().is_empty());
}

#[test]
fn from_value_agrees_with_serde_json() {
    let value: serde_json::Value = serde_json::from_str(r#"{"k": [1, 2.5, "s"], "l": null}"#).unwrap();
    let tree = JsonValue::from_value(&value);
    assert_eq!(tree.get("k"), Some(&JsonValue::Array(vec![JsonValue::Integer(1), JsonValue::Number, text("s")])));
    assert_eq!(tree.get("l"), Some(&JsonValue::Null));
    assert_eq!(tree.get("m"), None);
}

#[test]
fn get_finds_the_first_member_of_a_key() {
    let object = JsonValue::Object(vec![
        JsonMember { key: "a".to_owned(), value: JsonValue::Integer(1) },
        JsonMember { key: "b".to_owned(), value: JsonValue::Integer(2) },
        JsonMember { key: "a".to_owned(), value: JsonValue::Integer(3) },
    ]);
    assert_eq!(object.get("a"), Some(&JsonValue::Integer(1)));
    assert_eq!(object.get("b"), Some(&JsonValue::Integer(2)));
    assert_eq!(object.get("c"), None);
    assert_eq!(object.get(""), None);
    assert_eq!(JsonValue::Array(vec![]).get("a"), None);
    assert_eq!(text("a").get("a"), None);
}
