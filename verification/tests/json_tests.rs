use wizctl::json::JsonValue;

fn parse(text: &str) -> JsonValue {
    JsonValue::parse(text).unwrap()
}

#[test]
fn parses_scalars() {
    assert!(matches!(parse("null"), JsonValue::Null));
    assert!(matches!(parse("true"), JsonValue::Bool(true)));
    assert!(matches!(parse("false"), JsonValue::Bool(false)));
    assert!(matches!(parse("0"), JsonValue::Int(0)));
    assert!(matches!(parse("-42"), JsonValue::Int(-42)));
    assert!(matches!(parse("9223372036854775807"), JsonValue::Int(i64::MAX)));
    assert!(matches!(parse("-9223372036854775808"), JsonValue::Int(i64::MIN)));
}

#[test]
fn rejects_integers_beyond_the_wire_range() {
    assert!(JsonValue::parse("9223372036854775808").is_none());
    assert!(JsonValue::parse("-9223372036854775809").is_none());
    assert!(JsonValue::parse("99999999999999999999999999").is_none());
}

#[test]
fn parses_strings_with_escapes() {
    match parse("\"a\\\"b\\\\c\"") {
        JsonValue::Str(s) => assert_eq!(s, "a\"b\\c"),
        _ => panic!("expected a string"),
    }
}

#[test]
fn parses_nested_structures() {
    let v = parse("{\"a\":[1,2,3],\"b\":{\"c\":true}}");
    match v.get("a") {
        Some(JsonValue::Arr(es)) => assert_eq!(es.len(), 3),
        _ => panic!("expected an array member"),
    }
    match v.get("b") {
        Some(inner) => assert_eq!(inner.get_bool("c"), Some(true)),
        None => panic!("expected an object member"),
    }
}

#[test]
fn rejects_malformed_documents() {
    assert!(JsonValue::parse("").is_none());
    assert!(JsonValue::parse("{").is_none());
    assert!(JsonValue::parse("{\"a\":}").is_none());
    assert!(JsonValue::parse("[1,]").is_none());
    assert!(JsonValue::parse("tru").is_none());
    assert!(JsonValue::parse("\"unterminated").is_none());
    assert!(JsonValue::parse("{}extra").is_none());
}

#[test]
fn serialize_then_parse_is_identity() {
    let text = "{\"m\":\"x\",\"n\":-7,\"o\":{\"p\":[0,255],\"q\":null},\"r\":false}";
    let v = parse(text);
    let out = v.serialize();
    assert_eq!(out, text);
    let again = parse(&out);
    assert_eq!(again.serialize(), text);
}

#[test]
fn serialized_output_matches_an_independent_parser() {
    let v = parse("{\"state\":true,\"dimming\":128,\"name\":\"a b\"}");
    let text = v.serialize();
    let reference: serde_json::Value = serde_json::from_str(&text).unwrap();
    assert_eq!(reference["state"], true);
    assert_eq!(reference["dimming"], 128);
    assert_eq!(reference["name"], "a b");
}

#[test]
fn first_member_wins_on_duplicate_keys() {
    let v = parse("{\"a\":1,\"a\":2}");
    match v.get("a") {
        Some(JsonValue::Int(n)) => assert_eq!(*n, 1),
        _ => panic!("expected an integer member"),
    }
}

#[test]
fn lookup_misses_are_none() {
    let v = parse("{\"a\":1}");
    assert!(v.get("b").is_none());
    assert!(parse("[1]").get("a").is_none());
}
