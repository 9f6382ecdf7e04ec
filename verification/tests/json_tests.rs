use pxros::json::{find_key, text_less, Json, Member};

fn chars(s: &str) -> Vec<char> {
    s.chars().collect()
}

fn text(s: &str) -> Json {
    Json::Text(s.to_string())
}

fn member(key: &str, value: Json) -> Member {
    Member { key: key.to_string(), value }
}

#[test]
fn parse_reads_every_kind_of_value() {
    let doc = Json::parse(r#"{"b": [1, "two", null, true], "a": {"x": "y"}}"#).unwrap();
    let expected = Json::Object(vec![
        member("a", Json::Object(vec![member("x", text("y"))])),
        member(
            "b",
            Json::Array(vec![
                Json::Number(serde_json::Number::from(1u64)),
                text("two"),
                Json::Null,
                Json::Bool(true),
            ]),
        ),
    ]);
    assert_eq!(doc, expected);
}

#[test]
fn parse_lists_members_by_key_and_keeps_the_last_of_equal_keys() {
    let doc = Json::parse(r#"{"z": 1, "a": 2, "z": 3}"#).unwrap();
    let expected = Json::Object(vec![
        member("a", Json::Number(serde_json::Number::from(2u64))),
        member("z", Json::Number(serde_json::Number::from(3u64))),
    ]);
    assert_eq!(doc, expected);
    assert!(doc.is_ordered());
}

#[test]
fn parse_reports_the_message_of_the_parser() {
    assert_eq!(Json::parse(""), Err("EOF while parsing a value at line 1 column 0".to_string()));
    assert_eq!(Json::parse("{"), Err("EOF while parsing an object at line 1 column 1".to_string()));
    assert_eq!(Json::parse("[1,]"), Err("trailing comma at line 1 column 4".to_string()));
    assert_eq!(Json::parse("1 2"), Err("trailing characters at line 1 column 3".to_string()));
}

#[test]
fn get_finds_members_of_objects_only() {
    let doc = Json::parse(r#"{"a": "x", "b": ["y"]}"#).unwrap();
    assert_eq!(doc.get("a"), Some(&text("x")));
    assert_eq!(doc.get("b"), Some(&Json::Array(vec![text("y")])));
    assert_eq!(doc.get("c"), None);
    assert_eq!(doc.get(""), None);
    assert_eq!(Json::Array(vec![text("a")]).get("a"), None);
    assert_eq!(text("a").get("a"), None);
}

#[test]
fn get_takes_the_first_of_equal_keys() {
    let doc = Json::Object(vec![member("k", text("first")), member("k", text("second"))]);
    assert_eq!(doc.get("k"), Some(&text("first")));
    match &doc {
        Json::Object(entries) => {
            assert_eq!(find_key(entries, "k"), Some(0));
            assert_eq!(find_key(entries, "j"), None);
        }
        _ => unreachable!(),
    }
}

#[test]
fn text_less_agrees_with_the_order_of_strings() {
    let samples = ["", "a", "ab", "b", "B", "aa", "é", "z", "日本", "a\u{10FFFF}", "text", "type"];
    for a in samples {
        for b in samples {
            assert_eq!(text_less(&chars(a), &chars(b)), a < b, "{:?} < {:?}", a, b);
        }
    }
}

#[test]
fn is_ordered_looks_into_nested_values() {
    assert!(Json::Null.is_ordered());
    assert!(Json::Object(vec![]).is_ordered());
    assert!(Json::Object(vec![member("a", Json::Null), member("b", Json::Null)]).is_ordered());
    assert!(!Json::Object(vec![member("b", Json::Null), member("a", Json::Null)]).is_ordered());
    assert!(!Json::Object(vec![member("a", Json::Null), member("a", Json::Null)]).is_ordered());
    let inner = Json::Object(vec![member("y", Json::Null), member("x", Json::Null)]);
    assert!(!Json::Array(vec![Json::Null, inner]).is_ordered());
    let inner = Json::Object(vec![member("y", Json::Null), member("x", Json::Null)]);
    assert!(!Json::Object(vec![member("a", inner)]).is_ordered());
}

#[test]
fn to_pretty_prints_indented_text() {
    let doc = Json::parse(r#"{"b":[1,"two"],"a":{}}"#).unwrap();
    let expected = "{\n  \"a\": {},\n  \"b\": [\n    1,\n    \"two\"\n  ]\n}";
    assert_eq!(doc.to_pretty(), Some(expected.to_string()));
    assert_eq!(text("a\"b").to_pretty(), Some("\"a\\\"b\"".to_string()));
}

#[test]
fn to_pretty_agrees_with_serde_json() {
    let source = r#"{"n": -1.5e3, "list": [[], {}, [null]], "s": "tab\there", "big": 18446744073709551615}"#;
    let doc = Json::parse(source).unwrap();
    let value: serde_json::Value = serde_json::from_str(source).unwrap();
    assert_eq!(doc.to_pretty(), Some(serde_json::to_string_pretty(&value).unwrap()));
}

#[test]
fn to_pretty_refuses_a_document_that_is_not_ordered() {
    let doc = Json::Object(vec![member("b", Json::Null), member("a", Json::Null)]);
    assert_eq!(doc.to_pretty(), None);
}

#[test]
fn duplicate_copies_the_whole_document() {
    let source = r#"{"a": [1, {"b": "c"}, null], "d": {"e": [true, false]}, "f": "g"}"#;
    let doc = Json::parse(source).unwrap();
    let copy = doc.duplicate();
    assert_eq!(copy, doc);
    assert_eq!(copy, Json::parse(source).unwrap());
    assert_eq!(Json::Null.duplicate(), Json::Null);
}
