use pxros::documentation_generator::transform_input::{
    flatten, modify_structure, normalize, transform_cop, transform_description, transform_document,
    transform_input, TransformError,
};
use pxros::json::{Json, Member};

fn parse(source: &str) -> Json {
    Json::parse(source).unwrap()
}

fn items(source: &str) -> Vec<Json> {
    match parse(source) {
        Json::Array(items) => items,
        _ => panic!("no list"),
    }
}

#[test]
fn flatten_takes_the_list_under_the_primary_tag() {
    assert_eq!(flatten(items(r#"[{"TC23": ["a", "b"]}]"#), "TC23"), items(r#"["a", "b"]"#));
}

#[test]
fn flatten_wraps_the_text_under_the_primary_tag() {
    assert_eq!(flatten(items(r#"[{"TC23": "a"}]"#), "TC23"), items(r#"["a"]"#));
}

#[test]
fn flatten_empties_a_list_for_the_other_platform_only() {
    assert_eq!(flatten(items(r#"[{"ARM-CMX": ["a", "b"]}]"#), "TC23"), items("[]"));
    assert_eq!(flatten(items(r#"[{"ARM-CMX": null}]"#), "TC23"), items("[]"));
}

#[test]
fn flatten_prefers_the_primary_tag_over_the_other() {
    let got = flatten(items(r#"[{"ARM-CMX": ["x"], "TC23": ["a"]}, "rest"]"#), "TC23");
    assert_eq!(got, items(r#"["a"]"#));
}

#[test]
fn flatten_leaves_a_flat_list_alone() {
    assert_eq!(flatten(items("[]"), "TC23"), items("[]"));
    assert_eq!(flatten(items(r#"["a", "b"]"#), "TC23"), items(r#"["a", "b"]"#));
    assert_eq!(flatten(items(r#"[{"name": "x"}]"#), "TC23"), items(r#"[{"name": "x"}]"#));
    assert_eq!(flatten(items(r#"[{"LINUX": ["x"]}]"#), "TC23"), items(r#"[{"LINUX": ["x"]}]"#));
}

#[test]
fn flatten_looks_at_the_first_item_only() {
    let source = r#"["plain", {"ARM-CMX": ["x"]}, {"TC23": ["y"]}]"#;
    assert_eq!(flatten(items(source), "TC23"), items(source));
}

#[test]
fn flatten_falls_back_when_the_primary_variant_is_no_list_and_no_text() {
    assert_eq!(flatten(items(r#"[{"TC23": 5}]"#), "TC23"), items(r#"[{"TC23": 5}]"#));
    assert_eq!(flatten(items(r#"[{"TC23": 5, "ARM-CMX": 1}]"#), "TC23"), items("[]"));
}

#[test]
fn flatten_goes_by_the_tag_that_is_asked_for() {
    assert_eq!(flatten(items(r#"[{"LINUX": ["x"], "TC23": ["a"]}]"#), "LINUX"), items(r#"["x"]"#));
}

#[test]
fn modify_structure_flattens_one_field() {
    let doc = parse(r#"{"synopsis": [{"TC23": ["a"]}], "usage": [{"TC23": ["b"]}]}"#);
    let expected = parse(r#"{"synopsis": ["a"], "usage": [{"TC23": ["b"]}]}"#);
    assert_eq!(modify_structure(doc, "synopsis", "TC23"), expected);
}

#[test]
fn modify_structure_leaves_other_documents_alone() {
    let absent = r#"{"usage": [{"TC23": ["b"]}]}"#;
    assert_eq!(modify_structure(parse(absent), "synopsis", "TC23"), parse(absent));
    let no_list = r#"{"synopsis": {"TC23": ["b"]}}"#;
    assert_eq!(modify_structure(parse(no_list), "synopsis", "TC23"), parse(no_list));
    let no_object = r#"[{"TC23": ["b"]}]"#;
    assert_eq!(modify_structure(parse(no_object), "synopsis", "TC23"), parse(no_object));
    assert_eq!(modify_structure(Json::Null, "synopsis", "TC23"), Json::Null);
}

#[test]
fn transform_description_merges_paragraphs_and_bullets() {
    let doc = parse(
        r#"{"description": {"short": "s", "long": [
            {"type": "PP", "text": "First line\nsecond."},
            {"type": "BL", "text": ["one", "two"]},
            {"type": "PP", "text": "Last."}
        ]}}"#,
    );
    let merged = "First line\nsecond.\n\n * one\n * two\n\nLast.";
    let expected = Json::Object(vec![Member {
        key: "description".to_string(),
        value: Json::Object(vec![
            Member {
                key: "long".to_string(),
                value: Json::Array(vec![Json::Object(vec![
                    Member { key: "text".to_string(), value: Json::Text(merged.to_string()) },
                    Member { key: "type".to_string(), value: Json::Text("PP".to_string()) },
                ])]),
            },
            Member { key: "short".to_string(), value: Json::Text("s".to_string()) },
        ]),
    }]);
    assert_eq!(transform_description(doc, "TC23"), expected);
}

fn merged_text(doc: Json) -> String {
    let doc = transform_description(doc, "TC23");
    let long = doc.get("description").unwrap().get("long").unwrap();
    match long {
        Json::Array(blocks) => {
            assert_eq!(blocks.len(), 1);
            assert_eq!(blocks[0].get("type"), Some(&Json::Text("PP".to_string())));
            match blocks[0].get("text") {
                Some(Json::Text(t)) => t.clone(),
                _ => panic!("no text"),
            }
        }
        _ => panic!("no list"),
    }
}

#[test]
fn transform_description_reads_the_variant_of_the_platform() {
    let doc = parse(
        r#"{"description": {"long": [
            {"type": "PP", "TC23": ["p1", 7, "p2"], "ARM-CMX": ["q"], "text": "ignored"},
            {"type": "BL", "TC23": ["b1", "b2"], "text": ["ignored"]}
        ]}}"#,
    );
    assert_eq!(merged_text(doc), "p1\n\np2\n\n * b1\n * b2");
}

#[test]
fn transform_description_passes_over_what_it_does_not_know() {
    let doc = parse(
        r#"{"description": {"long": [
            {"type": "XX", "text": "x"},
            {"text": "no type"},
            "no block",
            {"type": "PP", "text": ["no text"]},
            {"type": "BL", "text": "no list"},
            {"type": "PP", "text": "  kept  "}
        ]}}"#,
    );
    assert_eq!(merged_text(doc), "kept");
    assert_eq!(merged_text(parse(r#"{"description": {"long": []}}"#)), "");
}

#[test]
fn transform_description_leaves_other_documents_alone() {
    for source in [r#"{"description": {"short": "s"}}"#, r#"{"description": {"long": "text"}}"#, r#"{"a": 1}"#, "[]"] {
        assert_eq!(transform_description(parse(source), "TC23"), parse(source));
    }
}

#[test]
fn transform_cop_flattens_each_section() {
    let doc = parse(
        r#"{"cop": {"BeforeCall": [{"TC23": ["a"]}], "AfterCall": [{"TC23": "b"}],
            "BestPractice": [{"ARM-CMX": ["c"]}], "Other": [{"TC23": ["d"]}]}}"#,
    );
    let expected = parse(
        r#"{"cop": {"BeforeCall": ["a"], "AfterCall": ["b"], "BestPractice": [],
            "Other": [{"TC23": ["d"]}]}}"#,
    );
    assert_eq!(transform_cop(doc, "TC23"), expected);
    assert_eq!(transform_cop(parse(r#"{"cop": 1}"#), "TC23"), parse(r#"{"cop": 1}"#));
    assert_eq!(transform_cop(parse(r#"{"x": 1}"#), "TC23"), parse(r#"{"x": 1}"#));
}

const FULL: &str = r#"{
    "name": {"key": "PxGetId", "display": "PxGetId()"},
    "synopsis": [{"TC23": ["PxTask_t PxGetId(void)"], "ARM-CMX": ["int PxGetId(void)"]}],
    "arguments": [],
    "retValues": ["Id of the task"],
    "errCodes": [{"TC23": "PXERR_NOERROR if fine"}],
    "appliesTo": [{"TC23": ["PXROS-HR"], "ARM-CMX": ["PXROS"]}],
    "description": {"short": "Get own id.", "long": [
        {"type": "PP", "text": "First line\nsecond."},
        {"type": "BL", "text": ["one", "two"]}
    ]},
    "usage": [{"ARM-CMX": ["foo();"]}],
    "cop": {"BeforeCall": [{"TC23": ["Call\nearly"]}], "AfterCall": [], "BestPractice": ["Keep it."]}
}"#;

const FULL_NORMALIZED: &str = r#"{
    "name": {"key": "PxGetId", "display": "PxGetId()"},
    "synopsis": ["PxTask_t PxGetId(void)"],
    "arguments": [],
    "retValues": ["Id of the task"],
    "errCodes": ["PXERR_NOERROR if fine"],
    "appliesTo": ["PXROS-HR"],
    "description": {"short": "Get own id.", "long": [
        {"type": "PP", "text": "First line\nsecond.\n\n * one\n * two"}
    ]},
    "usage": [],
    "cop": {"BeforeCall": ["Call\nearly"], "AfterCall": [], "BestPractice": ["Keep it."]}
}"#;

#[test]
fn normalize_flattens_every_field() {
    assert_eq!(normalize(parse(FULL)), parse(FULL_NORMALIZED));
}

#[test]
fn normalize_leaves_absent_fields_absent() {
    assert_eq!(normalize(parse("{}")), parse("{}"));
    assert_eq!(normalize(parse(r#"{"usage": ["x"]}"#)), parse(r#"{"usage": ["x"]}"#));
    assert_eq!(normalize(parse("[1, 2]")), parse("[1, 2]"));
}

#[test]
fn normalize_is_idempotent() {
    for source in [FULL, FULL_NORMALIZED, "{}", r#"{"description": {"long": []}}"#, r#"{"synopsis": [{"TC23": 5}]}"#] {
        let once = normalize(parse(source));
        let twice = normalize(normalize(parse(source)));
        assert_eq!(twice, once);
    }
}

#[test]
fn normalize_unfolds_one_level_of_nested_variants_at_a_time() {
    let nested = r#"{"synopsis": [{"TC23": [{"TC23": ["a"]}]}]}"#;
    let once = normalize(parse(nested));
    assert_eq!(once, parse(r#"{"synopsis": [{"TC23": ["a"]}]}"#));
    assert_eq!(normalize(once), parse(r#"{"synopsis": ["a"]}"#));
}

#[test]
fn normalize_keeps_documents_ordered() {
    assert!(normalize(parse(FULL)).is_ordered());
}

#[test]
fn transform_input_prints_the_normalized_document() {
    let value: serde_json::Value = serde_json::from_str(FULL_NORMALIZED).unwrap();
    let expected = serde_json::to_string_pretty(&value).unwrap();
    assert_eq!(transform_input(FULL), Ok(expected));
    assert_eq!(
        transform_input(r#"{"usage":[{"TC23":["a"]}]}"#),
        Ok("{\n  \"usage\": [\n    \"a\"\n  ]\n}".to_string())
    );
}

#[test]
fn transform_input_reports_text_that_is_no_json() {
    assert_eq!(
        transform_input("{\"usage\": "),
        Err(TransformError::Syntax("EOF while parsing a value at line 1 column 10".to_string()))
    );
}

#[test]
fn transform_document_reports_a_document_without_text() {
    let doc = Json::Object(vec![
        Member { key: "b".to_string(), value: Json::Null },
        Member { key: "a".to_string(), value: Json::Null },
    ]);
    assert_eq!(transform_document(doc), Err(TransformError::Unprintable));
}
