use pxros::documentation_generator::api_docs_generator::{
    generate_comments, comments_from_document, make_literal, push_lines, remove_new_lines,
    write_section, ApiDescription, Argument, Cop, Description, DocError, FormatType, Name,
    Paragraph, SeeAlso,
};
use pxros::documentation_generator::schema::{Field, SchemaError};
use pxros::json::Json;

fn strings(items: &[&str]) -> Vec<String> {
    items.iter().map(|s| s.to_string()).collect()
}

fn minimal(short: &str) -> ApiDescription {
    ApiDescription {
        name: None,
        synopsis: None,
        arguments: None,
        ret_values: None,
        err_codes: None,
        applies_to: vec![],
        description: Description { short: short.to_string(), long: vec![] },
        see_also: None,
        usage: None,
        cop: None,
    }
}

#[test]
fn make_literal_wraps_names_in_capitals() {
    assert_eq!(make_literal("Returns PXERR_NOERROR on success"), "Returns `PXERR_NOERROR` on success");
}

#[test]
fn make_literal_goes_by_word_boundaries() {
    assert_eq!(make_literal("A or B_C, not Abc, aBC or X1"), "`A` or `B_C`, not Abc, aBC or X1");
    assert_eq!(make_literal("_ and __ are runs"), "`_` and `__` are runs");
    assert_eq!(make_literal("nothing here"), "nothing here");
    assert_eq!(make_literal(""), "");
    assert_eq!(make_literal("(PXERR_A)PXERR_B"), "(`PXERR_A`)`PXERR_B`");
}

#[test]
fn make_literal_agrees_with_the_regex_crate() {
    let re = regex::Regex::new(r"\b[A-Z_]+\b").unwrap();
    for text in ["ÉCOLE is no run", "PX ERR", "x_PX", "PX_x", "PX-ERR", "dollar $0 stays"] {
        assert_eq!(make_literal(text), re.replace_all(text, "`$0`").into_owned());
    }
}

#[test]
fn remove_new_lines_joins_the_lines_of_a_sentence() {
    assert_eq!(remove_new_lines("a\nb\nc"), "a b c");
    assert_eq!(remove_new_lines("no break"), "no break");
    assert_eq!(remove_new_lines(""), "");
}

#[test]
fn remove_new_lines_keeps_a_line_that_starts_or_ends_with_a_break() {
    assert_eq!(remove_new_lines("\na\nb"), "\na\nb");
    assert_eq!(remove_new_lines("a\nb\n"), "a\nb\n");
    assert_eq!(remove_new_lines("\n"), "\n");
}

#[test]
fn push_lines_writes_one_line_for_each_item() {
    let mut out = "x".to_string();
    push_lines(&mut out, "> ", &strings(&["a", "", "b"]));
    assert_eq!(out, "x> a\n> \n> b\n");
    push_lines(&mut out, "> ", &vec![]);
    assert_eq!(out, "x> a\n> \n> b\n");
}

#[test]
fn write_section_writes_a_plain_list() {
    let mut out = String::new();
    write_section(&mut out, "Return Values", &strings(&["PX_OK", "b"]), FormatType::List { literal: false });
    assert_eq!(out, "///\n/// ### Return Values\n/// * PX_OK\n/// * b\n");
}

#[test]
fn write_section_marks_names_in_a_literal_list() {
    let mut out = "before\n".to_string();
    write_section(&mut out, "Error Codes", &strings(&["PX_OK if fine"]), FormatType::List { literal: true });
    assert_eq!(out, "before\n///\n/// ### Error Codes\n/// * `PX_OK` if fine\n");
}

#[test]
fn write_section_writes_signatures() {
    let mut out = String::new();
    write_section(&mut out, "Synopsis", &strings(&["int PxFoo(int a)", "void PxBar(void)"]), FormatType::Normal);
    assert_eq!(out, "///\n/// ### Synopsis\n/// fn PxFoo(a: int) -> int;\n/// fn PxBar() ;\n");
}

#[test]
fn write_section_fences_code_and_turns_tabs_into_spaces() {
    let mut out = String::new();
    write_section(&mut out, "Usage", &strings(&["if (x) {", "\tfoo();\t", "}"]), FormatType::Code);
    assert_eq!(out, "///\n/// ### Usage\n/// ```c\n/// if (x) {\n///  foo(); \n/// }\n/// ```\n");
}

#[test]
fn the_short_description_comes_first() {
    assert_eq!(minimal("Does a thing.").to_string(), "/// Does a thing.\n");
    assert_eq!(minimal("").to_string(), "/// \n");
    let mut full = minimal("  Kept as it is ");
    full.applies_to = strings(&["TC23"]);
    full.usage = Some(strings(&["x"]));
    assert!(full.to_string().starts_with("///   Kept as it is \n///\n"));
}

#[test]
fn sections_come_in_a_fixed_order() {
    let description = ApiDescription {
        name: Some(Name { key: "PxFoo".to_string(), display: "PxFoo()".to_string() }),
        synopsis: Some(strings(&["int PxFoo(int a)"])),
        arguments: Some(vec![Argument { name: "a".to_string(), description: "the number".to_string() }]),
        ret_values: Some(strings(&["the result"])),
        err_codes: Some(strings(&["PXERR_NOERROR"])),
        applies_to: strings(&["PXROS-HR", "TC23"]),
        description: Description {
            short: "Short.".to_string(),
            long: vec![
                Paragraph { kind: "PP".to_string(), text: "one\ntwo".to_string() },
                Paragraph { kind: "PP".to_string(), text: "".to_string() },
            ],
        },
        see_also: Some(vec![SeeAlso { key: "PxBar".to_string(), display: "PxBar()".to_string() }]),
        usage: Some(strings(&["PxFoo(1);"])),
        cop: Some(Cop {
            before_call: strings(&["check\nfirst"]),
            after_call: strings(&["\nkept\nas is"]),
            best_practice: strings(&["be brief"]),
        }),
    };
    assert!(description.is_renderable());
    let expected = "/// Short.\n\
///\n\
/// one\n\
/// two\n\
///\n\
/// \n\
///\n\
/// ### Applies To\n\
/// * PXROS-HR\n\
/// * TC23\n\
///\n\
/// ### Synopsis\n\
/// fn PxFoo(a: int) -> int;\n\
///\n\
/// ### Arguments\n\
/// * `a`: the number\n\
///\n\
/// ### Return Values\n\
/// * the result\n\
///\n\
/// ### Error Codes\n\
/// * `PXERR_NOERROR`\n\
///\n\
/// ### Conditions of Use\n\
/// #### Before Call\n\
/// check first\n\
/// #### After Call\n\
/// \nkept\nas is\n\
/// ### Best Practice\n\
/// be brief\n\
///\n\
/// ### See Also\n\
/// * PxBar()\n\
///\n\
/// ### Usage\n\
/// ```c\n\
/// PxFoo(1);\n\
/// ```\n";
    assert_eq!(description.to_string(), expected);
}

#[test]
fn empty_and_absent_fields_write_nothing() {
    let mut description = minimal("Short.");
    description.synopsis = Some(vec![]);
    description.arguments = Some(vec![]);
    description.ret_values = Some(vec![]);
    description.err_codes = Some(vec![]);
    description.see_also = Some(vec![]);
    description.usage = Some(vec![]);
    description.cop = Some(Cop { before_call: vec![], after_call: vec![], best_practice: vec![] });
    assert_eq!(description.to_string(), "/// Short.\n");
}

#[test]
fn a_later_section_follows_an_earlier_one_whatever_is_absent() {
    let mut description = minimal("Short.");
    description.usage = Some(strings(&["x"]));
    description.ret_values = Some(strings(&["r"]));
    description.cop = Some(Cop { before_call: vec![], after_call: strings(&["a"]), best_practice: vec![] });
    let expected = "/// Short.\n///\n/// ### Return Values\n/// * r\n///\n/// ### Conditions of Use\n\
/// #### After Call\n/// a\n///\n/// ### Usage\n/// ```c\n/// x\n/// ```\n";
    assert_eq!(description.to_string(), expected);
}

#[test]
fn is_renderable_asks_for_signatures_in_the_synopsis() {
    let mut description = minimal("Short.");
    assert!(description.is_renderable());
    description.synopsis = Some(strings(&["int PxFoo(void)", "PxBar"]));
    assert!(!description.is_renderable());
    description.synopsis = Some(strings(&["int PxFoo(void)"]));
    assert!(description.is_renderable());
}

const FULL: &str = r#"{
    "name": {"key": "PxGetId", "display": "PxGetId()"},
    "synopsis": [{"TC23": ["PxTask_t PxGetId(void)"], "ARM-CMX": ["int PxGetId(void)"]}],
    "arguments": [],
    "retValues": ["Id of the task"],
    "errCodes": [{"TC23": "PXERR_NOERROR if fine"}],
    "appliesTo": [{"TC23": ["PXROS-HR"], "ARM-CMX": ["PXROS"]}],
    "description": {"short": "Get own id.", "long": [
        {"type": "PP", "text": "First line\nsecond."},
        {"type": "BL", "text": ["one", "two"]}
    ]},
    "seeAlso": [{"key": "PxTaskGetName", "display": "PxTaskGetName()"}],
    "usage": [{"ARM-CMX": ["foo();"]}],
    "cop": {"BeforeCall": [{"TC23": ["Call\nearly"]}], "AfterCall": [], "BestPractice": ["Keep it."]},
    "unknown": 5
}"#;

const FULL_COMMENTS: &str = "/// Get own id.\n\
///\n\
/// First line\n\
/// second.\n\
/// \n\
///  * one\n\
///  * two\n\
///\n\
/// ### Applies To\n\
/// * PXROS-HR\n\
///\n\
/// ### Synopsis\n\
/// fn PxGetId() -> PxTask_t;\n\
///\n\
/// ### Return Values\n\
/// * Id of the task\n\
///\n\
/// ### Error Codes\n\
/// * `PXERR_NOERROR` if fine\n\
///\n\
/// ### Conditions of Use\n\
/// #### Before Call\n\
/// Call early\n\
/// ### Best Practice\n\
/// Keep it.\n\
///\n\
/// ### See Also\n\
/// * PxTaskGetName()\n";

#[test]
fn generate_comments_normalizes_and_renders() {
    assert_eq!(generate_comments(FULL), FULL_COMMENTS);
    assert_eq!(comments_from_document(Json::parse(FULL).unwrap()), FULL_COMMENTS);
}

#[test]
fn generate_comments_renders_the_smallest_description() {
    let got = generate_comments(r#"{"appliesTo": [], "description": {"short": "Only this."}}"#);
    assert_eq!(got, "/// Only this.\n");
    let got = generate_comments(r#"{"appliesTo": [], "description": {"short": "Only this.", "long": []}}"#);
    assert_eq!(got, "/// Only this.\n///\n/// \n");
}

#[test]
fn generate_comments_twice_gives_the_same_text() {
    assert_eq!(generate_comments(FULL), generate_comments(FULL));
}

#[test]
fn generate_comments_reports_text_that_is_no_json() {
    assert_eq!(
        generate_comments("{\"appliesTo\": [}"),
        "Failed to parse JSON: expected value at line 1 column 16"
    );
}

#[test]
fn generate_comments_reports_a_document_that_is_no_description() {
    assert_eq!(generate_comments("[]"), "Failed to parse JSON: invalid field `document`");
    assert_eq!(
        generate_comments(r#"{"description": {"short": "s"}}"#),
        "Failed to parse JSON: missing field `appliesTo`"
    );
    assert_eq!(
        generate_comments(r#"{"appliesTo": ["x"]}"#),
        "Failed to parse JSON: missing field `description`"
    );
    assert_eq!(
        generate_comments(r#"{"appliesTo": ["x"], "description": {"short": "s"}, "synopsis": ["PxFoo"]}"#),
        "Failed to parse JSON: invalid field `synopsis`"
    );
}

fn schema_error(source: &str) -> Result<ApiDescription, SchemaError> {
    ApiDescription::from_json(&Json::parse(source).unwrap())
}

#[test]
fn from_json_reads_every_field() {
    let description = schema_error(
        r#"{
        "name": {"key": "k", "display": "d", "more": 1},
        "synopsis": ["int f(void)"],
        "arguments": [{"name": "a", "description": "b"}],
        "retValues": ["r"],
        "errCodes": ["e"],
        "appliesTo": ["p"],
        "description": {"short": "s", "long": [{"type": "PP", "text": "t"}]},
        "seeAlso": [{"key": "k2", "display": "d2"}],
        "usage": ["u"],
        "cop": {"BeforeCall": ["b"], "AfterCall": ["a"], "BestPractice": ["p"]}
    }"#,
    )
    .unwrap();
    let expected = ApiDescription {
        name: Some(Name { key: "k".to_string(), display: "d".to_string() }),
        synopsis: Some(strings(&["int f(void)"])),
        arguments: Some(vec![Argument { name: "a".to_string(), description: "b".to_string() }]),
        ret_values: Some(strings(&["r"])),
        err_codes: Some(strings(&["e"])),
        applies_to: strings(&["p"]),
        description: Description {
            short: "s".to_string(),
            long: vec![Paragraph { kind: "PP".to_string(), text: "t".to_string() }],
        },
        see_also: Some(vec![SeeAlso { key: "k2".to_string(), display: "d2".to_string() }]),
        usage: Some(strings(&["u"])),
        cop: Some(Cop {
            before_call: strings(&["b"]),
            after_call: strings(&["a"]),
            best_practice: strings(&["p"]),
        }),
    };
    assert_eq!(description, expected);
}

#[test]
fn from_json_takes_null_and_absent_for_not_given() {
    let description = schema_error(
        r#"{"name": null, "synopsis": null, "arguments": null, "retValues": null, "errCodes": null,
            "appliesTo": [], "description": {"short": "s", "long": null}, "seeAlso": null,
            "usage": null, "cop": {"BeforeCall": null}}"#,
    )
    .unwrap();
    let mut expected = minimal("s");
    expected.cop = Some(Cop { before_call: vec![], after_call: vec![], best_practice: vec![] });
    assert_eq!(description, expected);
    assert_eq!(schema_error(r#"{"appliesTo": [], "description": {"short": "s"}}"#), Ok(minimal("s")));
}

#[test]
fn from_json_reports_each_error() {
    let good = r#""appliesTo": ["p"], "description": {"short": "s"}"#;
    let cases = [
        ("\"text\"".to_string(), SchemaError::Invalid(Field::Document)),
        ("null".to_string(), SchemaError::Invalid(Field::Document)),
        (format!("{{{}, \"name\": \"n\"}}", good), SchemaError::Invalid(Field::Name)),
        (format!("{{{}, \"name\": {{\"key\": \"k\"}}}}", good), SchemaError::Invalid(Field::Name)),
        (format!("{{{}, \"synopsis\": \"int f()\"}}", good), SchemaError::Invalid(Field::Synopsis)),
        (format!("{{{}, \"synopsis\": [\"f\"]}}", good), SchemaError::Invalid(Field::Synopsis)),
        (format!("{{{}, \"arguments\": [{{\"name\": \"a\"}}]}}", good), SchemaError::Invalid(Field::Arguments)),
        (format!("{{{}, \"retValues\": [1]}}", good), SchemaError::Invalid(Field::RetValues)),
        (format!("{{{}, \"errCodes\": {{}}}}", good), SchemaError::Invalid(Field::ErrCodes)),
        ("{\"description\": {\"short\": \"s\"}}".to_string(), SchemaError::Missing(Field::AppliesTo)),
        ("{\"appliesTo\": null, \"description\": {\"short\": \"s\"}}".to_string(), SchemaError::Invalid(Field::AppliesTo)),
        ("{\"appliesTo\": [{\"ARM\": []}], \"description\": {\"short\": \"s\"}}".to_string(), SchemaError::Invalid(Field::AppliesTo)),
        ("{\"appliesTo\": []}".to_string(), SchemaError::Missing(Field::Description)),
        ("{\"appliesTo\": [], \"description\": {}}".to_string(), SchemaError::Invalid(Field::Description)),
        ("{\"appliesTo\": [], \"description\": {\"short\": 1}}".to_string(), SchemaError::Invalid(Field::Description)),
        ("{\"appliesTo\": [], \"description\": {\"short\": \"s\", \"long\": [{\"type\": \"PP\"}]}}".to_string(), SchemaError::Invalid(Field::Description)),
        (format!("{{{}, \"seeAlso\": [\"PxFoo\"]}}", good), SchemaError::Invalid(Field::SeeAlso)),
        (format!("{{{}, \"usage\": [[]]}}", good), SchemaError::Invalid(Field::Usage)),
        (format!("{{{}, \"cop\": {{\"AfterCall\": \"x\"}}}}", good), SchemaError::Invalid(Field::Cop)),
    ];
    for (source, error) in cases {
        assert_eq!(schema_error(&source), Err(error), "{}", source);
    }
}

#[test]
fn from_json_reports_the_first_error_in_the_order_of_the_fields() {
    assert_eq!(
        schema_error(r#"{"usage": 1, "name": 2}"#),
        Err(SchemaError::Invalid(Field::Name))
    );
    assert_eq!(
        schema_error(r#"{"usage": 1, "errCodes": 2}"#),
        Err(SchemaError::Invalid(Field::ErrCodes))
    );
    assert_eq!(schema_error(r#"{"usage": 1}"#), Err(SchemaError::Missing(Field::AppliesTo)));
}

#[test]
fn errors_state_themselves() {
    assert_eq!(SchemaError::Missing(Field::AppliesTo).message(), "missing field `appliesTo`");
    assert_eq!(SchemaError::Invalid(Field::RetValues).message(), "invalid field `retValues`");
    assert_eq!(DocError::Schema(SchemaError::Invalid(Field::Cop)).message(), "invalid field `cop`");
    assert_eq!(DocError::Syntax("bad".to_string()).message(), "bad");
    let names: Vec<&str> = [
        Field::Document, Field::Name, Field::Synopsis, Field::Arguments, Field::RetValues,
        Field::ErrCodes, Field::AppliesTo, Field::Description, Field::SeeAlso, Field::Usage, Field::Cop,
    ]
    .iter()
    .map(|f| f.name())
    .collect();
    assert_eq!(
        names,
        vec!["document", "name", "synopsis", "arguments", "retValues", "errCodes", "appliesTo",
             "description", "seeAlso", "usage", "cop"]
    );
}

#[test]
fn from_modified_string_reads_text_as_it_stands() {
    let got = ApiDescription::from_modified_string(r#"{"appliesTo": ["a"], "description": {"short": "s"}}"#);
    let mut expected = minimal("s");
    expected.applies_to = strings(&["a"]);
    assert_eq!(got, Ok(expected));
    assert_eq!(
        ApiDescription::from_modified_string(r#"{"appliesTo": [{"TC23": ["a"]}], "description": {"short": "s"}}"#),
        Err(DocError::Schema(SchemaError::Invalid(Field::AppliesTo)))
    );
    assert_eq!(
        ApiDescription::from_modified_string("nope"),
        Err(DocError::Syntax("expected ident at line 1 column 2".to_string()))
    );
}
