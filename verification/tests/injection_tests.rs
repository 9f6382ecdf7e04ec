use pxros::injection::{
    documented_function_names, find_doc, generate_documented_bindings, inject_matches,
    inject_pxapi_doc, push_safety_block, DocSource,
};
use pxros::pattern::Capture;
use pxros::safe_wrappers::{Declaration, ForeignDeclaration, SafeFunctionWrapper};

fn strings(items: &[&str]) -> Vec<String> {
    items.iter().map(|s| s.to_string()).collect()
}

fn entry(name: &str, reasoning: &[&str]) -> SafeFunctionWrapper {
    SafeFunctionWrapper { function_name: name.to_string(), safety_reasoning: strings(reasoning) }
}

fn doc(name: &str, short: &str) -> DocSource {
    DocSource {
        function_name: name.to_string(),
        json_text: format!("{{\"appliesTo\": [], \"description\": {{\"short\": \"{}\"}}}}", short),
    }
}

#[test]
fn documented_function_names_lists_the_kernel_functions() {
    let bindings = "pub fn PxGetId() -> u32;\npub  fn\tPxMsgSend_Prio2 (a: u32);\npub fn __PxGetId();\n\
fn PxPrivate();\npub fn pxLower();\npub struct PxThing;\npub fn Px();";
    assert_eq!(documented_function_names(bindings), strings(&["PxGetId", "PxMsgSend_Prio2", "Px"]));
    assert_eq!(documented_function_names(""), Vec::<String>::new());
}

#[test]
fn inject_puts_the_comments_before_the_declaration() {
    let bindings = "// head\npub fn PxGetId() -> PxTask_t;\npub fn PxOther();\n".to_string();
    let corpus = vec![doc("PxGetId", "Get own id.")];
    let got = inject_pxapi_doc(bindings, &corpus, &vec![]);
    assert_eq!(got, "// head\n/// Get own id.\npub fn PxGetId() -> PxTask_t;\npub fn PxOther();\n");
}

#[test]
fn inject_appends_the_safety_reasoning_of_listed_functions() {
    let bindings = "pub fn PxGetId() -> PxTask_t;\npub fn PxOther();\n".to_string();
    let corpus = vec![doc("PxGetId", "Get own id."), doc("PxOther", "Other.")];
    let registry = vec![entry("PxGetId", &["* Takes no parameters.", "r1"])];
    let got = inject_pxapi_doc(bindings, &corpus, &registry);
    let expected = "/// Get own id.\n///\n/// ### Safety reasoning (Veecle):\n/// * Takes no parameters.\n/// r1\n\
pub fn PxGetId() -> PxTask_t;\n/// Other.\npub fn PxOther();\n";
    assert_eq!(got, expected);
}

#[test]
fn inject_passes_over_functions_without_a_description() {
    let bindings = "pub fn PxGetId();\npub fn PxOther();\n".to_string();
    let registry = vec![entry("PxGetId", &["r1"])];
    assert_eq!(inject_pxapi_doc(bindings.clone(), &vec![], &registry), bindings);
    assert_eq!(inject_pxapi_doc(bindings.clone(), &vec![doc("PxElse", "x")], &registry), bindings);
    assert_eq!(inject_pxapi_doc(String::new(), &vec![doc("PxGetId", "x")], &registry), "");
}

#[test]
fn inject_reports_a_broken_description_in_its_place_and_goes_on() {
    let bindings = "pub fn PxBad();\npub fn PxGood();\n".to_string();
    let corpus = vec![
        DocSource { function_name: "PxBad".to_string(), json_text: "{".to_string() },
        doc("PxGood", "Fine."),
    ];
    let got = inject_pxapi_doc(bindings, &corpus, &vec![]);
    assert_eq!(
        got,
        "Failed to parse JSON: EOF while parsing an object at line 1 column 1pub fn PxBad();\n/// Fine.\npub fn PxGood();\n"
    );
}

#[test]
fn inject_replaces_every_occurrence_of_the_declaration() {
    let bindings = "pub fn PxA(a: u32);\n// see pub fn PxA(\n".to_string();
    let got = inject_pxapi_doc(bindings, &vec![doc("PxA", "A.")], &vec![]);
    assert_eq!(got, "/// A.\n/// A.\npub fn PxA(a: u32);\n// see /// A.\n/// A.\npub fn PxA(\n");
}

#[test]
fn inject_takes_the_first_description_of_a_function() {
    let bindings = "pub fn PxA();".to_string();
    let corpus = vec![doc("PxA", "First."), doc("PxA", "Second.")];
    assert_eq!(find_doc(&corpus, "PxA"), Some(0));
    assert_eq!(find_doc(&corpus, "PxB"), None);
    assert_eq!(inject_pxapi_doc(bindings, &corpus, &vec![]), "/// First.\npub fn PxA();");
}

#[test]
fn inject_matches_documents_what_it_is_given() {
    let found = vec![
        Capture { whole: "fn b".to_string(), group: Some("PxB".to_string()) },
        Capture { whole: "fn c".to_string(), group: None },
        Capture { whole: "".to_string(), group: Some("PxE".to_string()) },
    ];
    let corpus = vec![doc("PxB", "B."), doc("PxE", "E.")];
    let got = inject_matches("fn b; fn c".to_string(), &found, &corpus, &vec![]);
    let step = "/// B.\nfn b; fn c";
    let mut expected = String::from("/// E.\n");
    for c in step.chars() {
        expected.push(c);
        expected.push_str("/// E.\n");
    }
    assert_eq!(got, expected);
    assert_eq!(got, step.replace("", "/// E.\n"));
}

#[test]
fn push_safety_block_writes_the_reasons_of_a_listed_function() {
    let registry = vec![entry("PxA", &[]), entry("PxB", &["one", "two"])];
    let mut out = "x\n".to_string();
    push_safety_block(&mut out, &registry, "PxC");
    assert_eq!(out, "x\n");
    push_safety_block(&mut out, &registry, "PxA");
    assert_eq!(out, "x\n///\n/// ### Safety reasoning (Veecle):\n");
    let mut out = String::new();
    push_safety_block(&mut out, &registry, "PxB");
    assert_eq!(out, "///\n/// ### Safety reasoning (Veecle):\n/// one\n/// two\n");
}

fn pipeline_inputs() -> (String, Vec<Declaration>, Vec<DocSource>, Vec<SafeFunctionWrapper>) {
    let bindings = "extern \"C\" {\n    pub fn __PxGetId() -> PxTask_t;\n}\npub fn PxPlain(a: u32);\n".to_string();
    let items = vec![
        Declaration::ForeignFunction(ForeignDeclaration {
            name: "__PxGetId".to_string(),
            parameters: vec![],
            return_type: Some("PxTask_t".to_string()),
        }),
        Declaration::Other,
    ];
    let corpus = vec![doc("PxGetId", "Get own id."), doc("PxPlain", "Plain.")];
    let registry = vec![entry("PxGetId", &["r1"])];
    (bindings, items, corpus, registry)
}

#[test]
fn the_pipeline_wraps_and_documents() {
    let (bindings, items, corpus, registry) = pipeline_inputs();
    let got = generate_documented_bindings(bindings, &items, &corpus, &registry);
    let expected = "extern \"C\" {\n    pub fn __PxGetId() -> PxTask_t;\n}\n/// Plain.\npub fn PxPlain(a: u32);\n\
/// Get own id.\n///\n/// ### Safety reasoning (Veecle):\n/// r1\npub fn PxGetId() -> PxTask_t {\n    unsafe { __PxGetId() }\n}\n";
    assert_eq!(got, expected);
}

#[test]
fn the_pipeline_gives_the_same_text_on_the_same_inputs() {
    let (bindings, items, corpus, registry) = pipeline_inputs();
    let first = generate_documented_bindings(bindings, &items, &corpus, &registry);
    let (bindings, items, corpus, registry) = pipeline_inputs();
    let second = generate_documented_bindings(bindings, &items, &corpus, &registry);
    assert_eq!(first.as_bytes(), second.as_bytes());
}

#[test]
fn without_a_matching_declaration_the_pipeline_adds_no_wrapper() {
    let (bindings, _, _, registry) = pipeline_inputs();
    let got = generate_documented_bindings(bindings.clone(), &vec![Declaration::Other], &vec![], &registry);
    assert_eq!(got, bindings);
}
