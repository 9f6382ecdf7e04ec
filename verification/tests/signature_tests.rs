use pxros::documentation_generator::signature::{
    convert_c_func_to_rust, holds_signature, signature_from_parts,
};

#[test]
fn converts_two_word_parameters_and_the_return_type() {
    assert_eq!(convert_c_func_to_rust("int PxFoo(int a, char b)"), "fn PxFoo(a: int, b: char) -> int;");
}

#[test]
fn converts_the_synopsis_of_a_function_with_a_pointer_parameter() {
    let got = convert_c_func_to_rust("int PxFoo(int a, char * b)");
    assert!(got.starts_with("fn PxFoo(a: int, "));
    assert!(got.ends_with(") -> int;"));
    assert_eq!(got, "fn PxFoo(a: int, *: char b) -> int;");
}

#[test]
fn converts_a_function_without_parameters_and_result() {
    assert_eq!(convert_c_func_to_rust("void PxBar(void)"), "fn PxBar() ;");
}

#[test]
fn converts_three_word_parameters_as_type_name_and_rest() {
    assert_eq!(
        convert_c_func_to_rust("PxError_t PxCopy(char buf [], PxSize_t n)"),
        "fn PxCopy(buf: char [], n: PxSize_t) -> PxError_t;"
    );
}

#[test]
fn drops_parameters_of_any_other_number_of_words() {
    assert_eq!(
        convert_c_func_to_rust("int PxFoo(const unsigned int * p, int a, x)"),
        "fn PxFoo(a: int) -> int;"
    );
}

#[test]
fn trims_the_signature_and_passes_over_empty_parameters() {
    assert_eq!(
        convert_c_func_to_rust("  \tlong   PxBaz( int a ,, \t char b , )  \n"),
        "fn PxBaz(a: int, b: char) -> long;"
    );
}

#[test]
fn a_list_that_starts_with_void_declares_nothing() {
    assert_eq!(convert_c_func_to_rust("int PxFoo(void, int a)"), "fn PxFoo() -> int;");
    assert_eq!(convert_c_func_to_rust("int PxFoo(int a, void)"), "fn PxFoo(a: int) -> int;");
}

#[test]
fn takes_the_first_pair_of_parentheses() {
    assert_eq!(
        convert_c_func_to_rust("int PxFoo(int a) (char b)"),
        "fn PxFoo(a: int) -> int;"
    );
    assert_eq!(convert_c_func_to_rust("int PxFoo"), "fn PxFoo() -> int;");
    assert_eq!(convert_c_func_to_rust("int PxFoo(int a"), "fn PxFoo() -> int;");
    assert_eq!(convert_c_func_to_rust("int Px Foo(int a)"), "fn Px(a: int) -> int;");
}

#[test]
fn signature_from_parts_builds_on_the_list_that_it_is_given() {
    assert_eq!(signature_from_parts("int PxFoo(x)", Some("char c, int d")), "fn PxFoo(c: char, d: int) -> int;");
    assert_eq!(signature_from_parts("int PxFoo(int a)", None), "fn PxFoo() -> int;");
    assert_eq!(signature_from_parts("void f", Some("")), "fn f() ;");
}

#[test]
fn holds_signature_asks_for_two_words() {
    assert!(holds_signature("int PxFoo(int a)"));
    assert!(holds_signature(" a\tb "));
    assert!(holds_signature("a\u{00A0}b"));
    assert!(!holds_signature("PxFoo(void)"));
    assert!(!holds_signature("   "));
    assert!(!holds_signature(""));
}
