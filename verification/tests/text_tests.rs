use pxros::split::{replace, split, split_words};
use pxros::text::{char_is_whitespace, chars_of, string_of, trim, Delimiter};

fn chars(s: &str) -> Vec<char> {
    s.chars().collect()
}

#[test]
fn whitespace_agrees_with_std_on_every_char() {
    let mut code: u32 = 0;
    while code <= 0x10FFFF {
        if let Some(c) = char::from_u32(code) {
            assert_eq!(char_is_whitespace(c), c.is_whitespace());
        }
        code += 1;
    }
}

#[test]
fn trim_removes_white_space_at_both_ends() {
    assert_eq!(string_of(&trim(&chars_of("  \t a b \n"))), "a b");
    assert_eq!(string_of(&trim(&chars_of(" \n "))), "");
    assert_eq!(string_of(&trim(&chars_of(""))), "");
}

#[test]
fn split_keeps_empty_pieces() {
    let parts = split(&chars("a,b,,c"), Delimiter::Char(','));
    assert_eq!(parts, vec![chars("a"), chars("b"), chars(""), chars("c")]);
    assert_eq!(split(&chars(""), Delimiter::Char(',')), vec![chars("")]);
}

#[test]
fn split_words_drops_empty_pieces() {
    let parts = split_words(&chars("  int   PxFoo(int a)\t"), Delimiter::Whitespace);
    assert_eq!(parts, vec![chars("int"), chars("PxFoo(int"), chars("a)")]);
}

#[test]
fn replace_agrees_with_std() {
    let cases = [("aXbXXc", "X", "yy"), ("aaa", "aa", "b"), ("abc", "", "-"), ("", "", "-"), ("abc", "abcd", "z")];
    for (text, pattern, with) in cases {
        let got = string_of(&replace(&chars(text), &chars(pattern), &chars(with)));
        assert_eq!(got, text.replace(pattern, with));
    }
}
