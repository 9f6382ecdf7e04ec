//! Rewrites the signature of a C function as the signature of a Rust
//! function.

use crate::pattern::{first_group, regex_first_group};
use crate::split::{
    join, joined, non_empty, pieces, prefix_before, split, split_words, take_before, words,
};
use crate::text::{
    chars_of, extend_chars, is_text, push_chars, rows, string_of, trim, trimmed, Delimiter,
};
use vstd::prelude::*;

verus! {

/// The pattern that finds the list of parameters: what stands between an
/// opening parenthesis and the next closing one.
pub open spec fn parameter_list_pattern() -> Seq<char> {
    "\\(([^)]*)\\)"@
}

/// Whether `c_func` holds a return type and a name: at least two runs of
/// characters that are no white space.
pub open spec fn is_signature(c_func: Seq<char>) -> bool {
    words(trimmed(c_func), Delimiter::Whitespace).len() >= 2
}

/// The parameter declarations in the text of a parameter list: its pieces
/// between commas, trimmed, without the empty ones.
pub open spec fn declarations(list: Seq<char>) -> Seq<Seq<char>> {
    non_empty(pieces(list, Delimiter::Char(',')).map_values(|piece: Seq<char>| trimmed(piece)))
}

/// The Rust form of one C parameter declaration. A declaration of two words
/// is a type and a name; one of three words is a type, a name and the rest
/// of the type. Any other declaration has no Rust form.
pub open spec fn rust_parameter(declaration: Seq<char>) -> Option<Seq<char>> {
    let p = words(declaration, Delimiter::CommaOrWhitespace);
    if p.len() == 2 {
        Some(p[1] + ": "@ + p[0])
    } else if p.len() == 3 {
        Some(p[1] + ": "@ + p[0] + " "@ + p[2])
    } else {
        None
    }
}

/// The Rust forms of the declarations that have one, in order.
pub open spec fn rust_parameters(declarations: Seq<Seq<char>>) -> Seq<Seq<char>>
    decreases declarations.len(),
{
    if declarations.len() == 0 {
        Seq::<Seq<char>>::empty()
    } else {
        let before = rust_parameters(declarations.drop_last());
        match rust_parameter(declarations.last()) {
            Some(parameter) => before.push(parameter),
            None => before,
        }
    }
}

/// The Rust signature for the trimmed C signature `func`, whose parameter
/// list is `list` where one was found.
///
/// The first word of `func` is the return type, and the second word up to
/// its first opening parenthesis is the name. A list that starts with `void`
/// declares no parameters, and the return type `void` is left out.
pub open spec fn rust_signature(func: Seq<char>, list: Option<Seq<char>>) -> Seq<char> {
    let parts = words(func, Delimiter::Whitespace);
    let return_type = parts[0];
    let name = prefix_before(parts[1], '(');
    let found = match list {
        Some(text) => declarations(text),
        None => Seq::<Seq<char>>::empty(),
    };
    let parameters = if found.len() > 0 && found[0] != "void"@ {
        rust_parameters(found)
    } else {
        Seq::<Seq<char>>::empty()
    };
    let arrow = if return_type != "void"@ {
        "-> "@ + return_type
    } else {
        Seq::<char>::empty()
    };
    "fn "@ + name + "("@ + joined(parameters, ", "@) + ") "@ + arrow + ";"@
}

/// The parameter list that the pattern finds in `func`.
pub open spec fn found_parameter_list(func: Seq<char>) -> Option<Seq<char>> {
    match regex_first_group(parameter_list_pattern(), func, 1) {
        Some(found) => found,
        None => None,
    }
}

/// The Rust signature for the C signature `c_func`.
pub open spec fn converted(c_func: Seq<char>) -> Seq<char> {
    rust_signature(trimmed(c_func), found_parameter_list(trimmed(c_func)))
}

/// Tests whether `c_func` holds a return type and a name.
pub fn holds_signature(c_func: &str) -> (r: bool)
    ensures
        r == is_signature(c_func@),
{
    let func = trim(&chars_of(c_func));
    let parts = split_words(&func, Delimiter::Whitespace);
    parts.len() >= 2
}

/// Trims each text and keeps those that are not empty.
fn trim_all(items: &Vec<Vec<char>>) -> (out: Vec<Vec<char>>)
    ensures
        rows(out@) == non_empty(rows(items@).map_values(|piece: Seq<char>| trimmed(piece))),
{
    let mut out: Vec<Vec<char>> = Vec::new();
    let ghost all = rows(items@).map_values(|piece: Seq<char>| trimmed(piece));
    assert(rows(out@) =~= non_empty(all.take(0)));
    for i in 0..items.len()
        invariant
            all == rows(items@).map_values(|piece: Seq<char>| trimmed(piece)),
            rows(out@) == non_empty(all.take(i as int)),
    {
        let ghost kept = rows(out@);
        assert(all.take(i + 1).drop_last() =~= all.take(i as int));
        assert(all.take(i + 1).last() == trimmed(items@[i as int]@));
        let item = trim(&items[i]);
        if item.len() > 0 {
            out.push(item);
            assert(rows(out@) =~= kept.push(item@));
        }
    }
    assert(all.take(items.len() as int) =~= all);
    out
}

/// Writes one C parameter declaration in its Rust form.
fn convert_parameter(declaration: &Vec<char>) -> (out: Option<Vec<char>>)
    ensures
        match out {
            Some(parameter) => rust_parameter(declaration@) == Some(parameter@),
            None => rust_parameter(declaration@) is None,
        },
{
    let p = split_words(declaration, Delimiter::CommaOrWhitespace);
    if p.len() == 2 {
        let mut out: Vec<char> = Vec::new();
        extend_chars(&mut out, &p[1]);
        push_chars(&mut out, ": ");
        extend_chars(&mut out, &p[0]);
        assert(out@ =~= p@[1]@ + ": "@ + p@[0]@);
        Some(out)
    } else if p.len() == 3 {
        let mut out: Vec<char> = Vec::new();
        extend_chars(&mut out, &p[1]);
        push_chars(&mut out, ": ");
        extend_chars(&mut out, &p[0]);
        push_chars(&mut out, " ");
        extend_chars(&mut out, &p[2]);
        assert(out@ =~= p@[1]@ + ": "@ + p@[0]@ + " "@ + p@[2]@);
        Some(out)
    } else {
        None
    }
}

/// Writes the Rust signature for the trimmed C signature `func`, whose
/// parameter list is `list` where one was found.
pub fn signature_from_parts(func: &str, list: Option<&str>) -> (out: String)
    requires
        words(func@, Delimiter::Whitespace).len() >= 2,
    ensures
        out@ == rust_signature(
            func@,
            match list {
                Some(text) => Some(text@),
                None => None,
            },
        ),
{
    let func = chars_of(func);
    let parts = split_words(&func, Delimiter::Whitespace);
    let name = take_before(&parts[1], '(');
    let found: Vec<Vec<char>> = match list {
        Some(text) => trim_all(&split(&chars_of(text), Delimiter::Char(','))),
        None => Vec::new(),
    };
    assert(list is None ==> rows(found@) =~= Seq::<Seq<char>>::empty());
    let mut parameters: Vec<Vec<char>> = Vec::new();
    if found.len() > 0 && !is_text(&found[0], "void") {
        let ghost all = rows(found@);
        assert(rows(parameters@) =~= rust_parameters(all.take(0)));
        for i in 0..found.len()
            invariant
                all == rows(found@),
                rows(parameters@) == rust_parameters(all.take(i as int)),
        {
            let ghost kept = rows(parameters@);
            assert(all.take(i + 1).drop_last() =~= all.take(i as int));
            assert(all.take(i + 1).last() == found@[i as int]@);
            match convert_parameter(&found[i]) {
                Some(parameter) => {
                    parameters.push(parameter);
                    assert(rows(parameters@) =~= kept.push(parameter@));
                },
                None => {},
            }
        }
        assert(all.take(found.len() as int) =~= all);
    } else {
        assert(rows(parameters@) =~= Seq::<Seq<char>>::empty());
    }
    let mut out: Vec<char> = Vec::new();
    push_chars(&mut out, "fn ");
    extend_chars(&mut out, &name);
    push_chars(&mut out, "(");
    extend_chars(&mut out, &join(&parameters, ", "));
    push_chars(&mut out, ") ");
    let ghost head = out@;
    if !is_text(&parts[0], "void") {
        push_chars(&mut out, "-> ");
        extend_chars(&mut out, &parts[0]);
        assert(out@ =~= head + ("-> "@ + parts@[0]@));
    } else {
        assert(out@ =~= head + Seq::<char>::empty());
    }
    push_chars(&mut out, ";");
    string_of(&out)
}

/// Converts a C function signature to a Rust function signature.
///
/// The signature is trimmed; its first word is the return type and its
/// second word, up to an opening parenthesis, the name. The parameters are
/// what the pattern for parameter lists finds between parentheses.
pub fn convert_c_func_to_rust(c_func: &str) -> (out: String)
    requires
        is_signature(c_func@),
    ensures
        out@ == converted(c_func@),
{
    let func = string_of(&trim(&chars_of(c_func)));
    match first_group("\\(([^)]*)\\)", func.as_str(), 1) {
        Some(Some(list)) => signature_from_parts(func.as_str(), Some(list.as_str())),
        _ => signature_from_parts(func.as_str(), None),
    }
}

} // verus!
