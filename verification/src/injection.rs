//! Puts documentation comments before the declarations of the bindings.
//!
//! The bindings are searched for the declarations of public functions that
//! follow the kernel's naming. Each function that has a description in the
//! corpus gets the comments for that description before every occurrence
//! of its declaration, and the safety reasoning behind them where the
//! registry lists the function.

use crate::documentation_generator::api_docs_generator::{generate_comments, generated_comments};
use crate::json::parsed_json;
use crate::pattern::{all_matches, capture_views, regex_all_matches, Capture, CaptureView};
use crate::safe_wrappers::{
    declaration_views, find_safe_function, generate_safe_function_wrappers, registry_index,
    registry_views, with_safe_wrappers, Declaration, DeclarationView, SafeFunctionView,
    SafeFunctionWrapper,
};
use crate::split::{replace, with_replaced};
use crate::text::{chars_of, same_chars, string_of, texts};
use vstd::prelude::*;

verus! {

/// The description of one function, as it stands in the corpus: the name
/// of the function and the JSON text that describes it.
#[derive(Debug, PartialEq)]
pub struct DocSource {
    pub function_name: String,
    pub json_text: String,
}

/// The mathematical value of a `DocSource`.
pub struct DocSourceView {
    pub function_name: Seq<char>,
    pub json_text: Seq<char>,
}

impl View for DocSource {
    type V = DocSourceView;

    open spec fn view(&self) -> DocSourceView {
        DocSourceView { function_name: self.function_name@, json_text: self.json_text@ }
    }
}

/// The values of a corpus.
pub open spec fn corpus_views(corpus: Seq<DocSource>) -> Seq<DocSourceView> {
    corpus.map_values(|d: DocSource| d@)
}

/// The pattern that finds the declaration of a public function whose name
/// follows the kernel's naming, up to its opening parenthesis.
pub open spec fn declaration_pattern() -> Seq<char> {
    "pub\\s+fn\\s+(Px[a-zA-Z0-9_]*)\\s*\\("@
}

/// The position of the first description of the corpus for `name`.
pub open spec fn corpus_index(corpus: Seq<DocSourceView>, name: Seq<char>) -> Option<int>
    decreases corpus.len(),
{
    if corpus.len() == 0 {
        None
    } else {
        match corpus_index(corpus.drop_last(), name) {
            Some(i) => Some(i),
            None => if corpus.last().function_name == name {
                Some(corpus.len() - 1)
            } else {
                None
            },
        }
    }
}

/// The lines of safety reasoning, each as a comment line.
pub open spec fn reasoning_lines(lines: Seq<Seq<char>>) -> Seq<char>
    decreases lines.len(),
{
    if lines.len() == 0 {
        Seq::<char>::empty()
    } else {
        reasoning_lines(lines.drop_last()) + "/// "@ + lines.last() + "\n"@
    }
}

/// The block that states why the function `name` is safe to call: a
/// header and the reasons, for a function that the registry lists.
pub open spec fn safety_block(registry: Seq<SafeFunctionView>, name: Seq<char>) -> Seq<char> {
    match registry_index(registry, name) {
        Some(i) => "///\n"@ + "/// ### Safety reasoning (Veecle):\n"@ + reasoning_lines(
            registry[i].safety_reasoning,
        ),
        None => Seq::<char>::empty(),
    }
}

/// The text that takes the place of the declaration in `found`: the
/// comments for the function's description, the safety reasoning, and the
/// declaration itself.
pub open spec fn documented_declaration(
    found: CaptureView,
    json_text: Seq<char>,
    registry: Seq<SafeFunctionView>,
) -> Seq<char> {
    generated_comments(parsed_json(json_text)) + safety_block(registry, found.group->0)
        + found.whole
}

/// The text `out` with the one declaration `found` documented at each of
/// its occurrences. A declaration without a name, or whose function the
/// corpus does not describe, leaves the text as it is.
pub open spec fn with_documentation(
    out: Seq<char>,
    found: CaptureView,
    corpus: Seq<DocSourceView>,
    registry: Seq<SafeFunctionView>,
) -> Seq<char> {
    match found.group {
        Some(name) => match corpus_index(corpus, name) {
            Some(i) => with_replaced(
                out,
                found.whole,
                documented_declaration(found, corpus[i].json_text, registry),
            ),
            None => out,
        },
        None => out,
    }
}

/// The text `out` with each of the declarations `found` documented, one
/// after the other.
pub open spec fn with_all_documentation(
    out: Seq<char>,
    found: Seq<CaptureView>,
    corpus: Seq<DocSourceView>,
    registry: Seq<SafeFunctionView>,
) -> Seq<char>
    decreases found.len(),
{
    if found.len() == 0 {
        out
    } else {
        with_documentation(
            with_all_documentation(out, found.drop_last(), corpus, registry),
            found.last(),
            corpus,
            registry,
        )
    }
}

/// The bindings with the documentation of the corpus in them. Where the
/// pattern cannot be used, the bindings stay as they are.
pub open spec fn injected(
    bindings: Seq<char>,
    corpus: Seq<DocSourceView>,
    registry: Seq<SafeFunctionView>,
) -> Seq<char> {
    match regex_all_matches(declaration_pattern(), bindings, 1) {
        Some(found) => with_all_documentation(bindings, found, corpus, registry),
        None => bindings,
    }
}

/// Finds the first description of the corpus for `name`.
pub fn find_doc(corpus: &Vec<DocSource>, name: &str) -> (found: Option<usize>)
    ensures
        match found {
            Some(i) => corpus_index(corpus_views(corpus@), name@) == Some(i as int) && i
                < corpus.len(),
            None => corpus_index(corpus_views(corpus@), name@) is None,
        },
{
    let wanted = chars_of(name);
    let ghost all = corpus_views(corpus@);
    assert(all.take(0) =~= Seq::<DocSourceView>::empty());
    for i in 0..corpus.len()
        invariant
            all == corpus_views(corpus@),
            wanted@ == name@,
            corpus_index(all.take(i as int), name@) is None,
    {
        assert(all.take(i + 1).drop_last() =~= all.take(i as int));
        assert(all.take(i + 1).last() == corpus@[i as int]@);
        let here = chars_of(corpus[i].function_name.as_str());
        if same_chars(&here, &wanted) {
            proof {
                lemma_corpus_index_extends(all, i + 1, name@);
            }
            return Some(i);
        }
    }
    assert(all.take(corpus.len() as int) =~= all);
    None
}

proof fn lemma_corpus_index_extends(corpus: Seq<DocSourceView>, n: int, name: Seq<char>)
    requires
        0 <= n <= corpus.len(),
        corpus_index(corpus.take(n), name) is Some,
    ensures
        corpus_index(corpus, name) == corpus_index(corpus.take(n), name),
    decreases corpus.len() - n,
{
    if n < corpus.len() {
        assert(corpus.take(n + 1).drop_last() =~= corpus.take(n));
        lemma_corpus_index_extends(corpus, n + 1, name);
    } else {
        assert(corpus.take(n) =~= corpus);
    }
}

/// Appends the safety reasoning for the function `name` to `out`, where the
/// registry lists the function.
pub fn push_safety_block(out: &mut String, safe_functions: &Vec<SafeFunctionWrapper>, name: &str)
    ensures
        final(out)@ == old(out)@ + safety_block(registry_views(safe_functions@), name@),
{
    assert(old(out)@ + Seq::<char>::empty() =~= old(out)@);
    match find_safe_function(safe_functions, name) {
        Some(i) => {
            let ghost before = out@;
            out.append("///\n");
            out.append("/// ### Safety reasoning (Veecle):\n");
            let ghost head = out@;
            let lines = &safe_functions[i].safety_reasoning;
            let ghost all = texts(lines@);
            assert(all.take(0) =~= Seq::<Seq<char>>::empty());
            assert(head + Seq::<char>::empty() =~= head);
            for k in 0..lines.len()
                invariant
                    all == texts(lines@),
                    out@ == head + reasoning_lines(all.take(k as int)),
            {
                assert(all.take(k + 1).drop_last() =~= all.take(k as int));
                assert(all.take(k + 1).last() == lines@[k as int]@);
                out.append("/// ");
                out.append(lines[k].as_str());
                out.append("\n");
                assert(out@ =~= head + (reasoning_lines(all.take(k as int)) + "/// "@
                    + lines@[k as int]@ + "\n"@));
            }
            assert(all.take(lines.len() as int) =~= all);
            assert(registry_views(safe_functions@)[i as int].safety_reasoning == all);
            assert(out@ =~= before + ("///\n"@ + "/// ### Safety reasoning (Veecle):\n"@
                + reasoning_lines(all)));
        },
        None => {},
    }
}

/// Documents the declarations `found` in `bindings`, one after the other.
///
/// `found` are the declarations that were found in the bindings, each with
/// the name of its function. For each of them that the corpus describes,
/// the comments, the safety reasoning and the declaration itself take the
/// place of every occurrence of the declaration in the text.
pub fn inject_matches(
    bindings: String,
    found: &Vec<Capture>,
    corpus: &Vec<DocSource>,
    safe_functions: &Vec<SafeFunctionWrapper>,
) -> (out: String)
    ensures
        out@ == with_all_documentation(
            bindings@,
            capture_views(found@),
            corpus_views(corpus@),
            registry_views(safe_functions@),
        ),
{
    let mut out = bindings;
    let ghost all = capture_views(found@);
    let ghost docs = corpus_views(corpus@);
    let ghost registry = registry_views(safe_functions@);
    assert(all.take(0) =~= Seq::<CaptureView>::empty());
    for i in 0..found.len()
        invariant
            all == capture_views(found@),
            docs == corpus_views(corpus@),
            registry == registry_views(safe_functions@),
            out@ == with_all_documentation(bindings@, all.take(i as int), docs, registry),
    {
        assert(all.take(i + 1).drop_last() =~= all.take(i as int));
        assert(all.take(i + 1).last() == found@[i as int]@);
        match &found[i].group {
            Some(name) => {
                match find_doc(corpus, name.as_str()) {
                    Some(at) => {
                        let mut apidoc = generate_comments(corpus[at].json_text.as_str());
                        push_safety_block(&mut apidoc, safe_functions, name.as_str());
                        apidoc.append(found[i].whole.as_str());
                        assert(docs[at as int].json_text == corpus@[at as int].json_text@);
                        assert(apidoc@ =~= documented_declaration(
                            found@[i as int]@,
                            docs[at as int].json_text,
                            registry,
                        ));
                        let replaced = replace(
                            &chars_of(out.as_str()),
                            &chars_of(found[i].whole.as_str()),
                            &chars_of(apidoc.as_str()),
                        );
                        out = string_of(&replaced);
                    },
                    None => {},
                }
            },
            None => {},
        }
    }
    assert(all.take(found.len() as int) =~= all);
    out
}

/// Injects the API documentation and the safety reasoning into the
/// bindings.
///
/// The pattern matches `pub fn Px_function_name(`, with any white space
/// among the tokens; its first group holds the name of the function.
/// `corpus` holds the descriptions that exist.
pub fn inject_pxapi_doc(
    bindings: String,
    corpus: &Vec<DocSource>,
    safe_functions: &Vec<SafeFunctionWrapper>,
) -> (out: String)
    ensures
        out@ == injected(bindings@, corpus_views(corpus@), registry_views(safe_functions@)),
{
    match all_matches("pub\\s+fn\\s+(Px[a-zA-Z0-9_]*)\\s*\\(", bindings.as_str(), 1) {
        Some(found) => inject_matches(bindings, &found, corpus, safe_functions),
        None => bindings,
    }
}

/// The names of the functions whose declarations the pattern finds in
/// `bindings`, in the order of the declarations. These are the functions
/// whose descriptions the corpus is asked for.
pub open spec fn documented_names(bindings: Seq<char>) -> Seq<Seq<char>> {
    match regex_all_matches(declaration_pattern(), bindings, 1) {
        Some(found) => names_in(found),
        None => Seq::<Seq<char>>::empty(),
    }
}

/// The names that the declarations `found` hold, in order.
pub open spec fn names_in(found: Seq<CaptureView>) -> Seq<Seq<char>>
    decreases found.len(),
{
    if found.len() == 0 {
        Seq::<Seq<char>>::empty()
    } else {
        match found.last().group {
            Some(name) => names_in(found.drop_last()).push(name),
            None => names_in(found.drop_last()),
        }
    }
}

/// Lists the names of the functions whose declarations the pattern finds in
/// `bindings`.
pub fn documented_function_names(bindings: &str) -> (out: Vec<String>)
    ensures
        texts(out@) == documented_names(bindings@),
{
    let mut out: Vec<String> = Vec::new();
    match all_matches("pub\\s+fn\\s+(Px[a-zA-Z0-9_]*)\\s*\\(", bindings, 1) {
        Some(found) => {
            let ghost all = capture_views(found@);
            assert(all.take(0) =~= Seq::<CaptureView>::empty());
            assert(texts(out@) =~= names_in(all.take(0)));
            for i in 0..found.len()
                invariant
                    all == capture_views(found@),
                    texts(out@) == names_in(all.take(i as int)),
            {
                let ghost before = texts(out@);
                assert(all.take(i + 1).drop_last() =~= all.take(i as int));
                assert(all.take(i + 1).last() == found@[i as int]@);
                match &found[i].group {
                    Some(name) => {
                        out.push(name.clone());
                        assert(texts(out@) =~= before.push(name@));
                    },
                    None => {},
                }
            }
            assert(all.take(found.len() as int) =~= all);
        },
        None => {
            assert(texts(out@) =~= Seq::<Seq<char>>::empty());
        },
    }
    out
}

/// The text that the whole pipeline makes: the bindings with the safe
/// wrappers behind them, and the documentation of the corpus in the whole.
pub open spec fn documented_bindings(
    bindings: Seq<char>,
    items: Seq<DeclarationView>,
    corpus: Seq<DocSourceView>,
    registry: Seq<SafeFunctionView>,
) -> Seq<char> {
    injected(with_safe_wrappers(bindings, items, registry), corpus, registry)
}

/// Runs the whole pipeline on the bindings and the items that they
/// declare: adds the safe wrappers, then injects the documentation.
pub fn generate_documented_bindings(
    bindings: String,
    items: &Vec<Declaration>,
    corpus: &Vec<DocSource>,
    safe_functions: &Vec<SafeFunctionWrapper>,
) -> (out: String)
    ensures
        out@ == documented_bindings(
            bindings@,
            declaration_views(items@),
            corpus_views(corpus@),
            registry_views(safe_functions@),
        ),
{
    let wrapped = generate_safe_function_wrappers(bindings, items, safe_functions);
    inject_pxapi_doc(wrapped, corpus, safe_functions)
}

/// Two runs of the pipeline on the same inputs make the same text,
/// character by character.
pub proof fn lemma_pipeline_repeats(
    bindings: Seq<char>,
    items: Seq<DeclarationView>,
    corpus: Seq<DocSourceView>,
    registry: Seq<SafeFunctionView>,
    first: Seq<char>,
    second: Seq<char>,
)
    requires
        first == documented_bindings(bindings, items, corpus, registry),
        second == documented_bindings(bindings, items, corpus, registry),
    ensures
        first == second,
        first.len() == second.len(),
        forall|i: int| 0 <= i < first.len() ==> first[i] == second[i],
{
}

/// Where the corpus describes none of the functions that were found, the
/// text stays as it is.
pub proof fn lemma_nothing_to_document(
    out: Seq<char>,
    found: Seq<CaptureView>,
    corpus: Seq<DocSourceView>,
    registry: Seq<SafeFunctionView>,
)
    requires
        forall|i: int|
            0 <= i < found.len() ==> ((#[trigger] found[i]).group matches Some(name)
                ==> corpus_index(corpus, name) is None),
    ensures
        with_all_documentation(out, found, corpus, registry) == out,
    decreases found.len(),
{
    if found.len() > 0 {
        assert(forall|i: int|
            0 <= i < found.drop_last().len() ==> found.drop_last()[i] == found[i]);
        lemma_nothing_to_document(out, found.drop_last(), corpus, registry);
    }
}

} // verus!
