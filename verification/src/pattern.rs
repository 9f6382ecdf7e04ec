//! Regular expressions, matched by the `regex` crate.
//!
//! What a pattern matches in a text is not defined here: each operation has
//! a name for its result, and the functions that build on it say what they
//! return in terms of that name.

use vstd::prelude::*;

verus! {

/// One match of a pattern: the text of the whole match, and the text of one
/// of its groups where that group took part in the match.
#[derive(Debug, PartialEq)]
pub struct Capture {
    pub whole: String,
    pub group: Option<String>,
}

/// The mathematical value of a `Capture`.
pub struct CaptureView {
    pub whole: Seq<char>,
    pub group: Option<Seq<char>>,
}

impl View for Capture {
    type V = CaptureView;

    open spec fn view(&self) -> CaptureView {
        CaptureView {
            whole: self.whole@,
            group: match self.group {
                Some(text) => Some(text@),
                None => None,
            },
        }
    }
}

/// The values of a list of captures.
pub open spec fn capture_views(found: Seq<Capture>) -> Seq<CaptureView> {
    found.map_values(|c: Capture| c@)
}

/// What `Regex::replace_all` makes of `text` with the pattern `pattern` and
/// the replacement `replacement`; `None` where `Regex::new` refuses the
/// pattern.
pub uninterp spec fn regex_replaced(
    pattern: Seq<char>,
    text: Seq<char>,
    replacement: Seq<char>,
) -> Option<Seq<char>>;

/// What the group `group` holds in the first match that `Regex::captures`
/// finds for the pattern `pattern` in `text`: the inner `None` where there is
/// no match or the group took no part in it, the outer `None` where
/// `Regex::new` refuses the pattern.
pub uninterp spec fn regex_first_group(
    pattern: Seq<char>,
    text: Seq<char>,
    group: usize,
) -> Option<Option<Seq<char>>>;

/// The matches that `Regex::captures_iter` finds for the pattern `pattern`
/// in `text`, in order, each with what its group `group` holds; `None` where
/// `Regex::new` refuses the pattern.
pub uninterp spec fn regex_all_matches(
    pattern: Seq<char>,
    text: Seq<char>,
    group: usize,
) -> Option<Seq<CaptureView>>;

/// Compiles `pattern` with `Regex::new` and calls `Regex::replace_all` on
/// `text`. The result is a function of the three texts alone.
#[verifier::external_body]
pub(crate) fn replace_all(pattern: &str, text: &str, replacement: &str) -> (r: Option<String>)
    ensures
        match r {
            Some(out) => regex_replaced(pattern@, text@, replacement@) == Some(out@),
            None => regex_replaced(pattern@, text@, replacement@) is None,
        },
{
    regex::Regex::new(pattern).ok().map(|re| re.replace_all(text, replacement).into_owned())
}

/// Compiles `pattern` with `Regex::new`, calls `Regex::captures` on `text`
/// and copies what `Captures::get` gives for `group`. The result is a
/// function of the arguments alone.
#[verifier::external_body]
pub(crate) fn first_group(pattern: &str, text: &str, group: usize) -> (r: Option<Option<String>>)
    ensures
        match r {
            Some(Some(held)) => regex_first_group(pattern@, text@, group) == Some(Some(held@)),
            Some(None) => regex_first_group(pattern@, text@, group) == Some(
                None::<Seq<char>>,
            ),
            None => regex_first_group(pattern@, text@, group) is None,
        },
{
    regex::Regex::new(pattern).ok().map(
        |re| re.captures(text).and_then(|c| c.get(group)).map(|m| m.as_str().to_owned()),
    )
}

/// Compiles `pattern` with `Regex::new`, walks `Regex::captures_iter` over
/// `text` and copies, for each match, the matched text and what
/// `Captures::get` gives for `group`. The result is a function of the
/// arguments alone.
#[verifier::external_body]
pub(crate) fn all_matches(pattern: &str, text: &str, group: usize) -> (r: Option<Vec<Capture>>)
    ensures
        match r {
            Some(found) => regex_all_matches(pattern@, text@, group) == Some(
                capture_views(found@),
            ),
            None => regex_all_matches(pattern@, text@, group) is None,
        },
{
    regex::Regex::new(pattern).ok().map(
        |re|
            re.captures_iter(text).map(
                |c|
                    Capture {
                        whole: c[0].to_owned(),
                        group: c.get(group).map(|m| m.as_str().to_owned()),
                    },
            ).collect(),
    )
}

} // verus!
