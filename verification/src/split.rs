//! Splitting, joining and replacing in texts.

use crate::text::{extend_chars, push_chars, rows, Delimiter};
use vstd::prelude::*;

verus! {

/// The pieces of `s` between its separators. Two separators in a row, and a
/// separator at either end, leave an empty piece; a text without separators
/// is its own single piece.
pub open spec fn pieces(s: Seq<char>, d: Delimiter) -> Seq<Seq<char>>
    decreases s.len(),
{
    if s.len() == 0 {
        seq![Seq::<char>::empty()]
    } else {
        let before = pieces(s.drop_last(), d);
        if d.matches(s.last()) {
            before.push(Seq::<char>::empty())
        } else {
            before.drop_last().push(before.last().push(s.last()))
        }
    }
}

/// The texts of `items` that are not empty, in order.
pub open spec fn non_empty(items: Seq<Seq<char>>) -> Seq<Seq<char>>
    decreases items.len(),
{
    if items.len() == 0 {
        Seq::<Seq<char>>::empty()
    } else if items.last().len() > 0 {
        non_empty(items.drop_last()).push(items.last())
    } else {
        non_empty(items.drop_last())
    }
}

/// The maximal runs of characters of `s` that hold no separator.
pub open spec fn words(s: Seq<char>, d: Delimiter) -> Seq<Seq<char>> {
    non_empty(pieces(s, d))
}

/// `s` up to its first occurrence of `c`, or all of `s` where `c` does not
/// occur.
pub open spec fn prefix_before(s: Seq<char>, c: char) -> Seq<char>
    decreases s.len(),
{
    if s.len() == 0 || s[0] == c {
        Seq::<char>::empty()
    } else {
        seq![s[0]] + prefix_before(s.drop_first(), c)
    }
}

/// The texts of `items` in a row, with `sep` between each two neighbours.
pub open spec fn joined(items: Seq<Seq<char>>, sep: Seq<char>) -> Seq<char>
    decreases items.len(),
{
    if items.len() == 0 {
        Seq::<char>::empty()
    } else if items.len() == 1 {
        items[0]
    } else {
        joined(items.drop_last(), sep) + sep + items.last()
    }
}

/// `s` with every `from` turned into `to`.
pub open spec fn with_char_replaced(s: Seq<char>, from: char, to: char) -> Seq<char> {
    s.map_values(
        |c: char|
            if c == from {
                to
            } else {
                c
            },
    )
}

/// `with` before the first character of `s`, and after every character of `s`.
pub open spec fn interleaved(s: Seq<char>, with: Seq<char>) -> Seq<char>
    decreases s.len(),
{
    if s.len() == 0 {
        with
    } else {
        interleaved(s.drop_last(), with) + seq![s.last()] + with
    }
}

/// `s` with every occurrence of a non-empty `pattern` replaced by `with`,
/// occurrences being found from left to right without overlap.
pub open spec fn with_occurrences_replaced(
    s: Seq<char>,
    pattern: Seq<char>,
    with: Seq<char>,
) -> Seq<char>
    recommends
        pattern.len() > 0,
    decreases s.len(),
{
    if pattern.len() == 0 || s.len() < pattern.len() {
        s
    } else if s.take(pattern.len() as int) == pattern {
        with + with_occurrences_replaced(s.skip(pattern.len() as int), pattern, with)
    } else {
        seq![s[0]] + with_occurrences_replaced(s.drop_first(), pattern, with)
    }
}

/// `s` with every occurrence of `pattern` replaced by `with`. An empty
/// pattern occurs before every character and at the end.
pub open spec fn with_replaced(s: Seq<char>, pattern: Seq<char>, with: Seq<char>) -> Seq<char> {
    if pattern.len() == 0 {
        interleaved(s, with)
    } else {
        with_occurrences_replaced(s, pattern, with)
    }
}

/// Splits `s` at every separator.
pub fn split(s: &Vec<char>, d: Delimiter) -> (out: Vec<Vec<char>>)
    ensures
        rows(out@) == pieces(s@, d),
{
    let mut out: Vec<Vec<char>> = Vec::new();
    let mut current: Vec<char> = Vec::new();
    assert(rows(out@).push(current@) =~= pieces(s@.take(0), d));
    for i in 0..s.len()
        invariant
            rows(out@).push(current@) == pieces(s@.take(i as int), d),
    {
        let ghost before = pieces(s@.take(i as int), d);
        assert(s@.take(i + 1).drop_last() =~= s@.take(i as int));
        assert(s@.take(i + 1).last() == s@[i as int]);
        if d.test(s[i]) {
            out.push(current);
            current = Vec::new();
            assert(rows(out@) =~= before);
        } else {
            let ghost done = rows(out@);
            current.push(s[i]);
            assert(before.drop_last() =~= done);
            assert(rows(out@).push(current@) =~= before.drop_last().push(
                before.last().push(s@[i as int]),
            ));
        }
    }
    assert(s@.take(s.len() as int) =~= s@);
    let ghost done = rows(out@);
    out.push(current);
    assert(rows(out@) =~= done.push(current@));
    out
}

/// Keeps the texts that are not empty.
pub fn drop_empty(items: Vec<Vec<char>>) -> (out: Vec<Vec<char>>)
    ensures
        rows(out@) == non_empty(rows(items@)),
{
    let mut out: Vec<Vec<char>> = Vec::new();
    let mut items = items;
    let ghost all = rows(items@);
    let n = items.len();
    assert(rows(out@) =~= non_empty(all.take(0)));
    for i in 0..n
        invariant
            n == items.len(),
            all.len() == n,
            forall|k: int| i <= k < n ==> (#[trigger] items@[k])@ == all[k],
            rows(out@) == non_empty(all.take(i as int)),
    {
        let mut item: Vec<char> = Vec::new();
        let ghost kept = rows(out@);
        assert(all.take(i + 1).drop_last() =~= all.take(i as int));
        assert(all.take(i + 1).last() == all[i as int]);
        std::mem::swap(&mut items[i], &mut item);
        if item.len() > 0 {
            out.push(item);
            assert(rows(out@) =~= kept.push(all[i as int]));
        }
    }
    assert(all.take(n as int) =~= all);
    out
}

/// Splits `s` into its maximal runs of characters that are no separators.
pub fn split_words(s: &Vec<char>, d: Delimiter) -> (out: Vec<Vec<char>>)
    ensures
        rows(out@) == words(s@, d),
{
    drop_empty(split(s, d))
}

/// Copies `s` up to its first `c`.
pub fn take_before(s: &Vec<char>, c: char) -> (out: Vec<char>)
    ensures
        out@ == prefix_before(s@, c),
{
    let mut out: Vec<char> = Vec::new();
    let mut i: usize = 0;
    assert(s@.skip(0) =~= s@);
    while i < s.len() && s[i] != c
        invariant
            i <= s.len(),
            out@ + prefix_before(s@.skip(i as int), c) == prefix_before(s@, c),
        decreases s.len() - i,
    {
        let ghost rest = s@.skip(i as int);
        assert(rest.drop_first() =~= s@.skip(i + 1));
        assert(out@.push(s@[i as int]) + prefix_before(rest.drop_first(), c) =~= out@ + (seq![
            rest[0],
        ] + prefix_before(rest.drop_first(), c)));
        out.push(s[i]);
        i += 1;
    }
    assert(out@ + Seq::<char>::empty() =~= out@);
    out
}

/// Strings `items` together with `sep` between them.
pub fn join(items: &Vec<Vec<char>>, sep: &str) -> (out: Vec<char>)
    ensures
        out@ == joined(rows(items@), sep@),
{
    let mut out: Vec<char> = Vec::new();
    let ghost all = rows(items@);
    assert(all.take(0) =~= Seq::<Seq<char>>::empty());
    for i in 0..items.len()
        invariant
            all == rows(items@),
            out@ == joined(all.take(i as int), sep@),
    {
        assert(all.take(i + 1).drop_last() =~= all.take(i as int));
        assert(all.take(i + 1).last() == items@[i as int]@);
        if i > 0 {
            push_chars(&mut out, sep);
        }
        extend_chars(&mut out, &items[i]);
        assert(i == 0 ==> all.take(i + 1)[0] == items@[i as int]@);
        assert(i == 0 ==> out@ =~= items@[i as int]@);
    }
    assert(all.take(items.len() as int) =~= all);
    out
}

/// Turns every `from` into `to`.
pub fn replace_char(s: &Vec<char>, from: char, to: char) -> (out: Vec<char>)
    ensures
        out@ == with_char_replaced(s@, from, to),
{
    let mut out: Vec<char> = Vec::new();
    for i in 0..s.len()
        invariant
            out@ == with_char_replaced(s@.take(i as int), from, to),
    {
        let c = s[i];
        out.push(
            if c == from {
                to
            } else {
                c
            },
        );
        assert(out@ =~= with_char_replaced(s@.take(i + 1), from, to));
    }
    assert(s@.take(s.len() as int) =~= s@);
    out
}

/// Tests whether `pattern` occurs in `s` at position `at`.
pub fn occurs_at(s: &Vec<char>, at: usize, pattern: &Vec<char>) -> (r: bool)
    requires
        at <= s.len(),
    ensures
        r == (pattern.len() <= s.len() - at && s@.skip(at as int).take(pattern.len() as int)
            == pattern@),
{
    let m = pattern.len();
    if m > s.len() - at {
        return false;
    }
    let ghost window = s@.skip(at as int).take(m as int);
    for k in 0..m
        invariant
            m == pattern.len(),
            at + m <= s.len(),
            window == s@.skip(at as int).take(m as int),
            window.take(k as int) == pattern@.take(k as int),
    {
        if s[at + k] != pattern[k] {
            assert(window[k as int] != pattern@[k as int]);
            return false;
        }
        assert(window.take(k + 1) =~= window.take(k as int).push(window[k as int]));
        assert(pattern@.take(k + 1) =~= pattern@.take(k as int).push(pattern@[k as int]));
    }
    assert(window.take(m as int) =~= window);
    assert(pattern@.take(m as int) =~= pattern@);
    true
}

/// Replaces every occurrence of `pattern` by `with`.
pub fn replace(s: &Vec<char>, pattern: &Vec<char>, with: &Vec<char>) -> (out: Vec<char>)
    ensures
        out@ == with_replaced(s@, pattern@, with@),
{
    let mut out: Vec<char> = Vec::new();
    let n = s.len();
    let m = pattern.len();
    if m == 0 {
        extend_chars(&mut out, with);
        assert(s@.take(0) =~= Seq::<char>::empty());
        for i in 0..n
            invariant
                n == s.len(),
                out@ == interleaved(s@.take(i as int), with@),
        {
            assert(s@.take(i + 1).drop_last() =~= s@.take(i as int));
            out.push(s[i]);
            extend_chars(&mut out, with);
        }
        assert(s@.take(n as int) =~= s@);
        return out;
    }
    let mut i: usize = 0;
    assert(s@.skip(0) =~= s@);
    assert(out@ + with_occurrences_replaced(s@, pattern@, with@) =~= with_occurrences_replaced(
        s@,
        pattern@,
        with@,
    ));
    while i < n
        invariant
            i <= n,
            n == s.len(),
            m == pattern.len(),
            m > 0,
            out@ + with_occurrences_replaced(s@.skip(i as int), pattern@, with@)
                == with_occurrences_replaced(s@, pattern@, with@),
        decreases n - i,
    {
        let ghost rest = s@.skip(i as int);
        let ghost before = out@;
        if occurs_at(s, i, pattern) {
            extend_chars(&mut out, with);
            assert(rest.skip(m as int) =~= s@.skip(i + m));
            assert(out@ + with_occurrences_replaced(rest.skip(m as int), pattern@, with@)
                =~= before + (with@ + with_occurrences_replaced(
                rest.skip(m as int),
                pattern@,
                with@,
            )));
            i += m;
        } else {
            out.push(s[i]);
            assert(rest.drop_first() =~= s@.skip(i + 1));
            proof {
                if rest.len() < m as nat {
                    lemma_short_rest(rest.drop_first(), pattern@, with@);
                    assert(rest =~= seq![rest[0]] + rest.drop_first());
                }
            }
            assert(out@ + with_occurrences_replaced(rest.drop_first(), pattern@, with@)
                =~= before + (seq![rest[0]] + with_occurrences_replaced(
                rest.drop_first(),
                pattern@,
                with@,
            )));
            i += 1;
        }
    }
    assert(s@.skip(n as int) =~= Seq::<char>::empty());
    assert(out@ + Seq::<char>::empty() =~= out@);
    out
}

proof fn lemma_short_rest(s: Seq<char>, pattern: Seq<char>, with: Seq<char>)
    requires
        s.len() < pattern.len(),
    ensures
        with_occurrences_replaced(s, pattern, with) == s,
{
}

} // verus!
