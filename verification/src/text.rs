//! Character-level text operations and their mathematical meaning.
//!
//! Texts are reasoned about as sequences of characters. Executable functions
//! work on `Vec<char>` and convert from and to `String` at their edges.

use vstd::prelude::*;

verus! {

/// `String::push` appends one character.
pub assume_specification[ String::push ](s: &mut String, ch: char)
    ensures
        final(s)@ == old(s)@.push(ch),
;

/// Whether `c` has the Unicode property `White_Space`.
pub open spec fn is_white_space(c: char) -> bool {
    let n = c as u32;
    ||| 0x09 <= n <= 0x0D
    ||| n == 0x20
    ||| n == 0x85
    ||| n == 0xA0
    ||| n == 0x1680
    ||| 0x2000 <= n <= 0x200A
    ||| n == 0x2028
    ||| n == 0x2029
    ||| n == 0x202F
    ||| n == 0x205F
    ||| n == 0x3000
}

/// Tests whether `c` has the Unicode property `White_Space`.
pub fn char_is_whitespace(c: char) -> (b: bool)
    ensures
        b == is_white_space(c),
{
    let n: u32 = c as u32;
    (0x09 <= n && n <= 0x0D) || n == 0x20 || n == 0x85 || n == 0xA0 || n == 0x1680 || (0x2000 <= n
        && n <= 0x200A) || n == 0x2028 || n == 0x2029 || n == 0x202F || n == 0x205F || n == 0x3000
}

/// What separates the pieces of a text.
#[derive(Clone, Copy, Debug)]
pub enum Delimiter {
    /// One given character.
    Char(char),
    /// Any white space character.
    Whitespace,
    /// A comma or any white space character.
    CommaOrWhitespace,
}

impl Delimiter {
    /// Whether `c` is a separator.
    pub open spec fn matches(self, c: char) -> bool {
        match self {
            Delimiter::Char(d) => c == d,
            Delimiter::Whitespace => is_white_space(c),
            Delimiter::CommaOrWhitespace => c == ',' || is_white_space(c),
        }
    }

    /// Tests whether `c` is a separator.
    pub fn test(&self, c: char) -> (b: bool)
        ensures
            b == self.matches(c),
    {
        match self {
            Delimiter::Char(d) => c == *d,
            Delimiter::Whitespace => char_is_whitespace(c),
            Delimiter::CommaOrWhitespace => c == ',' || char_is_whitespace(c),
        }
    }
}

/// The characters of `s`, in order.
pub fn chars_of(s: &str) -> (out: Vec<char>)
    ensures
        out@ == s@,
{
    let mut out: Vec<char> = Vec::new();
    for c in it: s.chars()
        invariant
            out@ == it.seq().take(it.index() as int),
            it.seq() == s@,
    {
        out.push(c);
    }
    out
}

/// The string made of `chars`, in order.
pub fn string_of(chars: &Vec<char>) -> (out: String)
    ensures
        out@ == chars@,
{
    let mut out = String::new();
    for i in 0..chars.len()
        invariant
            out@ == chars@.take(i as int),
    {
        out.push(chars[i]);
    }
    out
}

/// Appends the characters of `s` to `buf`.
pub fn push_chars(buf: &mut Vec<char>, s: &str)
    ensures
        final(buf)@ == old(buf)@ + s@,
{
    for c in it: s.chars()
        invariant
            buf@ == old(buf)@ + it.seq().take(it.index() as int),
            it.seq() == s@,
    {
        buf.push(c);
    }
}

/// Appends a copy of `tail` to `buf`.
pub fn extend_chars(buf: &mut Vec<char>, tail: &Vec<char>)
    ensures
        final(buf)@ == old(buf)@ + tail@,
{
    for i in 0..tail.len()
        invariant
            buf@ == old(buf)@ + tail@.take(i as int),
    {
        buf.push(tail[i]);
    }
}

/// Tests whether two texts hold the same characters.
pub fn same_chars(a: &Vec<char>, b: &Vec<char>) -> (r: bool)
    ensures
        r == (a@ == b@),
{
    if a.len() != b.len() {
        return false;
    }
    for i in 0..a.len()
        invariant
            a.len() == b.len(),
            a@.take(i as int) == b@.take(i as int),
    {
        if a[i] != b[i] {
            return false;
        }
        assert(a@.take(i + 1) =~= a@.take(i as int).push(a@[i as int]));
        assert(b@.take(i + 1) =~= b@.take(i as int).push(b@[i as int]));
    }
    assert(a@ =~= a@.take(a.len() as int));
    assert(b@ =~= b@.take(b.len() as int));
    true
}

/// Tests whether `s` holds exactly the characters of `literal`.
pub fn is_text(s: &Vec<char>, literal: &str) -> (r: bool)
    ensures
        r == (s@ == literal@),
{
    let other = chars_of(literal);
    same_chars(s, &other)
}

/// The texts that a list of character vectors holds.
pub open spec fn rows(v: Seq<Vec<char>>) -> Seq<Seq<char>> {
    v.map_values(|r: Vec<char>| r@)
}

/// The texts that a list of strings holds.
pub open spec fn texts(v: Seq<String>) -> Seq<Seq<char>> {
    v.map_values(|s: String| s@)
}

/// `s` without its leading white space.
pub open spec fn trimmed_start(s: Seq<char>) -> Seq<char>
    decreases s.len(),
{
    if s.len() > 0 && is_white_space(s[0]) {
        trimmed_start(s.drop_first())
    } else {
        s
    }
}

/// `s` without its trailing white space.
pub open spec fn trimmed_end(s: Seq<char>) -> Seq<char>
    decreases s.len(),
{
    if s.len() > 0 && is_white_space(s.last()) {
        trimmed_end(s.drop_last())
    } else {
        s
    }
}

/// `s` without its leading and trailing white space.
pub open spec fn trimmed(s: Seq<char>) -> Seq<char> {
    trimmed_end(trimmed_start(s))
}

/// Whether `s` neither starts nor ends with white space.
pub open spec fn is_trimmed(s: Seq<char>) -> bool {
    s.len() > 0 ==> !is_white_space(s[0]) && !is_white_space(s.last())
}

/// Removes leading and trailing white space.
pub fn trim(s: &Vec<char>) -> (out: Vec<char>)
    ensures
        out@ == trimmed(s@),
{
    let n = s.len();
    let mut start: usize = 0;
    assert(s@.skip(0) =~= s@);
    while start < n && char_is_whitespace(s[start])
        invariant
            start <= n,
            n == s.len(),
            trimmed_start(s@) == trimmed_start(s@.skip(start as int)),
        decreases n - start,
    {
        assert(s@.skip(start as int).drop_first() =~= s@.skip(start + 1));
        start += 1;
    }
    let ghost rest = s@.skip(start as int);
    assert(trimmed_start(s@) == rest);
    let mut end: usize = n;
    assert(rest.take(n - start) =~= rest);
    while end > start && char_is_whitespace(s[end - 1])
        invariant
            start <= end <= n,
            n == s.len(),
            rest == s@.skip(start as int),
            trimmed_end(rest) == trimmed_end(rest.take(end - start)),
        decreases end,
    {
        assert(rest.take(end - start).drop_last() =~= rest.take(end - 1 - start));
        end -= 1;
    }
    assert(trimmed_end(rest) == rest.take(end - start));
    let mut out: Vec<char> = Vec::new();
    for i in start..end
        invariant
            start <= end <= n,
            n == s.len(),
            out@ == s@.subrange(start as int, i as int),
    {
        out.push(s[i]);
    }
    assert(s@.subrange(start as int, end as int) =~= rest.take(end - start));
    out
}

/// The result of trimming is trimmed.
pub proof fn lemma_trimmed_is_trimmed(s: Seq<char>)
    ensures
        is_trimmed(trimmed(s)),
{
    lemma_trimmed_start_head(s);
    lemma_trimmed_end_keeps_head(trimmed_start(s));
    lemma_trimmed_end_last(trimmed_start(s));
}

proof fn lemma_trimmed_start_head(s: Seq<char>)
    ensures
        trimmed_start(s).len() > 0 ==> !is_white_space(trimmed_start(s)[0]),
    decreases s.len(),
{
    if s.len() > 0 && is_white_space(s[0]) {
        lemma_trimmed_start_head(s.drop_first());
    }
}

proof fn lemma_trimmed_end_last(s: Seq<char>)
    ensures
        trimmed_end(s).len() > 0 ==> !is_white_space(trimmed_end(s).last()),
    decreases s.len(),
{
    if s.len() > 0 && is_white_space(s.last()) {
        lemma_trimmed_end_last(s.drop_last());
    }
}

proof fn lemma_trimmed_end_keeps_head(s: Seq<char>)
    ensures
        trimmed_end(s).len() > 0 ==> s.len() > 0 && trimmed_end(s)[0] == s[0],
    decreases s.len(),
{
    if s.len() > 0 && is_white_space(s.last()) {
        lemma_trimmed_end_keeps_head(s.drop_last());
    }
}

/// A trimmed text comes back unchanged when white space is put around it and
/// the whole is trimmed again.
pub proof fn lemma_trim_padded(before: char, s: Seq<char>, after: char)
    requires
        is_trimmed(s),
        is_white_space(before),
        is_white_space(after),
    ensures
        trimmed(seq![before] + s + seq![after]) == s,
{
    let padded = seq![before] + s + seq![after];
    assert(padded.drop_first() =~= s + seq![after]);
    assert(padded[0] == before);
    assert(trimmed_start(padded) == trimmed_start(s + seq![after]));
    if s.len() == 0 {
        assert((s + seq![after]).drop_first() =~= Seq::<char>::empty());
        assert(trimmed_start(s + seq![after]) == trimmed_start(Seq::<char>::empty()));
        assert(trimmed(padded) =~= s);
    } else {
        assert((s + seq![after])[0] == s[0]);
        assert(trimmed_start(padded) == s + seq![after]);
        assert((s + seq![after]).drop_last() =~= s);
        assert(trimmed_end(s + seq![after]) == trimmed_end(s));
    }
}

} // verus!
