//! The rope that stores buffer text, and the line structure of a text.
//!
//! Lines are separated by LF only (`ropey` is built without its
//! `unicode_lines` and `cr_lines` features), so a CRLF pair ends a line at its
//! LF and a lone CR is ordinary text.

use ropey::Rope;
use vstd::prelude::*;

verus! {

#[verifier::external_type_specification]
#[verifier::external_body]
pub struct ExRope(Rope);

/// The characters a rope holds, in order.
pub uninterp spec fn rope_chars(r: Rope) -> Seq<char>;

/// Number of LF characters in `s`.
pub open spec fn count_lf(s: Seq<char>) -> nat
    decreases s.len(),
{
    if s.len() == 0 {
        0
    } else {
        (if s[0] == '\n' { 1nat } else { 0nat }) + count_lf(s.drop_first())
    }
}

/// Char offset at which line `line` starts: just after the `line`-th LF.
/// One past the last line this is the length of `s`.
pub open spec fn line_start(s: Seq<char>, line: nat) -> int
    decreases s.len(),
{
    if line == 0 || s.len() == 0 {
        0
    } else if s[0] == '\n' {
        1 + line_start(s.drop_first(), (line - 1) as nat)
    } else {
        1 + line_start(s.drop_first(), line)
    }
}

/// Index of the line that holds char offset `i`.
pub open spec fn line_of(s: Seq<char>, i: int) -> nat {
    count_lf(s.take(i))
}

/// Number of lines: one more than the number of LFs.
pub open spec fn line_count(s: Seq<char>) -> nat {
    count_lf(s) + 1
}

pub proof fn lemma_line_start_bounds(s: Seq<char>, line: nat)
    ensures
        0 <= line_start(s, line) <= s.len(),
    decreases s.len(),
{
    if line == 0 || s.len() == 0 {
    } else if s[0] == '\n' {
        lemma_line_start_bounds(s.drop_first(), (line - 1) as nat);
    } else {
        lemma_line_start_bounds(s.drop_first(), line);
    }
}

pub proof fn lemma_line_start_monotonic(s: Seq<char>, a: nat, b: nat)
    requires
        a <= b,
    ensures
        line_start(s, a) <= line_start(s, b),
    decreases s.len(),
{
    lemma_line_start_bounds(s, b);
    if a == 0 || s.len() == 0 {
    } else if s[0] == '\n' {
        lemma_line_start_monotonic(s.drop_first(), (a - 1) as nat, (b - 1) as nat);
    } else {
        lemma_line_start_monotonic(s.drop_first(), a, b);
    }
}

pub proof fn lemma_count_lf_bound(s: Seq<char>)
    ensures
        count_lf(s) <= s.len(),
    decreases s.len(),
{
    if s.len() > 0 {
        lemma_count_lf_bound(s.drop_first());
    }
}

pub proof fn lemma_count_lf_prefix(s: Seq<char>, i: int)
    requires
        0 <= i <= s.len(),
    ensures
        count_lf(s.take(i)) <= count_lf(s),
    decreases s.len(),
{
    if i == 0 {
    } else {
        assert(s.take(i).drop_first() =~= s.drop_first().take(i - 1));
        lemma_count_lf_prefix(s.drop_first(), i - 1);
    }
}

/// The line holding offset `i` starts at or before `i`.
pub proof fn lemma_line_of_start(s: Seq<char>, i: int)
    requires
        0 <= i <= s.len(),
    ensures
        line_start(s, line_of(s, i)) <= i,
    decreases s.len(),
{
    if i == 0 {
    } else {
        assert(s.take(i).drop_first() =~= s.drop_first().take(i - 1));
        lemma_line_of_start(s.drop_first(), i - 1);
    }
}

/// Later offsets lie on the same or a later line.
pub proof fn lemma_line_of_monotonic(s: Seq<char>, a: int, b: int)
    requires
        0 <= a <= b <= s.len(),
    ensures
        line_of(s, a) <= line_of(s, b),
        line_of(s, b) <= count_lf(s),
{
    assert(s.take(b).take(a) =~= s.take(a));
    lemma_count_lf_prefix(s.take(b), a);
    lemma_count_lf_prefix(s, b);
}

/// The text of line `line`, its line break included.
pub open spec fn line_text(s: Seq<char>, line: nat) -> Seq<char> {
    s.subrange(line_start(s, line), line_start(s, line + 1))
}

/// Every line but the last ends with the LF that closes it.
pub proof fn lemma_line_ends_with_lf(s: Seq<char>, line: nat)
    requires
        line < count_lf(s),
    ensures
        line_start(s, line) < line_start(s, line + 1) <= s.len(),
        s[line_start(s, line + 1) - 1] == '\n',
    decreases s.len(),
{
    lemma_line_start_bounds(s, line + 1);
    assert(s.len() > 0);
    let t = s.drop_first();
    assert(count_lf(s) == (if s[0] == '\n' { 1nat } else { 0nat }) + count_lf(t));
    if s[0] == '\n' {
        assert(line_start(s, line + 1) == 1 + line_start(t, line));
        if line > 0 {
            lemma_line_ends_with_lf(t, (line - 1) as nat);
            lemma_line_start_bounds(t, (line - 1) as nat);
            assert((line - 1) as nat + 1 == line);
            assert(line_start(s, line) == 1 + line_start(t, (line - 1) as nat));
            let k = line_start(t, line) - 1;
            assert(0 <= k < t.len());
            assert(t[k] == s[k + 1]);
        } else {
            assert(line_start(t, 0) == 0);
        }
    } else {
        lemma_line_ends_with_lf(t, line);
        lemma_line_start_bounds(t, line);
        assert(line_start(s, line + 1) == 1 + line_start(t, line + 1));
        let k = line_start(t, line + 1) - 1;
        assert(0 <= k < t.len());
        assert(t[k] == s[k + 1]);
        if line > 0 {
            assert(line_start(s, line) == 1 + line_start(t, line));
        }
    }
}

/// An empty rope.
#[verifier::external_body]
pub(crate) fn rope_new() -> (r: Rope)
    ensures
        rope_chars(r) == Seq::<char>::empty(),
{
    Rope::new()
}

/// `Rope::from_str`: a rope holding the chars of `s`.
#[verifier::external_body]
pub(crate) fn rope_from_str(s: &str) -> (r: Rope)
    ensures
        rope_chars(r) == s@,
{
    Rope::from_str(s)
}

/// `Rope::len_chars`.
#[verifier::external_body]
pub(crate) fn rope_len_chars(r: &Rope) -> (n: usize)
    ensures
        n == rope_chars(*r).len(),
{
    r.len_chars()
}

/// `Rope::len_lines`: one more than the number of line breaks.
#[verifier::external_body]
pub(crate) fn rope_len_lines(r: &Rope) -> (n: usize)
    ensures
        n == line_count(rope_chars(*r)),
{
    r.len_lines()
}

/// `Rope::insert`: splices `text` in at char index `at`. The char count of a
/// rope is a `usize`, so the result fits in one.
#[verifier::external_body]
pub(crate) fn rope_insert(r: &mut Rope, at: usize, text: &str)
    requires
        at <= rope_chars(*old(r)).len(),
    ensures
        rope_chars(*final(r)) == rope_chars(*old(r)).take(at as int) + text@ + rope_chars(
            *old(r),
        ).skip(at as int),
        rope_chars(*final(r)).len() <= usize::MAX,
{
    r.insert(at, text)
}

/// `Rope::remove` of the char range `start..end`.
#[verifier::external_body]
pub(crate) fn rope_remove(r: &mut Rope, start: usize, end: usize)
    requires
        start <= end <= rope_chars(*old(r)).len(),
    ensures
        rope_chars(*final(r)) == rope_chars(*old(r)).take(start as int) + rope_chars(
            *old(r),
        ).skip(end as int),
{
    r.remove(start..end)
}

/// `Rope::slice(start..end).to_string()`.
#[verifier::external_body]
pub(crate) fn rope_slice_string(r: &Rope, start: usize, end: usize) -> (s: String)
    requires
        start <= end <= rope_chars(*r).len(),
    ensures
        s@ == rope_chars(*r).subrange(start as int, end as int),
{
    r.slice(start..end).to_string()
}

/// `Rope::line(line).to_string()`: the chars from the start of `line` to
/// the start of the next one (or the end).
#[verifier::external_body]
pub(crate) fn rope_line_string(r: &Rope, line: usize) -> (s: String)
    requires
        line < line_count(rope_chars(*r)),
    ensures
        s@ == line_text(rope_chars(*r), line as nat),
{
    r.line(line).to_string()
}

/// `Rope::to_string`.
#[verifier::external_body]
pub(crate) fn rope_to_string(r: &Rope) -> (s: String)
    ensures
        s@ == rope_chars(*r),
{
    r.to_string()
}

/// `Rope::get_char`.
#[verifier::external_body]
pub(crate) fn rope_get_char(r: &Rope, at: usize) -> (c: Option<char>)
    ensures
        c == (if at < rope_chars(*r).len() {
            Some(rope_chars(*r)[at as int])
        } else {
            None
        }),
{
    r.get_char(at)
}

/// `Rope::char_to_line`: the number of LFs before char `at`.
#[verifier::external_body]
pub(crate) fn rope_char_to_line(r: &Rope, at: usize) -> (line: usize)
    requires
        at <= rope_chars(*r).len(),
    ensures
        line == line_of(rope_chars(*r), at as int),
{
    r.char_to_line(at)
}

/// `Rope::line_to_char`: the char offset at which `line` starts.
#[verifier::external_body]
pub(crate) fn rope_line_to_char(r: &Rope, line: usize) -> (at: usize)
    requires
        line <= line_count(rope_chars(*r)),
    ensures
        at == line_start(rope_chars(*r), line as nat),
{
    r.line_to_char(line)
}

} // verus!
