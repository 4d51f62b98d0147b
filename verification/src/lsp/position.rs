//! LSP positions count UTF-16 code units; the editor counts chars.

use vstd::prelude::*;

use crate::chars::str_to_chars;
use crate::buffer::rope;

verus! {

/// A line and a UTF-16 column, both from 0.
#[derive(Debug, Clone, Copy, PartialEq, Eq, Structural)]
pub struct Position {
    pub line: u32,
    pub character: u32,
}

impl Position {
    pub fn new(line: u32, character: u32) -> (p: Self)
        ensures
            p.line == line,
            p.character == character,
    {
        Position { line, character }
    }
}

/// UTF-16 code units of a char (`char::len_utf16`).
pub open spec fn utf16_len(c: char) -> nat {
    if (c as u32) >= 0x10000 { 2 } else { 1 }
}

fn len_utf16(c: char) -> (n: usize)
    ensures
        n == utf16_len(c),
{
    if (c as u32) >= 0x10000 { 2 } else { 1 }
}

/// Chars of `line` that fit in `target` UTF-16 units; a column in the middle
/// of a surrogate pair stops before that char.
pub open spec fn spec_utf16_column_to_char(line: Seq<char>, target: nat) -> nat
    decreases line.len(),
{
    if line.len() == 0 {
        0
    } else {
        let w = utf16_len(line[0]);
        if w > target {
            0
        } else if w == target {
            1
        } else {
            1 + spec_utf16_column_to_char(line.drop_first(), (target - w) as nat)
        }
    }
}

/// Converts a UTF-16 column within one line to a char offset in that line.
pub fn utf16_column_to_char(line: &str, target_utf16: usize) -> (offset: usize)
    ensures
        offset == spec_utf16_column_to_char(line@, target_utf16 as nat),
{
    let chars = str_to_chars(line);
    let r = utf16_column_in(&chars, 0, chars.len(), target_utf16);
    assert(chars@.subrange(0, chars@.len() as int) =~= line@);
    r
}

fn utf16_column_in(chars: &Vec<char>, start: usize, end: usize, target: usize) -> (offset: usize)
    requires
        start <= end <= chars@.len(),
    ensures
        offset == spec_utf16_column_to_char(chars@.subrange(start as int, end as int), target as nat),
        offset <= end - start,
{
    let mut utf16: usize = 0;
    let mut offset: usize = 0;
    let mut i = start;
    assert(chars@.subrange(start as int, end as int) =~= chars@.subrange(start as int, end as int).skip(0));
    while i < end
        invariant
            start <= i <= end <= chars@.len(),
            offset == i - start,
            utf16 <= target,
            spec_utf16_column_to_char(chars@.subrange(start as int, end as int), target as nat)
                == offset + spec_utf16_column_to_char(chars@.subrange(i as int, end as int), (target - utf16) as nat),
        decreases end - i,
    {
        let ghost rest = chars@.subrange(i as int, end as int);
        assert(rest[0] == chars@[i as int]);
        assert(rest.drop_first() =~= chars@.subrange(i + 1, end as int));
        let width = len_utf16(chars[i]);
        if width > target - utf16 {
            return offset;
        }
        utf16 = utf16 + width;
        offset = offset + 1;
        i = i + 1;
        if utf16 == target {
            return offset;
        }
    }
    offset
}

pub open spec fn sat_add_u32(a: u32, b: nat) -> u32 {
    if a + b > u32::MAX { u32::MAX } else { (a + b) as u32 }
}

/// The position of the end of `prefix`: LFs count lines, and the column is
/// the UTF-16 length since the last LF (both saturating).
pub open spec fn spec_end_position(prefix: Seq<char>) -> Position
    decreases prefix.len(),
{
    if prefix.len() == 0 {
        Position { line: 0, character: 0 }
    } else {
        let p = spec_end_position(prefix.drop_last());
        if prefix.last() == '\n' {
            Position { line: sat_add_u32(p.line, 1), character: 0 }
        } else {
            Position { line: p.line, character: sat_add_u32(p.character, utf16_len(prefix.last())) }
        }
    }
}

/// The LSP position of a char offset (clamped to the text).
pub open spec fn spec_char_offset_to_position(text: Seq<char>, char_offset: nat) -> Position {
    spec_end_position(text.take(if char_offset < text.len() { char_offset as int } else { text.len() as int }))
}

pub fn char_offset_to_position(text: &str, char_offset: usize) -> (p: Position)
    ensures
        p == spec_char_offset_to_position(text@, char_offset as nat),
{
    let chars = str_to_chars(text);
    let target = if char_offset < chars.len() { char_offset } else { chars.len() };
    let mut line: u32 = 0;
    let mut utf16: u32 = 0;
    let mut i: usize = 0;
    while i < target
        invariant
            i <= target <= chars@.len(),
            (Position { line, character: utf16 }) == spec_end_position(chars@.take(i as int)),
        decreases target - i,
    {
        assert(chars@.take(i + 1).drop_last() =~= chars@.take(i as int));
        let c = chars[i];
        if c == '\n' {
            line = line.saturating_add(1);
            utf16 = 0;
        } else {
            utf16 = utf16.saturating_add(len_utf16(c) as u32);
        }
        i = i + 1;
    }
    Position::new(line, utf16)
}

/// Length of the line that `s` starts with, without its LF.
pub open spec fn line_len_no_lf(s: Seq<char>) -> nat
    decreases s.len(),
{
    if s.len() == 0 || s[0] == '\n' { 0 } else { 1 + line_len_no_lf(s.drop_first()) }
}

/// The char offset of an LSP position: past the last line, the end of the
/// text; otherwise the start of the line plus the converted column.
pub open spec fn spec_position_to_char_offset(text: Seq<char>, position: Position) -> nat {
    if rope::count_lf(text) < position.line {
        text.len()
    } else {
        let ls = rope::line_start(text, position.line as nat);
        let rest = text.skip(ls);
        (ls + spec_utf16_column_to_char(rest.take(line_len_no_lf(rest) as int), position.character as nat)) as nat
    }
}

/// Finds where line `target` starts: after `target` LFs, or `None` when the
/// text has fewer lines.
fn find_line_start(chars: &Vec<char>, target: usize) -> (r: Option<usize>)
    ensures
        match r {
            Some(ls) => rope::count_lf(chars@) >= target && ls == rope::line_start(chars@, target as nat),
            None => rope::count_lf(chars@) < target,
        },
{
    let n = chars.len();
    let mut i: usize = 0;
    let mut remaining = target;
    assert(chars@.skip(0) =~= chars@);
    while i < n && remaining > 0
        invariant
            i <= n == chars@.len(),
            remaining <= target,
            rope::count_lf(chars@) == (target - remaining) + rope::count_lf(chars@.skip(i as int)),
            rope::line_start(chars@, target as nat) == i + rope::line_start(chars@.skip(i as int), remaining as nat),
        decreases n - i,
    {
        assert(chars@.skip(i as int).drop_first() =~= chars@.skip(i + 1));
        if chars[i] == '\n' {
            remaining = remaining - 1;
        }
        i = i + 1;
    }
    if remaining > 0 {
        assert(chars@.skip(i as int).len() == 0);
        None
    } else {
        proof { rope::lemma_count_lf_bound(chars@.skip(i as int)); }
        Some(i)
    }
}

pub fn position_to_char_offset(text: &str, position: Position) -> (offset: usize)
    ensures
        offset == spec_position_to_char_offset(text@, position),
{
    let chars = str_to_chars(text);
    let n = chars.len();
    match find_line_start(&chars, position.line as usize) {
        None => n,
        Some(ls) => {
            proof { rope::lemma_line_start_bounds(chars@, position.line as nat); }
            let mut end = ls;
            assert(chars@.skip(ls as int) =~= chars@.skip(ls as int).skip(0));
            while end < n && chars[end] != '\n'
                invariant
                    ls <= end <= n == chars@.len(),
                    line_len_no_lf(chars@.skip(ls as int)) == (end - ls) + line_len_no_lf(chars@.skip(end as int)),
                decreases n - end,
            {
                assert(chars@.skip(end as int).drop_first() =~= chars@.skip(end + 1));
                end = end + 1;
            }
            assert(line_len_no_lf(chars@.skip(end as int)) == 0);
            assert(chars@.skip(ls as int).take((end - ls) as int) =~= chars@.subrange(ls as int, end as int));
            let col = utf16_column_in(&chars, ls, end, position.character as usize);
            ls + col
        },
    }
}


/// UTF-16 code units of `s`.
pub open spec fn utf16_total(s: Seq<char>) -> nat
    decreases s.len(),
{
    if s.len() == 0 {
        0
    } else {
        utf16_len(s[0]) + utf16_total(s.drop_first())
    }
}

proof fn lemma_utf16_total_push(s: Seq<char>, c: char)
    ensures
        utf16_total(s.push(c)) == utf16_total(s) + utf16_len(c),
    decreases s.len(),
{
    if s.len() > 0 {
        assert(s.push(c)[0] == s[0]);
        assert(s.push(c).drop_first() =~= s.drop_first().push(c));
        lemma_utf16_total_push(s.drop_first(), c);
    } else {
        assert(s.push(c)[0] == c);
        assert(s.push(c).drop_first() =~= Seq::<char>::empty());
        assert(utf16_total(s.push(c).drop_first()) == 0);
    }
}

proof fn lemma_utf16_total_at_least_len(s: Seq<char>)
    ensures
        utf16_total(s) >= s.len(),
    decreases s.len(),
{
    if s.len() > 0 {
        lemma_utf16_total_at_least_len(s.drop_first());
    }
}

proof fn lemma_count_lf_push(s: Seq<char>, c: char)
    ensures
        rope::count_lf(s.push(c)) == rope::count_lf(s) + if c == '\n' { 1nat } else { 0nat },
    decreases s.len(),
{
    if s.len() > 0 {
        assert(s.push(c)[0] == s[0]);
        assert(s.push(c).drop_first() =~= s.drop_first().push(c));
        lemma_count_lf_push(s.drop_first(), c);
    } else {
        assert(s.push(c)[0] == c);
        assert(s.push(c).drop_first() =~= Seq::<char>::empty());
        assert(rope::count_lf(s.push(c).drop_first()) == 0);
    }
}

/// The line after line `k` starts just past the first LF at or after the
/// start of line `k`.
proof fn lemma_next_line_start(t: Seq<char>, k: nat, j: int)
    requires
        rope::line_start(t, k) <= j < t.len(),
        t[j] == '\n',
        forall|m: int| rope::line_start(t, k) <= m < j ==> t[m] != '\n',
    ensures
        rope::line_start(t, k + 1) == j + 1,
    decreases t.len(),
{
    let d = t.drop_first();
    if k == 0 {
        if j > 0 {
            assert(t[0] != '\n');
            assert(d[j - 1] == t[j]);
            assert forall|m: int| rope::line_start(d, 0) <= m < j - 1 implies d[m] != '\n' by {
                assert(d[m] == t[m + 1]);
            }
            lemma_next_line_start(d, 0, j - 1);
        }
    } else {
        rope::lemma_line_start_bounds(t, k);
        let k2: nat = if t[0] == '\n' { (k - 1) as nat } else { k };
        assert(rope::line_start(t, k) == 1 + rope::line_start(d, k2));
        rope::lemma_line_start_bounds(d, k2);
        assert(d[j - 1] == t[j]);
        assert forall|m: int| rope::line_start(d, k2) <= m < j - 1 implies d[m] != '\n' by {
            assert(d[m] == t[m + 1]);
        }
        lemma_next_line_start(d, k2, j - 1);
    }
}

/// Where the end of the first `o` chars lies: on line `count_lf`, whose
/// start is before `o` with no LF between, at the UTF-16 length since then
/// (each as long as it fits in `u32`).
proof fn lemma_end_position(t: Seq<char>, o: int)
    requires
        0 <= o <= t.len(),
    ensures
        ({
            let k = rope::count_lf(t.take(o));
            let ls = rope::line_start(t, k);
            let pos = spec_end_position(t.take(o));
            &&& k <= u32::MAX ==> pos.line == k
            &&& 0 <= ls <= o
            &&& forall|m: int| ls <= m < o ==> t[m] != '\n'
            &&& utf16_total(t.subrange(ls, o)) <= u32::MAX ==> pos.character == utf16_total(t.subrange(ls, o))
        }),
    decreases o,
{
    if o == 0 {
        assert(t.take(0) =~= Seq::<char>::empty());
        assert(t.subrange(0, 0) =~= Seq::<char>::empty());
    } else {
        let p = t.take(o - 1);
        let c = t[o - 1];
        lemma_end_position(t, o - 1);
        assert(t.take(o) =~= p.push(c));
        assert(t.take(o).drop_last() =~= p);
        lemma_count_lf_push(p, c);
        let k = rope::count_lf(p);
        let ls = rope::line_start(t, k);
        if c == '\n' {
            lemma_next_line_start(t, k, o - 1);
            assert(t.subrange(o, o) =~= Seq::<char>::empty());
        } else {
            assert(t.subrange(ls, o) =~= t.subrange(ls, o - 1).push(c));
            lemma_utf16_total_push(t.subrange(ls, o - 1), c);
        }
    }
}

proof fn lemma_line_len_at_most(s: Seq<char>)
    ensures
        line_len_no_lf(s) <= s.len(),
    decreases s.len(),
{
    if s.len() > 0 && s[0] != '\n' {
        lemma_line_len_at_most(s.drop_first());
    }
}

proof fn lemma_line_len_at_least(s: Seq<char>, m: int)
    requires
        0 <= m <= s.len(),
        forall|i: int| 0 <= i < m ==> s[i] != '\n',
    ensures
        line_len_no_lf(s) >= m,
    decreases m,
{
    if m > 0 {
        assert forall|i: int| 0 <= i < m - 1 implies s.drop_first()[i] != '\n' by {
            assert(s.drop_first()[i] == s[i + 1]);
        }
        lemma_line_len_at_least(s.drop_first(), m - 1);
    }
}

proof fn lemma_column_of_prefix(line: Seq<char>, m: int)
    requires
        0 <= m <= line.len(),
    ensures
        spec_utf16_column_to_char(line, utf16_total(line.take(m))) == m,
    decreases m,
{
    if m == 0 {
        assert(line.take(0) =~= Seq::<char>::empty());
    } else {
        let d = line.drop_first();
        assert(line.take(m).drop_first() =~= d.take(m - 1));
        assert(line.take(m)[0] == line[0]);
        lemma_utf16_total_at_least_len(d.take(m - 1));
        lemma_column_of_prefix(d, m - 1);
        if m == 1 {
            assert(d.take(0) =~= Seq::<char>::empty());
        }
    }
}

/// Converting a char offset to an LSP position and back gives the offset,
/// as long as the position's line and column fit in `u32`.
pub proof fn lemma_position_round_trip(text: Seq<char>, o: int)
    requires
        0 <= o <= text.len(),
        rope::count_lf(text.take(o)) <= u32::MAX,
        utf16_total(text.subrange(rope::line_start(text, rope::count_lf(text.take(o))), o)) <= u32::MAX,
    ensures
        spec_position_to_char_offset(text, spec_char_offset_to_position(text, o as nat)) == o,
{
    lemma_end_position(text, o);
    rope::lemma_count_lf_prefix(text, o);
    let k = rope::count_lf(text.take(o));
    let ls = rope::line_start(text, k);
    let pos = spec_char_offset_to_position(text, o as nat);
    assert(pos == spec_end_position(text.take(o)));
    let rest = text.skip(ls);
    let m = o - ls;
    assert forall|i: int| 0 <= i < m implies rest[i] != '\n' by {
        assert(rest[i] == text[ls + i]);
    }
    lemma_line_len_at_least(rest, m);
    lemma_line_len_at_most(rest);
    let line = rest.take(line_len_no_lf(rest) as int);
    assert forall|i: int| 0 <= i < m implies line.take(m)[i] == text.subrange(ls, o)[i] by {
        assert(line[i] == rest[i]);
        assert(rest[i] == text[ls + i]);
    }
    assert(line.take(m) =~= text.subrange(ls, o));
    lemma_column_of_prefix(line, m);
}

} // verus!
