//! Cursor movement over buffer text: left and right by grapheme cluster,
//! up and down by line at a display column.

use ropey::Rope;
use vstd::prelude::*;

use crate::buffer::rope::{
    rope_char_to_line, rope_len_chars, rope_len_lines, rope_line_string, rope_line_to_char,
    rope_slice_string,
};
use crate::chars::{chars_to_string, str_to_chars, sub_vec};
use crate::editor::wrap::{columns_of, trim_end_len};
use crate::unicode::graphemes;

verus! {

/// How far the grapheme search looks back or ahead of the cursor: far more
/// than any real grapheme cluster, so the clusters found in the window are
/// those of the whole text while a key press stays cheap.
pub const GRAPHEME_SCAN_WINDOW: usize = 256;

/// Where the backward search window starts.
pub open spec fn window_start(off: int) -> int {
    if off > GRAPHEME_SCAN_WINDOW { off - GRAPHEME_SCAN_WINDOW } else { 0 }
}

/// Where the forward search window ends.
pub open spec fn window_end(off: int, len: int) -> int {
    if off + GRAPHEME_SCAN_WINDOW < len { off + GRAPHEME_SCAN_WINDOW } else { len }
}

/// The start of the grapheme cluster that ends at `off`, found among the
/// clusters of the window before it.
pub open spec fn spec_move_left(s: Seq<char>, off: int) -> int {
    if off == 0 {
        0
    } else {
        let ws = window_start(off);
        let gs = crate::unicode::grapheme_clusters(s.subrange(ws, off));
        if gs.len() == 0 { ws } else { off - gs.last().len() }
    }
}

/// The end of the grapheme cluster that starts at `off`, found among the
/// clusters of the window after it; the end of the text stays put.
pub open spec fn spec_move_right(s: Seq<char>, off: int) -> int {
    if off >= s.len() {
        s.len() as int
    } else {
        let gs = crate::unicode::grapheme_clusters(s.subrange(off, window_end(off, s.len() as int)));
        if gs.len() == 0 { off } else { off + gs[0].len() }
    }
}

/// `x`, or `usize::MAX` where it is larger.
pub open spec fn saturated(x: int) -> int {
    if x > usize::MAX { usize::MAX as int } else { x }
}

/// Columns taken by the clusters from `i` on while their chars fit in
/// `remaining`, starting at `column`.
pub open spec fn columns_taken(
    gs: Seq<Seq<char>>,
    i: int,
    remaining: int,
    column: int,
    tab_width: int,
    wide: bool,
) -> int
    decreases gs.len() - i,
{
    if i < 0 || i >= gs.len() || gs[i].len() > remaining {
        column
    } else {
        columns_taken(
            gs,
            i + 1,
            remaining - gs[i].len(),
            saturated(column + crate::editor::wrap::grapheme_columns(gs[i], column, tab_width, wide)),
            tab_width,
            wide,
        )
    }
}

/// The display column of char `char_in_line` of a line: the width of the
/// whole clusters before it, a tab reaching the next tab stop.
pub open spec fn spec_display_column(line: Seq<char>, char_in_line: int, tab_width: int, wide: bool) -> int {
    columns_taken(crate::unicode::grapheme_clusters(line), 0, char_in_line, 0, tab_width, wide)
}

/// Chars of the clusters from `i` on that end at or before column `target`.
pub open spec fn offset_at(
    gs: Seq<Seq<char>>,
    i: int,
    display: int,
    chars: int,
    target: int,
    tab_width: int,
    wide: bool,
) -> int
    decreases gs.len() - i,
{
    if i < 0 || i >= gs.len() {
        chars
    } else {
        let w = crate::editor::wrap::grapheme_columns(gs[i], display, tab_width, wide);
        if display + w > target {
            chars
        } else {
            offset_at(gs, i + 1, display + w, chars + gs[i].len(), target, tab_width, wide)
        }
    }
}

/// The char offset in a line (its break left out) of the last cluster
/// boundary at or before display column `target`.
pub open spec fn spec_char_offset_for_display_column(line: Seq<char>, target: int, tab_width: int, wide: bool) -> int {
    offset_at(
        crate::unicode::grapheme_clusters(crate::editor::wrap::trim_line_end(line)),
        0,
        0,
        0,
        target,
        tab_width,
        wide,
    )
}

/// Moving one line up or down: the new offset and the display column that
/// later vertical moves aim for.
pub open spec fn spec_move_vertical(
    s: Seq<char>,
    off: int,
    preferred: Option<usize>,
    tab_width: int,
    down: bool,
) -> (int, int) {
    let clamped = if off < s.len() { off } else { s.len() as int };
    let line: int = crate::buffer::rope::line_of(s, clamped) as int;
    let column = match preferred {
        Some(c) => c as int,
        None => spec_display_column(
            crate::buffer::rope::line_text(s, line as nat),
            off - crate::buffer::rope::line_start(s, line as nat),
            tab_width,
            false,
        ),
    };
    let last = crate::buffer::rope::count_lf(s) as int;
    let target: int = if down {
        if line + 1 > last { last } else { line + 1 }
    } else {
        if line == 0 { 0 } else { line - 1 }
    };
    (
        crate::buffer::rope::line_start(s, target as nat) + spec_char_offset_for_display_column(
            crate::buffer::rope::line_text(s, target as nat),
            column,
            tab_width,
            false,
        ),
        column,
    )
}

proof fn lemma_concat_last(parts: Seq<Seq<char>>)
    requires
        parts.len() > 0,
    ensures
        crate::unicode::concat(parts).len() == crate::unicode::concat(parts.drop_last()).len()
            + parts.last().len(),
{
}

proof fn lemma_concat_first(parts: Seq<Seq<char>>)
    requires
        parts.len() > 0,
    ensures
        parts[0].len() <= crate::unicode::concat(parts).len(),
{
    crate::unicode::lemma_concat_len(parts, 1);
    let t = parts.take(1);
    assert(t.drop_last() =~= Seq::<Seq<char>>::empty());
    assert(crate::unicode::concat(t.drop_last()) =~= Seq::<char>::empty());
    assert(t.last() == parts[0]);
    assert(crate::unicode::concat(t) =~= Seq::<char>::empty() + parts[0]);
    assert(crate::unicode::concat(t) =~= parts[0]);
}

/// The start of the grapheme cluster before `char_offset`.
pub fn move_left(text: &Rope, char_offset: usize) -> (r: usize)
    requires
        char_offset <= crate::buffer::rope::rope_chars(*text).len(),
    ensures
        r == spec_move_left(crate::buffer::rope::rope_chars(*text), char_offset as int),
        char_offset > 0 ==> r < char_offset,
{
    if char_offset == 0 {
        return 0;
    }
    let window_start = char_offset.saturating_sub(GRAPHEME_SCAN_WINDOW);
    let prefix = rope_slice_string(text, window_start, char_offset);
    let gs = graphemes(prefix.as_str());
    if gs.len() == 0 {
        assert(crate::unicode::views(gs@) =~= Seq::<Seq<char>>::empty());
        assert(prefix@.len() == 0);
        window_start
    } else {
        let ghost cs = crate::unicode::views(gs@);
        let last = str_to_chars(gs[gs.len() - 1].as_str()).len();
        proof {
            lemma_concat_last(cs);
            assert(cs.last() == gs@[gs.len() - 1]@);
            assert(gs@[gs.len() - 1]@.len() > 0);
        }
        char_offset - last
    }
}

/// The end of the grapheme cluster after `char_offset`; the end of the text
/// at or past it.
pub fn move_right(text: &Rope, char_offset: usize) -> (r: usize)
    ensures
        r == spec_move_right(crate::buffer::rope::rope_chars(*text), char_offset as int),
        char_offset < crate::buffer::rope::rope_chars(*text).len() ==> char_offset < r
            <= crate::buffer::rope::rope_chars(*text).len(),
{
    let len_chars = rope_len_chars(text);
    if char_offset >= len_chars {
        return len_chars;
    }
    let ahead = char_offset.saturating_add(GRAPHEME_SCAN_WINDOW);
    let window_end = if ahead < len_chars { ahead } else { len_chars };
    let suffix = rope_slice_string(text, char_offset, window_end);
    let gs = graphemes(suffix.as_str());
    if gs.len() == 0 {
        assert(crate::unicode::views(gs@) =~= Seq::<Seq<char>>::empty());
        assert(suffix@.len() == 0);
        char_offset
    } else {
        let ghost cs = crate::unicode::views(gs@);
        let first = str_to_chars(gs[0].as_str()).len();
        proof {
            lemma_concat_first(cs);
            assert(cs[0] == gs@[0]@);
            assert(gs@[0]@.len() > 0);
        }
        char_offset + first
    }
}

/// Moves one line up, to the display column `preferred` or the current one.
pub fn move_up(text: &Rope, char_offset: usize, preferred: Option<usize>, tab_width: usize) -> (r: (usize, usize))
    requires
        tab_width > 0,
    ensures
        (r.0 as int, r.1 as int) == spec_move_vertical(
            crate::buffer::rope::rope_chars(*text),
            char_offset as int,
            preferred,
            tab_width as int,
            false,
        ),
{
    move_vertical(text, char_offset, preferred, tab_width, false)
}

/// Moves one line down, to the display column `preferred` or the current
/// one.
pub fn move_down(text: &Rope, char_offset: usize, preferred: Option<usize>, tab_width: usize) -> (r: (usize, usize))
    requires
        tab_width > 0,
    ensures
        (r.0 as int, r.1 as int) == spec_move_vertical(
            crate::buffer::rope::rope_chars(*text),
            char_offset as int,
            preferred,
            tab_width as int,
            true,
        ),
{
    move_vertical(text, char_offset, preferred, tab_width, true)
}

/// The display column of char `char_in_line` of a line, ambiguous-width
/// characters counted as narrow or, when asked, as wide.
pub fn display_column_with(line: &str, char_in_line: usize, tab_width: usize, ambiguous_width_wide: bool) -> (r: usize)
    requires
        tab_width > 0,
    ensures
        r as int == spec_display_column(line@, char_in_line as int, tab_width as int, ambiguous_width_wide),
{
    let gs = graphemes(line);
    let ghost cs = crate::unicode::views(gs@);
    let mut i: usize = 0;
    let mut remaining = char_in_line;
    let mut column: usize = 0;
    while i < gs.len()
        invariant
            i <= gs@.len() == cs.len(),
            tab_width > 0,
            cs == crate::unicode::grapheme_clusters(line@),
            cs == crate::unicode::views(gs@),
            spec_display_column(line@, char_in_line as int, tab_width as int, ambiguous_width_wide)
                == columns_taken(cs, i as int, remaining as int, column as int, tab_width as int, ambiguous_width_wide),
        decreases gs.len() - i,
    {
        assert(cs[i as int] == gs@[i as int]@);
        let count = str_to_chars(gs[i].as_str()).len();
        if count > remaining {
            return column;
        }
        let w = columns_of(&gs[i], column, tab_width, ambiguous_width_wide);
        remaining = remaining - count;
        column = column.saturating_add(w);
        i = i + 1;
    }
    column
}

/// The display column of char `char_in_line` of a line: the width of the
/// whole grapheme clusters before it, a tab reaching the next multiple of
/// `tab_width`.
pub fn display_column(line: &str, char_in_line: usize, tab_width: usize) -> (r: usize)
    requires
        tab_width > 0,
    ensures
        r as int == spec_display_column(line@, char_in_line as int, tab_width as int, false),
{
    display_column_with(line, char_in_line, tab_width, false)
}

/// The char offset in a line (its break left out) of the last grapheme
/// boundary at or before display column `target`.
pub(crate) fn char_offset_for_display_column(line: &str, target: usize, tab_width: usize, ambiguous_width_wide: bool) -> (r: usize)
    requires
        tab_width > 0,
    ensures
        r as int == spec_char_offset_for_display_column(line@, target as int, tab_width as int, ambiguous_width_wide),
        r <= crate::editor::wrap::trim_line_end(line@).len(),
        r <= line@.len(),
{
    let all = str_to_chars(line);
    let n = trim_end_len(&all);
    let content_chars = sub_vec(&all, 0, n);
    assert(all@.subrange(0, n as int) =~= all@.take(n as int));
    let content = chars_to_string(content_chars.as_slice());
    let gs = graphemes(content.as_str());
    let ghost cs = crate::unicode::views(gs@);
    let mut display: usize = 0;
    let mut chars: usize = 0;
    let mut i: usize = 0;
    proof {
        crate::unicode::lemma_concat_len(cs, 0);
        assert(cs.take(0) =~= Seq::<Seq<char>>::empty());
    }
    while i < gs.len()
        invariant
            i <= gs@.len() == cs.len(),
            tab_width > 0,
            cs == crate::unicode::views(gs@),
            crate::unicode::concat(cs) == content@,
            content@ == crate::editor::wrap::trim_line_end(line@),
            content@.len() == n,
            n <= line@.len(),
            display <= target,
            chars as int == crate::unicode::concat(cs.take(i as int)).len(),
            spec_char_offset_for_display_column(line@, target as int, tab_width as int, ambiguous_width_wide)
                == offset_at(cs, i as int, display as int, chars as int, target as int, tab_width as int, ambiguous_width_wide),
        decreases gs.len() - i,
    {
        assert(cs[i as int] == gs@[i as int]@);
        proof {
            crate::unicode::lemma_concat_len(cs, i + 1);
            assert(cs.take(i + 1).drop_last() =~= cs.take(i as int));
        }
        let w = columns_of(&gs[i], display, tab_width, ambiguous_width_wide);
        if w > target - display {
            return chars;
        }
        let count = str_to_chars(gs[i].as_str()).len();
        display = display + w;
        chars = chars + count;
        i = i + 1;
    }
    proof {
        assert(cs.take(i as int) =~= cs);
    }
    chars
}

fn move_vertical(text: &Rope, char_offset: usize, preferred: Option<usize>, tab_width: usize, down: bool) -> (r: (usize, usize))
    requires
        tab_width > 0,
    ensures
        (r.0 as int, r.1 as int) == spec_move_vertical(
            crate::buffer::rope::rope_chars(*text),
            char_offset as int,
            preferred,
            tab_width as int,
            down,
        ),
{
    let ghost s = crate::buffer::rope::rope_chars(*text);
    let len = rope_len_chars(text);
    let clamped = if char_offset < len { char_offset } else { len };
    let line_idx = rope_char_to_line(text, clamped);
    proof {
        crate::buffer::rope::lemma_line_of_monotonic(s, clamped as int, len as int);
        crate::buffer::rope::lemma_line_of_start(s, clamped as int);
    }
    let line_start = rope_line_to_char(text, line_idx);
    let current = rope_line_string(text, line_idx);
    let target_column = match preferred {
        Some(c) => c,
        None => display_column(current.as_str(), char_offset - line_start, tab_width),
    };
    let n_lines = rope_len_lines(text);
    let target_line = if down {
        let next = line_idx.saturating_add(1);
        if next < n_lines - 1 { next } else { n_lines - 1 }
    } else {
        line_idx.saturating_sub(1)
    };
    let target = rope_line_string(text, target_line);
    let in_target = char_offset_for_display_column(target.as_str(), target_column, tab_width, false);
    let start = rope_line_to_char(text, target_line);
    proof {
        crate::buffer::rope::lemma_line_start_monotonic(s, target_line as nat, (target_line + 1) as nat);
        crate::buffer::rope::lemma_line_start_bounds(s, (target_line + 1) as nat);
        crate::buffer::rope::lemma_line_start_bounds(s, target_line as nat);
    }
    (start + in_target, target_column)
}

} // verus!
