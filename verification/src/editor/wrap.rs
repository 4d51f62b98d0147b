//! Soft wrapping of a line into visual rows without splitting grapheme
//! clusters.

use vstd::prelude::*;

use std::ops::Range;

use ropey::Rope;

use crate::buffer::rope::{rope_char_to_line, rope_len_chars, rope_len_lines, rope_line_string, rope_line_to_char};
use crate::chars::{chars_to_string, str_to_chars};
use crate::editor::movement::{char_offset_for_display_column, display_column_with};
use crate::unicode::{grapheme_width, graphemes};

verus! {

/// `Clone` for `Range` (derived in std: it clones both bounds). Nothing is
/// stated of the copy; it lets types holding ranges derive `Clone`.
pub assume_specification<Idx: Clone>[ <std::ops::Range<Idx> as Clone>::clone ](
    r: &std::ops::Range<Idx>,
) -> std::ops::Range<Idx>;

/// A visual row: part of a buffer line.
#[derive(Debug, Clone, PartialEq, Eq)]
pub struct VisualRow {
    pub line_index: usize,
    pub line_start_char: usize,
    pub range_in_line: Range<usize>,
}

/// `s` without its trailing `\r` and `\n` characters.
pub open spec fn trim_line_end(s: Seq<char>) -> Seq<char>
    decreases s.len(),
{
    if s.len() > 0 && (s.last() == '\r' || s.last() == '\n') {
        trim_line_end(s.drop_last())
    } else {
        s
    }
}

/// Columns a grapheme takes at `column`: a tab reaches the next tab stop.
pub open spec fn grapheme_columns(g: Seq<char>, column: int, tab_width: int, wide: bool) -> int {
    if g == seq!['\t'] {
        tab_width - column % tab_width
    } else {
        crate::unicode::spec_grapheme_width(g, wide) as int
    }
}

/// Rows from grapheme `i` on: the current row started at char `start`,
/// `chars` chars and `column` columns are used, `rows` are finished.
pub open spec fn wrap_from(
    gs: Seq<Seq<char>>,
    i: int,
    start: int,
    chars: int,
    column: int,
    rows: Seq<(int, int)>,
    width: int,
    tab_width: int,
    wide: bool,
) -> Seq<(int, int)>
    decreases gs.len() - i,
{
    if i < 0 || i >= gs.len() {
        rows.push((start, chars))
    } else {
        let g = gs[i];
        let cols = grapheme_columns(g, column, tab_width, wide);
        if column > 0 && column + cols > width {
            wrap_from(
                gs,
                i + 1,
                chars,
                chars + g.len(),
                grapheme_columns(g, 0, tab_width, wide),
                rows.push((start, chars)),
                width,
                tab_width,
                wide,
            )
        } else {
            wrap_from(gs, i + 1, start, chars + g.len(), column + cols, rows, width, tab_width, wide)
        }
    }
}

/// The char ranges of a line's visual rows at a width (at least 1): a row
/// ends before the grapheme that would overflow it, unless the row is
/// empty; an empty line has one empty row.
pub open spec fn spec_wrapped_line_ranges(line: Seq<char>, width: usize, tab_width: usize, wide: bool) -> Seq<(int, int)> {
    let content = trim_line_end(line);
    let w = if width < 1 { 1int } else { width as int };
    if content.len() == 0 {
        seq![(0int, 0int)]
    } else {
        wrap_from(crate::unicode::grapheme_clusters(content), 0, 0, 0, 0, Seq::empty(), w, tab_width as int, wide)
    }
}

pub open spec fn ranges_of(v: Seq<Range<usize>>) -> Seq<(int, int)> {
    v.map_values(|r: Range<usize>| (r.start as int, r.end as int))
}

pub(crate) fn trim_end_len(s: &Vec<char>) -> (n: usize)
    ensures
        n <= s@.len(),
        s@.take(n as int) == trim_line_end(s@),
{
    let mut n = s.len();
    assert(s@.take(n as int) =~= s@);
    while n > 0 && (s[n - 1] == '\r' || s[n - 1] == '\n')
        invariant
            n <= s@.len(),
            trim_line_end(s@) == trim_line_end(s@.take(n as int)),
        decreases n,
    {
        assert(s@.take(n as int).drop_last() =~= s@.take(n - 1));
        assert(s@.take(n as int).last() == s@[n - 1]);
        n = n - 1;
    }
    proof {
        if n > 0 {
            assert(s@.take(n as int).last() == s@[n - 1]);
        }
    }
    n
}

pub(crate) fn columns_of(g: &String, column: usize, tab_width: usize, wide: bool) -> (c: usize)
    requires
        tab_width > 0,
    ensures
        c as int == grapheme_columns(g@, column as int, tab_width as int, wide),
{
    let gc = str_to_chars(g.as_str());
    if gc.len() == 1 && gc[0] == '\t' {
        assert(g@ =~= seq!['\t']);
        tab_width - column % tab_width
    } else {
        assert(g@ != seq!['\t']) by {
            if gc@.len() == 1 {
                assert(g@[0] == gc@[0]);
            }
        }
        grapheme_width(g.as_str(), wide)
    }
}

/// Splits a line (its line break left out) into visual rows of at most
/// `width` columns (at least 1), tabs reaching the next multiple of
/// `tab_width`, without splitting a grapheme cluster.
pub fn wrapped_line_ranges(line: &str, width: usize, tab_width: usize, ambiguous_width_wide: bool) -> (r: Vec<Range<usize>>)
    requires
        tab_width > 0,
    ensures
        ranges_of(r@) == spec_wrapped_line_ranges(line@, width, tab_width, ambiguous_width_wide),
        1 <= r@.len() <= trim_line_end(line@).len() + 1,
        forall|k: int| 0 <= k < r@.len() ==> #[trigger] r@[k].start <= r@[k].end <= trim_line_end(line@).len(),
        trim_line_end(line@).len() > 0 ==> forall|k: int| 0 <= k < r@.len() ==> #[trigger] r@[k].start < r@[k].end,
{
    let all = str_to_chars(line);
    let n = trim_end_len(&all);
    let content_chars = crate::chars::sub_vec(&all, 0, n);
    assert(content_chars@ == all@.subrange(0, n as int));
    assert(all@.subrange(0, n as int) =~= all@.take(n as int));
    let w = if width < 1 { 1 } else { width };
    if n == 0 {
        let mut v: Vec<Range<usize>> = Vec::new();
        v.push(0..0);
        assert(ranges_of(v@) =~= seq![(0int, 0int)]);
        return v;
    }
    let content = chars_to_string(content_chars.as_slice());
    let gs = graphemes(content.as_str());
    let ghost cs = crate::unicode::grapheme_clusters(content@);
    let mut ranges: Vec<Range<usize>> = Vec::new();
    let mut start: usize = 0;
    let mut chars: usize = 0;
    let mut column: usize = 0;
    let mut i: usize = 0;
    assert(content@ == trim_line_end(line@));
    assert(ranges_of(ranges@) =~= Seq::<(int, int)>::empty());
    proof {
        crate::unicode::lemma_concat_len(cs, 0);
        assert(cs.take(0) =~= Seq::<Seq<char>>::empty());
    }
    while i < gs.len()
        invariant
            i <= gs@.len() == cs.len(),
            tab_width > 0,
            w >= 1,
            w as int == (if width < 1 { 1int } else { width as int }),
            cs == crate::unicode::views(gs@),
            crate::unicode::concat(cs) == content@,
            content@.len() == n,
            chars as int == crate::unicode::concat(cs.take(i as int)).len(),
            start <= chars,
            chars >= i,
            forall|k: int| 0 <= k < gs@.len() ==> (#[trigger] gs@[k])@.len() > 0,
            ranges@.len() + (if column > 0 { 1int } else { 0int }) <= i,
            forall|k: int| 0 <= k < ranges@.len() ==> #[trigger] ranges@[k].start <= ranges@[k].end <= n,
            forall|k: int| 0 <= k < ranges@.len() ==> #[trigger] ranges@[k].start < ranges@[k].end,
            i > 0 ==> start < chars,
            column > 0 ==> i > 0,
            column <= w || column as int == grapheme_columns(cs[i - 1], 0, tab_width as int, ambiguous_width_wide),
            spec_wrapped_line_ranges(line@, width, tab_width, ambiguous_width_wide) == wrap_from(
                cs,
                i as int,
                start as int,
                chars as int,
                column as int,
                ranges_of(ranges@),
                w as int,
                tab_width as int,
                ambiguous_width_wide,
            ),
        decreases gs.len() - i,
    {
        let g = &gs[i];
        assert(g@ == cs[i as int]);
        assert(gs@[i as int]@.len() > 0);
        proof {
            crate::unicode::lemma_concat_len(cs, i + 1);
            assert(cs.take(i + 1).drop_last() =~= cs.take(i as int));
        }
        let count = str_to_chars(g.as_str()).len();
        let cols = columns_of(g, column, tab_width, ambiguous_width_wide);
        if column > 0 && (column > w || cols > w - column) {
            let ghost before = ranges_of(ranges@);
            ranges.push(start..chars);
            assert(ranges_of(ranges@) =~= before.push((start as int, chars as int)));
            start = chars;
            column = columns_of(g, 0, tab_width, ambiguous_width_wide);
        } else {
            column = column + cols;
        }
        chars = chars + count;
        i = i + 1;
    }
    proof {
        if i == 0 {
            assert(cs.len() == 0);
            assert(cs =~= Seq::<Seq<char>>::empty());
            assert(crate::unicode::concat(cs).len() == 0) by {
                crate::unicode::lemma_concat_len(cs, 0);
                assert(cs.take(0) =~= cs);
            }
        }
    }
    let ghost before = ranges_of(ranges@);
    ranges.push(start..chars);
    assert(ranges_of(ranges@) =~= before.push((start as int, chars as int)));
    ranges
}


/// `x` is where one of the first clusters ends: no row boundary falls
/// inside a grapheme cluster.
pub open spec fn cluster_boundary(gs: Seq<Seq<char>>, x: int) -> bool {
    exists|j: int| 0 <= j <= gs.len() && x == #[trigger] crate::unicode::concat(gs.take(j)).len()
}

/// Rows that start at 0, each where the previous one ends, every end a
/// cluster boundary.
pub open spec fn rows_cut_at_clusters(rows: Seq<(int, int)>, gs: Seq<Seq<char>>) -> bool {
    &&& rows.len() > 0 ==> rows[0].0 == 0
    &&& forall|k: int| 0 <= k < rows.len() - 1 ==> #[trigger] rows[k].1 == rows[k + 1].0
    &&& forall|k: int| 0 <= k < rows.len() ==> rows[k].0 <= rows[k].1
    &&& forall|k: int| 0 <= k < rows.len() ==> cluster_boundary(gs, #[trigger] rows[k].1)
}

proof fn lemma_concat_take_step(gs: Seq<Seq<char>>, i: int)
    requires
        0 <= i < gs.len(),
    ensures
        crate::unicode::concat(gs.take(i + 1)).len() == crate::unicode::concat(gs.take(i)).len() + gs[i].len(),
{
    assert(gs.take(i + 1).drop_last() =~= gs.take(i));
    assert(gs.take(i + 1).last() == gs[i]);
}

proof fn lemma_wrap_from_cuts(
    gs: Seq<Seq<char>>,
    i: int,
    start: int,
    chars: int,
    column: int,
    rows: Seq<(int, int)>,
    width: int,
    tab_width: int,
    wide: bool,
)
    requires
        0 <= i <= gs.len(),
        chars == crate::unicode::concat(gs.take(i)).len(),
        start <= chars,
        cluster_boundary(gs, start),
        rows_cut_at_clusters(rows, gs),
        rows.len() == 0 ==> start == 0,
        rows.len() > 0 ==> rows.last().1 == start,
    ensures
        ({
            let r = wrap_from(gs, i, start, chars, column, rows, width, tab_width, wide);
            &&& r.len() > 0
            &&& rows_cut_at_clusters(r, gs)
            &&& r.last().1 == crate::unicode::concat(gs).len()
        }),
    decreases gs.len() - i,
{
    if i >= gs.len() {
        assert(gs.take(i) =~= gs);
        let r = rows.push((start, chars));
        assert(cluster_boundary(gs, chars)) by {
            assert(chars == crate::unicode::concat(gs.take(gs.len() as int)).len());
        }
        assert forall|k: int| 0 <= k < r.len() - 1 implies #[trigger] r[k].1 == r[k + 1].0 by {
            if k == rows.len() - 1 {
                assert(r[k] == rows.last());
            }
        }
        assert forall|k: int| 0 <= k < r.len() implies cluster_boundary(gs, #[trigger] r[k].1) by {
            if k < rows.len() {
                assert(r[k] == rows[k]);
            }
        }
    } else {
        let g = gs[i];
        lemma_concat_take_step(gs, i);
        let cols = grapheme_columns(g, column, tab_width, wide);
        assert(cluster_boundary(gs, chars)) by {
            assert(chars == crate::unicode::concat(gs.take(i)).len());
        }
        if column > 0 && column + cols > width {
            let r = rows.push((start, chars));
            assert forall|k: int| 0 <= k < r.len() - 1 implies #[trigger] r[k].1 == r[k + 1].0 by {
                if k == rows.len() - 1 {
                    assert(r[k] == rows.last());
                }
            }
            assert forall|k: int| 0 <= k < r.len() implies cluster_boundary(gs, #[trigger] r[k].1) by {
                if k < rows.len() {
                    assert(r[k] == rows[k]);
                }
            }
            lemma_wrap_from_cuts(
                gs,
                i + 1,
                chars,
                chars + g.len(),
                grapheme_columns(g, 0, tab_width, wide),
                r,
                width,
                tab_width,
                wide,
            );
        } else {
            lemma_wrap_from_cuts(gs, i + 1, start, chars + g.len(), column + cols, rows, width, tab_width, wide);
        }
    }
}

/// A line's visual rows follow one another from its start to its end, and
/// every row ends where a grapheme cluster ends: wrapping never splits a
/// cluster and loses no text.
pub proof fn lemma_wrapped_rows_cover_line(line: Seq<char>, width: usize, tab_width: usize, wide: bool)
    ensures
        ({
            let gs = crate::unicode::grapheme_clusters(trim_line_end(line));
            let r = spec_wrapped_line_ranges(line, width, tab_width, wide);
            &&& r.len() > 0
            &&& rows_cut_at_clusters(r, gs)
            &&& trim_line_end(line).len() == 0 ==> r == seq![(0int, 0int)]
            &&& trim_line_end(line).len() > 0 ==> r.last().1 == crate::unicode::concat(gs).len()
        }),
{
    let content = trim_line_end(line);
    let gs = crate::unicode::grapheme_clusters(content);
    let w = if width < 1 { 1int } else { width as int };
    if content.len() == 0 {
        let r = seq![(0int, 0int)];
        assert(cluster_boundary(gs, 0)) by {
            assert(gs.take(0) =~= Seq::<Seq<char>>::empty());
            assert(0 == crate::unicode::concat(gs.take(0)).len());
        }
        assert(rows_cut_at_clusters(r, gs));
    } else {
        assert(gs.take(0) =~= Seq::<Seq<char>>::empty());
        assert(cluster_boundary(gs, 0)) by {
            assert(0 == crate::unicode::concat(gs.take(0)).len());
        }
        lemma_wrap_from_cuts(gs, 0, 0, 0, 0, Seq::empty(), w, tab_width as int, wide);
    }
}

/// `trim_line_end` only shortens, and drops a final LF.
pub proof fn lemma_trim_len(s: Seq<char>)
    ensures
        trim_line_end(s).len() <= s.len(),
        s.len() > 0 && s.last() == '\n' ==> trim_line_end(s).len() < s.len(),
    decreases s.len(),
{
    if s.len() > 0 && (s.last() == '\r' || s.last() == '\n') {
        lemma_trim_len(s.drop_last());
    }
}

/// A visual row as plain values: line index, line start, char range.
pub open spec fn row_model(r: VisualRow) -> (int, int, (int, int)) {
    (r.line_index as int, r.line_start_char as int, (r.range_in_line.start as int, r.range_in_line.end as int))
}

pub open spec fn rows_model(v: Seq<VisualRow>) -> Seq<(int, int, (int, int))> {
    v.map_values(|r: VisualRow| row_model(r))
}

/// The visual rows of line `i` of a text.
pub open spec fn line_rows(s: Seq<char>, i: nat, width: usize, tab_width: usize, wide: bool) -> Seq<(int, int, (int, int))> {
    spec_wrapped_line_ranges(crate::buffer::rope::line_text(s, i), width, tab_width, wide).map_values(
        |r: (int, int)| (i as int, crate::buffer::rope::line_start(s, i), r),
    )
}

/// The visual rows of the first `k` lines of a text.
pub open spec fn rows_before(s: Seq<char>, k: nat, width: usize, tab_width: usize, wide: bool) -> Seq<(int, int, (int, int))>
    decreases k,
{
    if k == 0 {
        Seq::empty()
    } else {
        rows_before(s, (k - 1) as nat, width, tab_width, wide) + line_rows(s, (k - 1) as nat, width, tab_width, wide)
    }
}

/// All visual rows of a text, line after line.
pub open spec fn all_rows(s: Seq<char>, width: usize, tab_width: usize, wide: bool) -> Seq<(int, int, (int, int))> {
    rows_before(s, crate::buffer::rope::line_count(s), width, tab_width, wide)
}

/// The rows of fewer lines come first among the rows of more.
pub proof fn lemma_rows_prefix(s: Seq<char>, a: nat, b: nat, width: usize, tab_width: usize, wide: bool)
    requires
        a <= b,
    ensures
        rows_before(s, a, width, tab_width, wide).len() <= rows_before(s, b, width, tab_width, wide).len(),
        rows_before(s, a, width, tab_width, wide) =~= rows_before(s, b, width, tab_width, wide).take(
            rows_before(s, a, width, tab_width, wide).len() as int,
        ),
    decreases b,
{
    if a < b {
        lemma_rows_prefix(s, a, (b - 1) as nat, width, tab_width, wide);
        let p = rows_before(s, (b - 1) as nat, width, tab_width, wide);
        let q = rows_before(s, b, width, tab_width, wide);
        assert(q == p + line_rows(s, (b - 1) as nat, width, tab_width, wide));
        assert(q.take(p.len() as int) =~= p);
    }
}

/// Index of the first range that ends after `t`, from `k` on; the last
/// range when none does.
pub open spec fn first_ending_after(rs: Seq<(int, int)>, t: int, k: int) -> int
    decreases rs.len() - k,
{
    if k < 0 || k >= rs.len() {
        if rs.len() == 0 { 0 } else { rs.len() - 1 }
    } else if t < rs[k].1 {
        k
    } else {
        first_ending_after(rs, t, k + 1)
    }
}

/// The visual row that holds a char offset (clamped to the text).
pub open spec fn spec_visual_index_for_offset(s: Seq<char>, off: int, width: usize, tab_width: usize, wide: bool) -> int {
    let offset = if off < s.len() { off } else { s.len() as int };
    let line = crate::buffer::rope::line_of(s, offset);
    rows_before(s, line, width, tab_width, wide).len() + first_ending_after(
        spec_wrapped_line_ranges(crate::buffer::rope::line_text(s, line), width, tab_width, wide),
        offset - crate::buffer::rope::line_start(s, line),
        0,
    )
}

/// Up to `count` rows (at least one) from row `start` on.
pub open spec fn spec_visible_rows(s: Seq<char>, start: int, count: int, width: usize, tab_width: usize, wide: bool) -> Seq<(int, int, (int, int))> {
    let all = all_rows(s, width, tab_width, wide);
    let n = if count < 1 { 1 } else { count };
    if start >= all.len() {
        Seq::empty()
    } else if start + n < all.len() {
        all.subrange(start, start + n)
    } else {
        all.subrange(start, all.len() as int)
    }
}

/// `count` chars of `s` from `from` on, as many as there are.
pub open spec fn skip_take(s: Seq<char>, from: int, count: int) -> Seq<char> {
    if from >= s.len() {
        Seq::empty()
    } else if from + count < s.len() {
        s.subrange(from, from + count)
    } else {
        s.subrange(from, s.len() as int)
    }
}

/// The chars of a row's range within its line, the line break left out.
pub open spec fn row_segment(line: Seq<char>, range: (int, int)) -> Seq<char> {
    skip_take(trim_line_end(line), range.0, if range.1 > range.0 { range.1 - range.0 } else { 0 })
}

/// Moving one visual row up or down: the new offset and the display column
/// that later vertical moves aim for.
pub open spec fn spec_move_visual_vertical(
    s: Seq<char>,
    off: int,
    preferred: Option<usize>,
    width: usize,
    tab_width: usize,
    wide: bool,
    down: bool,
) -> (int, int) {
    let all = all_rows(s, width, tab_width, wide);
    let ci = spec_visual_index_for_offset(s, off, width, tab_width, wide);
    if ci >= all.len() {
        (
            if off < s.len() { off } else { s.len() as int },
            match preferred {
                Some(c) => c as int,
                None => 0,
            },
        )
    } else {
        let cur = all[ci];
        let seg = row_segment(crate::buffer::rope::line_text(s, cur.0 as nat), cur.2);
        let back = off - (cur.1 + cur.2.0);
        let rel = if back < 0 { 0 } else if back > seg.len() { seg.len() as int } else { back };
        let column = match preferred {
            Some(c) => c as int,
            None => crate::editor::movement::spec_display_column(seg, rel, tab_width as int, wide),
        };
        let ti = if down {
            crate::editor::movement::saturated(ci + 1)
        } else if ci == 0 {
            0
        } else {
            ci - 1
        };
        if ti == ci || ti >= all.len() {
            (off, column)
        } else {
            let t = all[ti];
            let tseg = row_segment(crate::buffer::rope::line_text(s, t.0 as nat), t.2);
            (
                t.1 + t.2.0 + crate::editor::movement::spec_char_offset_for_display_column(
                    tseg,
                    column,
                    tab_width as int,
                    wide,
                ),
                column,
            )
        }
    }
}

/// Facts every row of a text meets: its line exists, it starts where the
/// line starts and its range lies within the line's text.
pub open spec fn row_in_text(s: Seq<char>, r: VisualRow) -> bool {
    &&& r.line_index < crate::buffer::rope::line_count(s)
    &&& r.line_start_char == crate::buffer::rope::line_start(s, r.line_index as nat)
    &&& r.range_in_line.start <= r.range_in_line.end <= trim_line_end(
        crate::buffer::rope::line_text(s, r.line_index as nat),
    ).len()
}

proof fn lemma_line_rows(s: Seq<char>, li: nat, line: Seq<char>, ranges: Seq<Range<usize>>, width: usize, tab_width: usize, wide: bool)
    requires
        li < crate::buffer::rope::line_count(s),
        line == crate::buffer::rope::line_text(s, li),
        ranges_of(ranges) == spec_wrapped_line_ranges(line, width, tab_width, wide),
        ranges.len() <= trim_line_end(line).len() + 1,
    ensures
        line_rows(s, li, width, tab_width, wide).len() == ranges.len(),
        forall|j: int| 0 <= j < ranges.len() ==> #[trigger] line_rows(s, li, width, tab_width, wide)[j] == (
            li as int,
            crate::buffer::rope::line_start(s, li),
            (ranges[j].start as int, ranges[j].end as int),
        ),
        crate::buffer::rope::line_start(s, li) + ranges.len() <= crate::buffer::rope::line_start(s, li + 1) + 1,
        li + 1 < crate::buffer::rope::line_count(s) ==> crate::buffer::rope::line_start(s, li) + ranges.len()
            <= crate::buffer::rope::line_start(s, li + 1),
        crate::buffer::rope::line_start(s, li + 1) <= s.len(),
{
    crate::buffer::rope::lemma_line_start_monotonic(s, li, li + 1);
    crate::buffer::rope::lemma_line_start_bounds(s, li + 1);
    lemma_trim_len(line);
    assert forall|j: int| 0 <= j < ranges.len() implies #[trigger] line_rows(s, li, width, tab_width, wide)[j] == (
        li as int,
        crate::buffer::rope::line_start(s, li),
        (ranges[j].start as int, ranges[j].end as int),
    ) by {
        assert(ranges_of(ranges)[j] == (ranges[j].start as int, ranges[j].end as int));
    }
    let a = crate::buffer::rope::line_start(s, li);
    let b = crate::buffer::rope::line_start(s, li + 1);
    crate::buffer::rope::lemma_line_start_bounds(s, li);
    assert(line.len() == b - a);
    if li + 1 < crate::buffer::rope::line_count(s) {
        crate::buffer::rope::lemma_line_ends_with_lf(s, li);
        assert(line[b - a - 1] == s[b - 1]);
        assert(line.last() == '\n');
    }
}

fn wrap_rope_line(text: &Rope, li: usize, width: usize, tab_width: usize, wide: bool) -> (r: (String, Vec<Range<usize>>))
    requires
        tab_width > 0,
        li < crate::buffer::rope::line_count(crate::buffer::rope::rope_chars(*text)),
    ensures
        r.0@ == crate::buffer::rope::line_text(crate::buffer::rope::rope_chars(*text), li as nat),
        ranges_of(r.1@) == spec_wrapped_line_ranges(r.0@, width, tab_width, wide),
        1 <= r.1@.len() <= trim_line_end(r.0@).len() + 1,
        forall|k: int| 0 <= k < r.1@.len() ==> #[trigger] r.1@[k].start <= r.1@[k].end <= trim_line_end(r.0@).len(),
{
    let line = rope_line_string(text, li);
    let ranges = wrapped_line_ranges(line.as_str(), width, tab_width, wide);
    (line, ranges)
}

/// Up to `count` visual rows (at least one, where there is one) from
/// visual row `start_visual_row` on. The rows of a text number at most one
/// more than its chars, and that count has to fit in a `usize`.
pub fn visible_visual_rows(
    text: &Rope,
    start_visual_row: usize,
    count: usize,
    width: usize,
    tab_width: usize,
    ambiguous_width_wide: bool,
) -> (rows: Vec<VisualRow>)
    requires
        tab_width > 0,
        crate::buffer::rope::rope_chars(*text).len() < usize::MAX,
    ensures
        rows_model(rows@) == spec_visible_rows(
            crate::buffer::rope::rope_chars(*text),
            start_visual_row as int,
            count as int,
            width,
            tab_width,
            ambiguous_width_wide,
        ),
        forall|k: int| 0 <= k < rows@.len() ==> row_in_text(crate::buffer::rope::rope_chars(*text), #[trigger] rows@[k]),
{
    let ghost s = crate::buffer::rope::rope_chars(*text);
    let ghost want: int = if count < 1 { 1 } else { count as int };
    let n_lines = rope_len_lines(text);
    let mut visual_index: usize = 0;
    let mut rows: Vec<VisualRow> = Vec::new();
    let mut li: usize = 0;
    while li < n_lines
        invariant
            s == crate::buffer::rope::rope_chars(*text),
            n_lines == crate::buffer::rope::line_count(s),
            s.len() < usize::MAX,
            tab_width > 0,
            want == (if count < 1 { 1 } else { count as int }),
            li <= n_lines,
            visual_index as int == rows_before(s, li as nat, width, tab_width, ambiguous_width_wide).len(),
            li < n_lines ==> visual_index <= crate::buffer::rope::line_start(s, li as nat),
            rows@.len() < want,
            rows_model(rows@) == (if visual_index <= start_visual_row {
                Seq::empty()
            } else {
                rows_before(s, li as nat, width, tab_width, ambiguous_width_wide).subrange(
                    start_visual_row as int,
                    visual_index as int,
                )
            }),
            forall|k: int| 0 <= k < rows@.len() ==> row_in_text(s, #[trigger] rows@[k]),
        decreases n_lines - li,
    {
        let line_start_char = rope_line_to_char(text, li);
        let (line, ranges) = wrap_rope_line(text, li, width, tab_width, ambiguous_width_wide);
        let ghost before = rows_before(s, li as nat, width, tab_width, ambiguous_width_wide);
        let ghost lr = line_rows(s, li as nat, width, tab_width, ambiguous_width_wide);
        proof {
            lemma_line_rows(s, li as nat, line@, ranges@, width, tab_width, ambiguous_width_wide);
            assert(rows_before(s, (li + 1) as nat, width, tab_width, ambiguous_width_wide) == before + lr);
        }
        let mut j: usize = 0;
        while j < ranges.len()
            invariant
                s == crate::buffer::rope::rope_chars(*text),
                s.len() < usize::MAX,
                want == (if count < 1 { 1 } else { count as int }),
                li < n_lines == crate::buffer::rope::line_count(s),
                line@ == crate::buffer::rope::line_text(s, li as nat),
                line_start_char == crate::buffer::rope::line_start(s, li as nat),
                crate::buffer::rope::line_start(s, li as nat) + ranges@.len() <= s.len() + 1,
                before == rows_before(s, li as nat, width, tab_width, ambiguous_width_wide),
                lr == line_rows(s, li as nat, width, tab_width, ambiguous_width_wide),
                lr.len() == ranges@.len(),
                forall|k: int| 0 <= k < ranges@.len() ==> #[trigger] lr[k] == (
                    li as int,
                    crate::buffer::rope::line_start(s, li as nat),
                    (ranges@[k].start as int, ranges@[k].end as int),
                ),
                forall|k: int| 0 <= k < ranges@.len() ==> #[trigger] ranges@[k].start <= ranges@[k].end <= trim_line_end(line@).len(),
                j <= ranges@.len(),
                visual_index as int == before.len() + j,
                visual_index <= crate::buffer::rope::line_start(s, li as nat) + j,
                rows@.len() < want,
                rows_model(rows@) == (if visual_index <= start_visual_row {
                    Seq::empty()
                } else {
                    (before + lr.take(j as int)).subrange(start_visual_row as int, visual_index as int)
                }),
                forall|k: int| 0 <= k < rows@.len() ==> row_in_text(s, #[trigger] rows@[k]),
            decreases ranges.len() - j,
        {
            let ghost cur = before + lr.take(j as int);
            let ghost next = before + lr.take(j + 1);
            assert(next =~= cur.push(lr[j as int]));
            if visual_index >= start_visual_row {
                let ghost old_rows = rows@;
                let row = VisualRow { line_index: li, line_start_char, range_in_line: ranges[j].start..ranges[j].end };
                rows.push(row);
                proof {
                    assert(row_model(row) == lr[j as int]);
                    assert(rows_model(rows@) =~= rows_model(old_rows).push(row_model(row)));
                    assert(next.subrange(start_visual_row as int, visual_index + 1) =~= (if visual_index
                        <= start_visual_row {
                        Seq::empty()
                    } else {
                        cur.subrange(start_visual_row as int, visual_index as int)
                    }).push(lr[j as int]));
                    assert(row_in_text(s, row));
                }
                if rows.len() >= count {
                    proof {
                        let all = all_rows(s, width, tab_width, ambiguous_width_wide);
                        lemma_rows_prefix(s, (li + 1) as nat, n_lines as nat, width, tab_width, ambiguous_width_wide);
                        let full = before + lr;
                        assert(next =~= full.take(next.len() as int));
                        assert(full =~= all.take(full.len() as int));
                        assert(next.subrange(start_visual_row as int, visual_index + 1) =~= all.subrange(
                            start_visual_row as int,
                            visual_index + 1,
                        ));
                    }
                    return rows;
                }
            }
            visual_index = visual_index + 1;
            j = j + 1;
        }
        proof {
            assert(lr.take(j as int) =~= lr);
            if li + 1 < n_lines {
                assert(crate::buffer::rope::line_start(s, li as nat) + ranges@.len()
                    <= crate::buffer::rope::line_start(s, (li + 1) as nat));
            }
        }
        li = li + 1;
    }
    proof {
        let all = all_rows(s, width, tab_width, ambiguous_width_wide);
        assert(all == rows_before(s, li as nat, width, tab_width, ambiguous_width_wide));
    }
    rows
}

/// The number of visual rows of a text. The rows of a text number at most
/// one more than its chars, and that count has to fit in a `usize`.
pub fn visual_row_count(text: &Rope, width: usize, tab_width: usize, ambiguous_width_wide: bool) -> (n: usize)
    requires
        tab_width > 0,
        crate::buffer::rope::rope_chars(*text).len() < usize::MAX,
    ensures
        n == all_rows(crate::buffer::rope::rope_chars(*text), width, tab_width, ambiguous_width_wide).len(),
{
    let ghost s = crate::buffer::rope::rope_chars(*text);
    let n_lines = rope_len_lines(text);
    let mut total: usize = 0;
    let mut li: usize = 0;
    while li < n_lines
        invariant
            s == crate::buffer::rope::rope_chars(*text),
            n_lines == crate::buffer::rope::line_count(s),
            s.len() < usize::MAX,
            tab_width > 0,
            li <= n_lines,
            total as int == rows_before(s, li as nat, width, tab_width, ambiguous_width_wide).len(),
            li < n_lines ==> total <= crate::buffer::rope::line_start(s, li as nat),
        decreases n_lines - li,
    {
        let (line, ranges) = wrap_rope_line(text, li, width, tab_width, ambiguous_width_wide);
        proof {
            lemma_line_rows(s, li as nat, line@, ranges@, width, tab_width, ambiguous_width_wide);
        }
        total = total + ranges.len();
        li = li + 1;
    }
    total
}

/// The visual row that holds a char offset (clamped to the text).
pub fn visual_index_for_offset(
    text: &Rope,
    char_offset: usize,
    width: usize,
    tab_width: usize,
    ambiguous_width_wide: bool,
) -> (r: usize)
    requires
        tab_width > 0,
    ensures
        r as int == spec_visual_index_for_offset(
            crate::buffer::rope::rope_chars(*text),
            char_offset as int,
            width,
            tab_width,
            ambiguous_width_wide,
        ),
{
    let ghost s = crate::buffer::rope::rope_chars(*text);
    let len = rope_len_chars(text);
    let offset = if char_offset < len { char_offset } else { len };
    let target_line = rope_char_to_line(text, offset);
    proof {
        crate::buffer::rope::lemma_line_of_monotonic(s, offset as int, len as int);
        crate::buffer::rope::lemma_line_of_start(s, offset as int);
    }
    let target_in_line = offset - rope_line_to_char(text, target_line);
    let mut visual_index: usize = 0;
    let mut li: usize = 0;
    while li < target_line
        invariant
            s == crate::buffer::rope::rope_chars(*text),
            tab_width > 0,
            li <= target_line < crate::buffer::rope::line_count(s),
            s.len() == len,
            visual_index as int == rows_before(s, li as nat, width, tab_width, ambiguous_width_wide).len(),
            visual_index <= crate::buffer::rope::line_start(s, li as nat),
        decreases target_line - li,
    {
        let (line, ranges) = wrap_rope_line(text, li, width, tab_width, ambiguous_width_wide);
        proof {
            lemma_line_rows(s, li as nat, line@, ranges@, width, tab_width, ambiguous_width_wide);
        }
        visual_index = visual_index + ranges.len();
        li = li + 1;
    }
    let (line, ranges) = wrap_rope_line(text, target_line, width, tab_width, ambiguous_width_wide);
    proof {
        lemma_line_rows(s, target_line as nat, line@, ranges@, width, tab_width, ambiguous_width_wide);
    }
    let ghost rs = ranges_of(ranges@);
    let mut k: usize = 0;
    while k < ranges.len()
        invariant
            k <= ranges@.len(),
            rs == ranges_of(ranges@),
            rs == spec_wrapped_line_ranges(
                crate::buffer::rope::line_text(s, target_line as nat),
                width,
                tab_width,
                ambiguous_width_wide,
            ),
            1 <= ranges@.len(),
            visual_index as int == rows_before(s, target_line as nat, width, tab_width, ambiguous_width_wide).len(),
            visual_index <= crate::buffer::rope::line_start(s, target_line as nat),
            crate::buffer::rope::line_start(s, target_line as nat) + ranges@.len() <= crate::buffer::rope::line_start(
                s,
                (target_line + 1) as nat,
            ) + 1,
            crate::buffer::rope::line_start(s, (target_line + 1) as nat) <= s.len(),
            s.len() == len,
            s == crate::buffer::rope::rope_chars(*text),
            offset == (if char_offset < s.len() { char_offset as int } else { s.len() as int }),
            target_line == crate::buffer::rope::line_of(s, offset as int),
            target_in_line == offset - crate::buffer::rope::line_start(s, target_line as nat),
            first_ending_after(rs, target_in_line as int, 0) == first_ending_after(rs, target_in_line as int, k as int),
        decreases ranges.len() - k,
    {
        assert(rs[k as int] == (ranges@[k as int].start as int, ranges@[k as int].end as int));
        if target_in_line < ranges[k].end {
            return visual_index + k;
        }
        k = k + 1;
    }
    visual_index + (ranges.len() - 1)
}

fn row_segment_of(line: &String, range: &Range<usize>) -> (seg: String)
    ensures
        seg@ == row_segment(line@, (range.start as int, range.end as int)),
{
    let all = str_to_chars(line.as_str());
    let n = trim_end_len(&all);
    let start = range.start;
    let count = if range.end > range.start { range.end - range.start } else { 0 };
    if start >= n {
        return chars_to_string(crate::chars::sub_vec(&all, 0, 0).as_slice());
    }
    let end = if count < n - start { start + count } else { n };
    let piece = crate::chars::sub_vec(&all, start, end);
    proof {
        assert(trim_line_end(line@) == all@.take(n as int));
        assert(all@.subrange(start as int, end as int) =~= all@.take(n as int).subrange(start as int, end as int));
    }
    chars_to_string(piece.as_slice())
}

/// Moves one visual row up or down, to the display column `preferred` or
/// the current one within the row.
pub fn move_visual_vertical(
    text: &Rope,
    char_offset: usize,
    preferred: Option<usize>,
    width: usize,
    tab_width: usize,
    ambiguous_width_wide: bool,
    down: bool,
) -> (r: (usize, usize))
    requires
        tab_width > 0,
        crate::buffer::rope::rope_chars(*text).len() < usize::MAX,
    ensures
        (r.0 as int, r.1 as int) == spec_move_visual_vertical(
            crate::buffer::rope::rope_chars(*text),
            char_offset as int,
            preferred,
            width,
            tab_width,
            ambiguous_width_wide,
            down,
        ),
{
    let ghost s = crate::buffer::rope::rope_chars(*text);
    let ghost all = all_rows(s, width, tab_width, ambiguous_width_wide);
    let current_index = visual_index_for_offset(text, char_offset, width, tab_width, ambiguous_width_wide);
    let current_rows = visible_visual_rows(text, current_index, 1, width, tab_width, ambiguous_width_wide);
    assert(rows_model(current_rows@).len() == current_rows@.len());
    if current_rows.len() == 0 {
        let len = rope_len_chars(text);
        let column = match preferred {
            Some(c) => c,
            None => 0,
        };
        return (if char_offset < len { char_offset } else { len }, column);
    }
    let current = &current_rows[0];
    assert(rows_model(current_rows@)[0] == row_model(current_rows@[0]));
    assert(row_model(*current) == all[current_index as int]);
    assert(row_in_text(s, *current));
    let line = rope_line_string(text, current.line_index);
    let segment = row_segment_of(&line, &current.range_in_line);
    let seg_len = str_to_chars(segment.as_str()).len();
    proof {
        lemma_trim_len(line@);
        crate::buffer::rope::lemma_line_start_monotonic(s, current.line_index as nat, (current.line_index + 1) as nat);
        crate::buffer::rope::lemma_line_start_bounds(s, (current.line_index + 1) as nat);
    }
    let row_start = current.line_start_char + current.range_in_line.start;
    let back = char_offset.saturating_sub(row_start);
    let relative = if back < seg_len { back } else { seg_len };
    let target_column = match preferred {
        Some(c) => c,
        None => display_column_with(segment.as_str(), relative, tab_width, ambiguous_width_wide),
    };
    let target_index = if down { current_index.saturating_add(1) } else { current_index.saturating_sub(1) };
    if target_index == current_index {
        return (char_offset, target_column);
    }
    let target_rows = visible_visual_rows(text, target_index, 1, width, tab_width, ambiguous_width_wide);
    assert(rows_model(target_rows@).len() == target_rows@.len());
    if target_rows.len() == 0 {
        return (char_offset, target_column);
    }
    let target = &target_rows[0];
    assert(rows_model(target_rows@)[0] == row_model(target_rows@[0]));
    assert(row_model(*target) == all[target_index as int]);
    assert(row_in_text(s, *target));
    let target_line = rope_line_string(text, target.line_index);
    let target_segment = row_segment_of(&target_line, &target.range_in_line);
    let relative_target = char_offset_for_display_column(target_segment.as_str(), target_column, tab_width, ambiguous_width_wide);
    proof {
        lemma_trim_len(target_line@);
        crate::buffer::rope::lemma_line_start_monotonic(s, target.line_index as nat, (target.line_index + 1) as nat);
        crate::buffer::rope::lemma_line_start_bounds(s, (target.line_index + 1) as nat);
    }
    (target.line_start_char + target.range_in_line.start + relative_target, target_column)
}

} // verus!
