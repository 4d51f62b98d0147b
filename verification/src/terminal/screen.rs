//! The terminal screen: a grid of styled cells with a cursor, a scroll
//! region, scrollback, and an alternate screen, driven by the actions of a
//! VT parser.

use vstd::prelude::*;

use std::collections::VecDeque;

verus! {

#[derive(Debug, Clone, Copy, PartialEq, Eq, Structural)]
pub enum TerminalColor {
    Default,
    Indexed(u8),
    Rgb(u8, u8, u8),
}

impl Default for TerminalColor {
    fn default() -> (c: Self)
        ensures
            c == TerminalColor::Default,
    {
        TerminalColor::Default
    }
}

#[derive(Debug, Clone, Copy, PartialEq, Eq, Structural)]
pub struct CellStyle {
    pub foreground: TerminalColor,
    pub background: TerminalColor,
    pub bold: bool,
    pub italic: bool,
    pub underline: bool,
    pub inverse: bool,
}

pub open spec fn default_style() -> CellStyle {
    CellStyle {
        foreground: TerminalColor::Default,
        background: TerminalColor::Default,
        bold: false,
        italic: false,
        underline: false,
        inverse: false,
    }
}

impl Default for CellStyle {
    fn default() -> (s: Self)
        ensures
            s == default_style(),
    {
        CellStyle {
            foreground: TerminalColor::Default,
            background: TerminalColor::Default,
            bold: false,
            italic: false,
            underline: false,
            inverse: false,
        }
    }
}

#[derive(Debug, Clone, Copy, PartialEq, Eq, Structural)]
pub struct TerminalCell {
    pub character: char,
    pub style: CellStyle,
    pub wide_continuation: bool,
}

/// An empty cell: a space in the default style.
pub open spec fn blank_cell() -> TerminalCell {
    TerminalCell { character: ' ', style: default_style(), wide_continuation: false }
}

impl Default for TerminalCell {
    fn default() -> (c: Self)
        ensures
            c == blank_cell(),
    {
        TerminalCell { character: ' ', style: CellStyle::default(), wide_continuation: false }
    }
}

/// What the screen shows, for rendering.
#[derive(Debug, Clone, PartialEq, Eq)]
pub struct TerminalSnapshot {
    pub lines: Vec<Vec<TerminalCell>>,
    pub cursor_row: usize,
    pub cursor_col: usize,
    pub cursor_visible: bool,
    pub application_cursor: bool,
    pub bracketed_paste: bool,
    pub alternate_screen: bool,
    pub title: Option<String>,
}

pub open spec fn blank_line(cols: int) -> Seq<TerminalCell> {
    Seq::new(cols as nat, |i: int| blank_cell())
}

pub open spec fn blank_lines(rows: int, cols: int) -> Seq<Seq<TerminalCell>> {
    Seq::new(rows as nat, |i: int| blank_line(cols))
}

pub open spec fn lines_view(g: Seq<Vec<TerminalCell>>) -> Seq<Seq<TerminalCell>> {
    g.map_values(|r: Vec<TerminalCell>| r@)
}

/// The last `limit` lines of `s` (all of them where there are fewer).
pub open spec fn keep_last(s: Seq<Seq<TerminalCell>>, limit: int) -> Seq<Seq<TerminalCell>> {
    if s.len() > limit {
        s.skip(s.len() - limit)
    } else {
        s
    }
}

/// The primary screen, kept while the alternate screen is shown.
pub struct PrimaryModel {
    pub grid: Seq<Seq<TerminalCell>>,
    pub cursor: (int, int),
    pub saved_cursor: (int, int),
}

/// The screen's state.
pub struct ScreenModel {
    pub rows: int,
    pub cols: int,
    pub grid: Seq<Seq<TerminalCell>>,
    pub primary: Option<PrimaryModel>,
    pub scrollback: Seq<Seq<TerminalCell>>,
    pub limit: int,
    pub cursor_row: int,
    pub cursor_col: int,
    pub saved_cursor: (int, int),
    pub top: int,
    pub bottom: int,
    pub style: CellStyle,
    pub cursor_visible: bool,
    pub application_cursor: bool,
    pub bracketed_paste: bool,
    pub alternate_screen: bool,
    pub title: Option<Seq<char>>,
}

/// The largest row or column count a screen takes.
pub open spec fn max_extent() -> int {
    usize::MAX as int / 4
}

pub open spec fn grid_shaped(g: Seq<Seq<TerminalCell>>, rows: int, cols: int) -> bool {
    g.len() == rows && forall|r: int| 0 <= r < rows ==> (#[trigger] g[r]).len() == cols
}

/// Consistency of a screen: the grid has its size, the cursors lie on it,
/// the scroll region lies within it, the scrollback keeps its limit, and a
/// primary screen is kept exactly while the alternate one is shown.
pub open spec fn model_wf(m: ScreenModel) -> bool {
    &&& 1 <= m.rows <= max_extent()
    &&& 2 <= m.cols <= max_extent()
    &&& grid_shaped(m.grid, m.rows, m.cols)
    &&& 0 <= m.cursor_row < m.rows
    &&& 0 <= m.cursor_col < m.cols
    &&& 0 <= m.saved_cursor.0 < m.rows
    &&& 0 <= m.saved_cursor.1 < m.cols
    &&& 0 <= m.top <= m.bottom < m.rows
    &&& 0 <= m.limit <= usize::MAX
    &&& m.scrollback.len() <= m.limit
    &&& (m.primary is Some) == m.alternate_screen
    &&& (m.primary matches Some(p) ==> {
        &&& grid_shaped(p.grid, m.rows, m.cols)
        &&& 0 <= p.cursor.0 < m.rows
        &&& 0 <= p.cursor.1 < m.cols
        &&& 0 <= p.saved_cursor.0 < m.rows
        &&& 0 <= p.saved_cursor.1 < m.cols
    })
}

/// A fresh screen of at least one row and two columns.
pub open spec fn initial(rows: int, cols: int, limit: int) -> ScreenModel {
    let r = if rows < 1 { 1 } else { rows };
    let c = if cols < 2 { 2 } else { cols };
    ScreenModel {
        rows: r,
        cols: c,
        grid: blank_lines(r, c),
        primary: None,
        scrollback: Seq::empty(),
        limit,
        cursor_row: 0,
        cursor_col: 0,
        saved_cursor: (0, 0),
        top: 0,
        bottom: r - 1,
        style: default_style(),
        cursor_visible: true,
        application_cursor: false,
        bracketed_paste: false,
        alternate_screen: false,
        title: None,
    }
}

/// A line kept in the scrollback, which keeps the last `limit` lines.
pub open spec fn spec_push_scrollback(m: ScreenModel, line: Seq<Seq<TerminalCell>>) -> ScreenModel {
    if m.limit == 0 {
        m
    } else {
        ScreenModel { scrollback: keep_last(m.scrollback + line, m.limit), ..m }
    }
}

/// Rows `a..=b` moved up by `n`: the first `n` leave, `n` blank rows come
/// in at the bottom of the range.
pub open spec fn shifted_up(g: Seq<Seq<TerminalCell>>, a: int, b: int, n: int, cols: int) -> Seq<Seq<TerminalCell>> {
    g.take(a) + g.subrange(a + n, b + 1) + blank_lines(n, cols) + g.skip(b + 1)
}

/// Rows `a..=b` moved down by `n`: the last `n` leave, `n` blank rows come
/// in at the top of the range.
pub open spec fn shifted_down(g: Seq<Seq<TerminalCell>>, a: int, b: int, n: int, cols: int) -> Seq<Seq<TerminalCell>> {
    g.take(a) + blank_lines(n, cols) + g.subrange(a, b + 1 - n) + g.skip(b + 1)
}

pub open spec fn min_int(a: int, b: int) -> int {
    if a < b { a } else { b }
}

/// `count` lines scrolled up within the scroll region; lines leaving the
/// top of the screen go to the scrollback unless the alternate screen is
/// shown.
pub open spec fn spec_scroll_up(m: ScreenModel, count: int) -> ScreenModel {
    let n = min_int(count, m.bottom - m.top + 1);
    let moved = ScreenModel { grid: shifted_up(m.grid, m.top, m.bottom, n, m.cols), ..m };
    if m.top == 0 && !m.alternate_screen {
        spec_push_scrollback(moved, m.grid.subrange(m.top, m.top + n))
    } else {
        moved
    }
}

/// `count` lines scrolled down within the scroll region.
pub open spec fn spec_scroll_down(m: ScreenModel, count: int) -> ScreenModel {
    let n = min_int(count, m.bottom - m.top + 1);
    ScreenModel { grid: shifted_down(m.grid, m.top, m.bottom, n, m.cols), ..m }
}

/// Next line: scrolls at the bottom of the region, else moves down.
pub open spec fn spec_line_feed(m: ScreenModel) -> ScreenModel {
    if m.cursor_row == m.bottom {
        spec_scroll_up(m, 1)
    } else {
        ScreenModel { cursor_row: min_int(m.cursor_row + 1, m.rows - 1), ..m }
    }
}

/// Previous line: scrolls down at the top of the region, else moves up.
pub open spec fn spec_reverse_index(m: ScreenModel) -> ScreenModel {
    if m.cursor_row == m.top {
        spec_scroll_down(m, 1)
    } else {
        ScreenModel { cursor_row: if m.cursor_row > 0 { m.cursor_row - 1 } else { 0 }, ..m }
    }
}

/// Row `r` with cells `from..to` blanked.
pub open spec fn blanked(g: Seq<Seq<TerminalCell>>, r: int, from: int, to: int) -> Seq<Seq<TerminalCell>> {
    g.update(r, g[r].take(from) + blank_line(to - from) + g[r].skip(to))
}

pub open spec fn spec_erase_line(m: ScreenModel, mode: u16) -> ScreenModel {
    if mode == 0 {
        ScreenModel { grid: blanked(m.grid, m.cursor_row, m.cursor_col, m.cols), ..m }
    } else if mode == 1 {
        ScreenModel { grid: blanked(m.grid, m.cursor_row, 0, m.cursor_col + 1), ..m }
    } else if mode == 2 {
        ScreenModel { grid: blanked(m.grid, m.cursor_row, 0, m.cols), ..m }
    } else {
        m
    }
}

/// Rows `a..b` blanked.
pub open spec fn rows_blanked(g: Seq<Seq<TerminalCell>>, a: int, b: int, cols: int) -> Seq<Seq<TerminalCell>> {
    g.take(a) + blank_lines(b - a, cols) + g.skip(b)
}

pub open spec fn spec_erase_display(m: ScreenModel, mode: u16) -> ScreenModel {
    if mode == 0 {
        let e = spec_erase_line(m, 0);
        ScreenModel { grid: rows_blanked(e.grid, m.cursor_row + 1, m.rows, m.cols), ..e }
    } else if mode == 1 {
        let e = spec_erase_line(m, 1);
        ScreenModel { grid: rows_blanked(e.grid, 0, m.cursor_row, m.cols), ..e }
    } else if mode == 2 {
        ScreenModel { grid: blank_lines(m.rows, m.cols), ..m }
    } else if mode == 3 {
        ScreenModel { grid: blank_lines(m.rows, m.cols), scrollback: Seq::empty(), ..m }
    } else {
        m
    }
}

pub open spec fn spec_set_alternate_screen(m: ScreenModel, enabled: bool) -> ScreenModel {
    if enabled && !m.alternate_screen {
        ScreenModel {
            primary: Some(
                PrimaryModel {
                    grid: m.grid,
                    cursor: (m.cursor_row, m.cursor_col),
                    saved_cursor: m.saved_cursor,
                },
            ),
            grid: blank_lines(m.rows, m.cols),
            cursor_row: 0,
            cursor_col: 0,
            alternate_screen: true,
            ..m
        }
    } else if !enabled && m.alternate_screen && m.primary is Some {
        let p = m.primary->0;
        ScreenModel {
            grid: p.grid,
            cursor_row: p.cursor.0,
            cursor_col: p.cursor.1,
            saved_cursor: p.saved_cursor,
            alternate_screen: false,
            primary: None,
            ..m
        }
    } else {
        m
    }
}

/// DEC private modes: 1 application cursor keys, 25 cursor visibility,
/// 1047 and 1049 the alternate screen, 2004 bracketed paste.
pub open spec fn spec_set_private_mode(m: ScreenModel, mode: u16, enabled: bool) -> ScreenModel {
    if mode == 1 {
        ScreenModel { application_cursor: enabled, ..m }
    } else if mode == 25 {
        ScreenModel { cursor_visible: enabled, ..m }
    } else if mode == 1047 || mode == 1049 {
        spec_set_alternate_screen(m, enabled)
    } else if mode == 2004 {
        ScreenModel { bracketed_paste: enabled, ..m }
    } else {
        m
    }
}

/// A line cut or padded with blanks to `cols` cells.
pub open spec fn fit_line(l: Seq<TerminalCell>, cols: int) -> Seq<TerminalCell> {
    if cols <= l.len() {
        l.take(cols)
    } else {
        l + blank_line(cols - l.len())
    }
}

pub open spec fn fit_lines(g: Seq<Seq<TerminalCell>>, cols: int) -> Seq<Seq<TerminalCell>> {
    g.map_values(|l: Seq<TerminalCell>| fit_line(l, cols))
}

/// A grid brought to `rows` by `cols`: lines fitted, then blank lines added
/// at the bottom or lines dropped from the top.
pub open spec fn fit_grid(g: Seq<Seq<TerminalCell>>, rows: int, cols: int) -> Seq<Seq<TerminalCell>> {
    let f = fit_lines(g, cols);
    if rows >= f.len() {
        f + blank_lines(rows - f.len(), cols)
    } else {
        f.skip(f.len() - rows)
    }
}

pub open spec fn clamp_cursor(c: (int, int), rows: int, cols: int) -> (int, int) {
    (min_int(c.0, rows - 1), min_int(c.1, cols - 1))
}

/// The screen at a new size (at least one row and two columns): lines that
/// leave the top of the shown primary screen go to the scrollback, the
/// cursors are kept on the grid, and the scroll region becomes the whole
/// screen. A kept primary screen is fitted the same way.
pub open spec fn spec_resize(m: ScreenModel, rows: int, cols: int) -> ScreenModel {
    let r = if rows < 1 { 1 } else { rows };
    let c = if cols < 2 { 2 } else { cols };
    let f = fit_lines(m.grid, c);
    let m2 = if r < f.len() && !m.alternate_screen {
        spec_push_scrollback(m, f.take(f.len() - r))
    } else {
        m
    };
    ScreenModel {
        rows: r,
        cols: c,
        grid: fit_grid(m.grid, r, c),
        cursor_row: min_int(m.cursor_row, r - 1),
        cursor_col: min_int(m.cursor_col, c - 1),
        saved_cursor: clamp_cursor(m.saved_cursor, r, c),
        top: 0,
        bottom: r - 1,
        primary: match m.primary {
            Some(p) => Some(
                PrimaryModel {
                    grid: fit_grid(p.grid, r, c),
                    cursor: clamp_cursor(p.cursor, r, c),
                    saved_cursor: clamp_cursor(p.saved_cursor, r, c),
                },
            ),
            None => None,
        },
        ..m2
    }
}

/// The lines a snapshot shows: the screen, or, scrolled back by `offset`
/// lines, a window of the scrollback followed by the screen.
pub open spec fn snapshot_lines(m: ScreenModel, offset: int) -> Seq<Seq<TerminalCell>> {
    if m.alternate_screen || offset == 0 {
        m.grid
    } else {
        let history = m.scrollback + m.grid;
        let end = history.len() - min_int(offset, m.scrollback.len() as int);
        let start = if end > m.rows { end - m.rows } else { 0 };
        history.subrange(start, end)
    }
}

pub struct Screen {
    rows: usize,
    cols: usize,
    grid: Vec<Vec<TerminalCell>>,
    primary: Option<PrimaryScreen>,
    scrollback: VecDeque<Vec<TerminalCell>>,
    scrollback_limit: usize,
    cursor_row: usize,
    cursor_col: usize,
    saved_cursor: (usize, usize),
    scroll_top: usize,
    scroll_bottom: usize,
    style: CellStyle,
    cursor_visible: bool,
    application_cursor: bool,
    bracketed_paste: bool,
    alternate_screen: bool,
    title: Option<String>,
}

struct PrimaryScreen {
    grid: Vec<Vec<TerminalCell>>,
    cursor: (usize, usize),
    saved_cursor: (usize, usize),
}

pub open spec fn opt_text(t: Option<String>) -> Option<Seq<char>> {
    match t {
        Some(s) => Some(s@),
        None => None,
    }
}

impl View for Screen {
    type V = ScreenModel;

    closed spec fn view(&self) -> ScreenModel {
        ScreenModel {
            rows: self.rows as int,
            cols: self.cols as int,
            grid: lines_view(self.grid@),
            primary: match self.primary {
                Some(p) => Some(
                    PrimaryModel {
                        grid: lines_view(p.grid@),
                        cursor: (p.cursor.0 as int, p.cursor.1 as int),
                        saved_cursor: (p.saved_cursor.0 as int, p.saved_cursor.1 as int),
                    },
                ),
                None => None,
            },
            scrollback: lines_view(self.scrollback@),
            limit: self.scrollback_limit as int,
            cursor_row: self.cursor_row as int,
            cursor_col: self.cursor_col as int,
            saved_cursor: (self.saved_cursor.0 as int, self.saved_cursor.1 as int),
            top: self.scroll_top as int,
            bottom: self.scroll_bottom as int,
            style: self.style,
            cursor_visible: self.cursor_visible,
            application_cursor: self.application_cursor,
            bracketed_paste: self.bracketed_paste,
            alternate_screen: self.alternate_screen,
            title: opt_text(self.title),
        }
    }
}

/// A line of blank cells.
pub fn blank_row(cols: usize) -> (r: Vec<TerminalCell>)
    ensures
        r@ == blank_line(cols as int),
{
    let mut r: Vec<TerminalCell> = Vec::new();
    let mut i: usize = 0;
    while i < cols
        invariant
            i <= cols,
            r@ == blank_line(i as int),
        decreases cols - i,
    {
        r.push(TerminalCell::default());
        i = i + 1;
        assert(r@ =~= blank_line(i as int));
    }
    r
}

/// A grid of blank cells.
pub fn blank_grid(rows: usize, cols: usize) -> (g: Vec<Vec<TerminalCell>>)
    ensures
        lines_view(g@) == blank_lines(rows as int, cols as int),
{
    let mut g: Vec<Vec<TerminalCell>> = Vec::new();
    let mut i: usize = 0;
    while i < rows
        invariant
            i <= rows,
            lines_view(g@) == blank_lines(i as int, cols as int),
        decreases rows - i,
    {
        let row = blank_row(cols);
        let ghost before = g@;
        g.push(row);
        assert(g@ =~= before.push(row));
        assert(lines_view(g@) =~= lines_view(before).push(row@));
        i = i + 1;
        assert(lines_view(g@) =~= blank_lines(i as int, cols as int));
    }
    g
}

fn copy_row(r: &Vec<TerminalCell>) -> (c: Vec<TerminalCell>)
    ensures
        c@ == r@,
{
    let mut c: Vec<TerminalCell> = Vec::new();
    let mut i: usize = 0;
    while i < r.len()
        invariant
            i <= r@.len(),
            c@ == r@.take(i as int),
        decreases r.len() - i,
    {
        c.push(r[i]);
        i = i + 1;
        assert(c@ =~= r@.take(i as int));
    }
    assert(r@.take(i as int) =~= r@);
    c
}

fn copy_rows(g: &Vec<Vec<TerminalCell>>, from: usize, to: usize, out: &mut Vec<Vec<TerminalCell>>)
    requires
        from <= to <= g@.len(),
    ensures
        lines_view(final(out)@) == lines_view(old(out)@) + lines_view(g@).subrange(from as int, to as int),
{
    let ghost start = lines_view(out@);
    let mut i = from;
    while i < to
        invariant
            from <= i <= to <= g@.len(),
            lines_view(out@) == start + lines_view(g@).subrange(from as int, i as int),
        decreases to - i,
    {
        let row = copy_row(&g[i]);
        let ghost before = out@;
        out.push(row);
        assert(out@ =~= before.push(row));
        assert(lines_view(out@) =~= lines_view(before).push(row@));
        assert(row@ == lines_view(g@)[i as int]);
        i = i + 1;
        assert(lines_view(out@) =~= start + lines_view(g@).subrange(from as int, i as int));
    }
}

fn push_blank_rows(out: &mut Vec<Vec<TerminalCell>>, n: usize, cols: usize)
    ensures
        lines_view(final(out)@) == lines_view(old(out)@) + blank_lines(n as int, cols as int),
{
    let ghost start = lines_view(out@);
    let mut i: usize = 0;
    while i < n
        invariant
            i <= n,
            lines_view(out@) == start + blank_lines(i as int, cols as int),
        decreases n - i,
    {
        let row = blank_row(cols);
        let ghost before = out@;
        out.push(row);
        assert(out@ =~= before.push(row));
        assert(lines_view(out@) =~= lines_view(before).push(row@));
        i = i + 1;
        assert(lines_view(out@) =~= start + blank_lines(i as int, cols as int));
    }
}

fn min_usize(a: usize, b: usize) -> (r: usize)
    ensures
        r as int == min_int(a as int, b as int),
{
    if a < b { a } else { b }
}

/// `count` blank cells.
fn push_blank_cells(out: &mut Vec<TerminalCell>, n: usize)
    ensures
        final(out)@ == old(out)@ + blank_line(n as int),
{
    let ghost start = out@;
    let mut i: usize = 0;
    while i < n
        invariant
            i <= n,
            out@ == start + blank_line(i as int),
        decreases n - i,
    {
        out.push(TerminalCell::default());
        i = i + 1;
        assert(out@ =~= start + blank_line(i as int));
    }
}

fn push_cells(out: &mut Vec<TerminalCell>, r: &Vec<TerminalCell>, from: usize, to: usize)
    requires
        from <= to <= r@.len(),
    ensures
        final(out)@ == old(out)@ + r@.subrange(from as int, to as int),
{
    let ghost start = out@;
    let mut i = from;
    while i < to
        invariant
            from <= i <= to <= r@.len(),
            out@ == start + r@.subrange(from as int, i as int),
        decreases to - i,
    {
        out.push(r[i]);
        i = i + 1;
        assert(out@ =~= start + r@.subrange(from as int, i as int));
    }
}

/// A line cut or padded to `cols` cells.
fn fitted_row(r: &Vec<TerminalCell>, cols: usize) -> (f: Vec<TerminalCell>)
    ensures
        f@ == fit_line(r@, cols as int),
{
    let mut f: Vec<TerminalCell> = Vec::new();
    if cols <= r.len() {
        push_cells(&mut f, r, 0, cols);
        assert(f@ =~= r@.take(cols as int));
    } else {
        push_cells(&mut f, r, 0, r.len());
        push_blank_cells(&mut f, cols - r.len());
        assert(f@ =~= r@ + blank_line(cols - r@.len()));
    }
    f
}

fn fitted_rows(g: &Vec<Vec<TerminalCell>>, cols: usize) -> (f: Vec<Vec<TerminalCell>>)
    ensures
        lines_view(f@) == fit_lines(lines_view(g@), cols as int),
{
    let mut f: Vec<Vec<TerminalCell>> = Vec::new();
    let mut i: usize = 0;
    while i < g.len()
        invariant
            i <= g@.len(),
            lines_view(f@) == fit_lines(lines_view(g@), cols as int).take(i as int),
        decreases g.len() - i,
    {
        let row = fitted_row(&g[i], cols);
        let ghost before = f@;
        f.push(row);
        assert(f@ =~= before.push(row));
        assert(lines_view(f@) =~= lines_view(before).push(row@));
        i = i + 1;
        assert(lines_view(f@) =~= fit_lines(lines_view(g@), cols as int).take(i as int));
    }
    assert(fit_lines(lines_view(g@), cols as int).take(i as int) =~= fit_lines(lines_view(g@), cols as int));
    f
}

/// A grid fitted to `rows` by `cols`, with the lines dropped from its top.
fn fitted_grid(g: &Vec<Vec<TerminalCell>>, rows: usize, cols: usize) -> (r: (Vec<Vec<TerminalCell>>, Vec<Vec<TerminalCell>>))
    ensures
        lines_view(r.0@) == fit_grid(lines_view(g@), rows as int, cols as int),
        rows < g@.len() ==> lines_view(r.1@) == fit_lines(lines_view(g@), cols as int).take(g@.len() - rows),
        rows >= g@.len() ==> r.1@.len() == 0,
{
    let f = fitted_rows(g, cols);
    let mut out: Vec<Vec<TerminalCell>> = Vec::new();
    let mut dropped: Vec<Vec<TerminalCell>> = Vec::new();
    if rows >= f.len() {
        copy_rows(&f, 0, f.len(), &mut out);
        push_blank_rows(&mut out, rows - f.len(), cols);
        assert(lines_view(f@).subrange(0, f@.len() as int) =~= lines_view(f@));
    } else {
        let k = f.len() - rows;
        copy_rows(&f, 0, k, &mut dropped);
        copy_rows(&f, k, f.len(), &mut out);
        assert(lines_view(out@) =~= lines_view(f@).skip(k as int));
        assert(lines_view(dropped@) =~= lines_view(f@).take(k as int));
    }
    (out, dropped)
}

fn clamp_pair(c: (usize, usize), rows: usize, cols: usize) -> (r: (usize, usize))
    requires
        rows >= 1,
        cols >= 1,
    ensures
        (r.0 as int, r.1 as int) == clamp_cursor((c.0 as int, c.1 as int), rows as int, cols as int),
{
    (min_usize(c.0, rows - 1), min_usize(c.1, cols - 1))
}

impl Screen {
    pub closed spec fn wf(&self) -> bool {
        model_wf(self@)
    }

    /// A blank screen of at least one row and two columns, keeping up to
    /// `scrollback_limit` lines of scrollback.
    pub fn new(rows: usize, cols: usize, scrollback_limit: usize) -> (s: Self)
        requires
            rows <= max_extent(),
            cols <= max_extent(),
        ensures
            s.wf(),
            s@ == initial(rows as int, cols as int, scrollback_limit as int),
    {
        let rows = if rows < 1 { 1 } else { rows };
        let cols = if cols < 2 { 2 } else { cols };
        let s = Screen {
            rows,
            cols,
            grid: blank_grid(rows, cols),
            primary: None,
            scrollback: VecDeque::new(),
            scrollback_limit,
            cursor_row: 0,
            cursor_col: 0,
            saved_cursor: (0, 0),
            scroll_top: 0,
            scroll_bottom: rows - 1,
            style: CellStyle::default(),
            cursor_visible: true,
            application_cursor: false,
            bracketed_paste: false,
            alternate_screen: false,
            title: None,
        };
        assert(lines_view(s.scrollback@) =~= Seq::<Seq<TerminalCell>>::empty());
        s
    }

    /// Whether lines can be inserted or deleted at the cursor: it is within
    /// the scroll region or on the row just below it.
    pub fn lines_can_shift(&self) -> (b: bool)
        ensures
            b == (self@.cursor_row <= self@.bottom + 1),
    {
        self.cursor_row <= self.scroll_bottom || self.cursor_row - self.scroll_bottom == 1
    }

    /// The number of lines in the scrollback.
    pub fn scrollback_len(&self) -> (n: usize)
        ensures
            n == self@.scrollback.len(),
    {
        self.scrollback.len()
    }

    /// What the screen shows scrolled back by `scroll_offset` lines.
    pub fn snapshot(&self, scroll_offset: usize) -> (s: TerminalSnapshot)
        requires
            self.wf(),
        ensures
            lines_view(s.lines@) == snapshot_lines(self@, scroll_offset as int),
            s.cursor_row == self@.cursor_row,
            s.cursor_col == self@.cursor_col,
            s.cursor_visible == (self@.cursor_visible && scroll_offset == 0),
            s.application_cursor == self@.application_cursor,
            s.bracketed_paste == self@.bracketed_paste,
            s.alternate_screen == self@.alternate_screen,
            opt_text(s.title) == self@.title,
    {
        let mut lines: Vec<Vec<TerminalCell>> = Vec::new();
        if self.alternate_screen || scroll_offset == 0 {
            copy_rows(&self.grid, 0, self.grid.len(), &mut lines);
            assert(lines_view(self.grid@).subrange(0, self.grid@.len() as int) =~= lines_view(self.grid@));
        } else {
            let sb = self.scrollback.len();
            let m = min_usize(scroll_offset, sb);
            let start = sb - m;
            let ghost history = self@.scrollback + self@.grid;
            assert(snapshot_lines(self@, scroll_offset as int) =~= history.subrange(
                start as int,
                start + self.rows,
            ));
            let mut j: usize = 0;
            while j < self.rows
                invariant
                    j <= self.rows == self@.rows,
                    sb == self@.scrollback.len(),
                    m <= sb,
                    start == sb - m,
                    self@.grid.len() == self@.rows,
                    history == self@.scrollback + self@.grid,
                    self@.scrollback == lines_view(self.scrollback@),
                    self@.grid == lines_view(self.grid@),
                    lines_view(lines@) == history.subrange(start as int, start + j),
                decreases self.rows - j,
            {
                let row = if j < m {
                    copy_row(&self.scrollback[start + j])
                } else {
                    copy_row(&self.grid[j - m])
                };
                assert(row@ == history[start + j]);
                let ghost before = lines@;
                lines.push(row);
                assert(lines@ =~= before.push(row));
                assert(lines_view(lines@) =~= lines_view(before).push(row@));
                j = j + 1;
                assert(lines_view(lines@) =~= history.subrange(start as int, start + j));
            }
        }
        let title = match &self.title {
            Some(t) => Some(t.clone()),
            None => None,
        };
        TerminalSnapshot {
            lines,
            cursor_row: self.cursor_row,
            cursor_col: self.cursor_col,
            cursor_visible: self.cursor_visible && scroll_offset == 0,
            application_cursor: self.application_cursor,
            bracketed_paste: self.bracketed_paste,
            alternate_screen: self.alternate_screen,
            title,
        }
    }

    /// Adds lines to the scrollback, which keeps the last lines up to its
    /// limit; nothing is kept with a limit of 0.
    fn push_scrollback_lines(&mut self, lines: Vec<Vec<TerminalCell>>)
        requires
            old(self).wf(),
        ensures
            final(self)@ == spec_push_scrollback(old(self)@, lines_view(lines@)),
            final(self).wf(),
    {
        if self.scrollback_limit == 0 {
            return;
        }
        let ghost all = self@.scrollback + lines_view(lines@);
        let mut i: usize = 0;
        while i < lines.len()
            invariant
                i <= lines@.len(),
                old(self).wf(),
                self@ == (ScreenModel { scrollback: self@.scrollback, ..old(self)@ }),
                self@.scrollback == old(self)@.scrollback + lines_view(lines@).take(i as int),
                self@.scrollback == lines_view(self.scrollback@),
            decreases lines.len() - i,
        {
            let row = copy_row(&lines[i]);
            let ghost before = self.scrollback@;
            self.scrollback.push_back(row);
            assert(lines_view(self.scrollback@) =~= lines_view(before).push(row@));
            i = i + 1;
            assert(self@.scrollback =~= old(self)@.scrollback + lines_view(lines@).take(i as int));
        }
        assert(lines_view(lines@).take(i as int) =~= lines_view(lines@));
        let ghost full = self@.scrollback;
        assert(full.skip(0) =~= full);
        while self.scrollback.len() > self.scrollback_limit
            invariant
                old(self).wf(),
                self.scrollback_limit == old(self).scrollback_limit,
                self@ == (ScreenModel { scrollback: self@.scrollback, ..old(self)@ }),
                self@.scrollback == lines_view(self.scrollback@),
                full.len() >= self@.scrollback.len(),
                full.len() > self.scrollback_limit ==> self@.scrollback.len() >= self.scrollback_limit,
                full.len() <= self.scrollback_limit ==> self@.scrollback.len() == full.len(),
                self@.scrollback == full.skip(full.len() - self@.scrollback.len()),
            decreases self.scrollback@.len(),
        {
            let ghost before = self.scrollback@;
            let _ = self.scrollback.pop_front();
            assert(lines_view(self.scrollback@) =~= lines_view(before).drop_first());
            assert(self@.scrollback =~= full.skip(full.len() - self@.scrollback.len()));
        }
        proof {
            if full.len() <= self.scrollback_limit {
                assert(full.skip(0) =~= full);
                assert(self@.scrollback =~= full);
            }
        }
    }

    /// Keeps a line in the scrollback.
    pub fn push_scrollback(&mut self, line: Vec<TerminalCell>)
        requires
            old(self).wf(),
        ensures
            final(self)@ == spec_push_scrollback(old(self)@, seq![line@]),
            final(self).wf(),
    {
        let mut lines: Vec<Vec<TerminalCell>> = Vec::new();
        lines.push(line);
        assert(lines_view(lines@) =~= seq![line@]);
        self.push_scrollback_lines(lines);
    }

    /// Rows `a..=b` of the grid moved up by `n`.
    fn grid_shifted_up(&self, a: usize, b: usize, n: usize) -> (g: Vec<Vec<TerminalCell>>)
        requires
            self.wf(),
            a <= b < self@.rows,
            n <= b - a + 1,
        ensures
            lines_view(g@) == shifted_up(self@.grid, a as int, b as int, n as int, self@.cols),
    {
        let mut g: Vec<Vec<TerminalCell>> = Vec::new();
        copy_rows(&self.grid, 0, a, &mut g);
        copy_rows(&self.grid, a + n, b + 1, &mut g);
        push_blank_rows(&mut g, n, self.cols);
        copy_rows(&self.grid, b + 1, self.grid.len(), &mut g);
        assert(lines_view(g@) =~= shifted_up(self@.grid, a as int, b as int, n as int, self@.cols));
        g
    }

    /// Rows `a..=b` of the grid moved down by `n`.
    fn grid_shifted_down(&self, a: usize, b: usize, n: usize) -> (g: Vec<Vec<TerminalCell>>)
        requires
            self.wf(),
            a <= b < self@.rows,
            n <= b - a + 1,
        ensures
            lines_view(g@) == shifted_down(self@.grid, a as int, b as int, n as int, self@.cols),
    {
        let mut g: Vec<Vec<TerminalCell>> = Vec::new();
        copy_rows(&self.grid, 0, a, &mut g);
        push_blank_rows(&mut g, n, self.cols);
        copy_rows(&self.grid, a, b + 1 - n, &mut g);
        copy_rows(&self.grid, b + 1, self.grid.len(), &mut g);
        assert(lines_view(g@) =~= shifted_down(self@.grid, a as int, b as int, n as int, self@.cols));
        g
    }

    /// Scrolls the scroll region up by `count` lines.
    pub fn scroll_up(&mut self, count: usize)
        requires
            old(self).wf(),
        ensures
            final(self).wf(),
            final(self)@ == spec_scroll_up(old(self)@, count as int),
    {
        let n = min_usize(count, self.scroll_bottom - self.scroll_top + 1);
        let g = self.grid_shifted_up(self.scroll_top, self.scroll_bottom, n);
        let mut removed: Vec<Vec<TerminalCell>> = Vec::new();
        copy_rows(&self.grid, self.scroll_top, self.scroll_top + n, &mut removed);
        assert(lines_view(removed@) =~= old(self)@.grid.subrange(old(self)@.top, old(self)@.top + n));
        self.grid = g;
        assert(grid_shaped(self@.grid, self@.rows, self@.cols)) by {
            assert forall|r: int| 0 <= r < self@.rows implies (#[trigger] self@.grid[r]).len() == self@.cols by {
                let og = old(self)@.grid;
                let t = old(self)@.top;
                let b = old(self)@.bottom;
                if r < t {
                    assert(self@.grid[r] == og[r]);
                } else if r < b + 1 - n {
                    assert(self@.grid[r] == og[r + n]);
                } else if r < b + 1 {
                    assert(self@.grid[r] == blank_line(self@.cols));
                } else {
                    assert(self@.grid[r] == og[r]);
                }
            }
        }
        if self.scroll_top == 0 && !self.alternate_screen {
            self.push_scrollback_lines(removed);
        }
    }

    /// Scrolls the scroll region down by `count` lines.
    pub fn scroll_down(&mut self, count: usize)
        requires
            old(self).wf(),
        ensures
            final(self).wf(),
            final(self)@ == spec_scroll_down(old(self)@, count as int),
    {
        let n = min_usize(count, self.scroll_bottom - self.scroll_top + 1);
        let g = self.grid_shifted_down(self.scroll_top, self.scroll_bottom, n);
        self.grid = g;
        assert(grid_shaped(self@.grid, self@.rows, self@.cols)) by {
            assert forall|r: int| 0 <= r < self@.rows implies (#[trigger] self@.grid[r]).len() == self@.cols by {
                let og = old(self)@.grid;
                let t = old(self)@.top;
                let b = old(self)@.bottom;
                if r < t {
                    assert(self@.grid[r] == og[r]);
                } else if r < t + n {
                    assert(self@.grid[r] == blank_line(self@.cols));
                } else if r < b + 1 {
                    assert(self@.grid[r] == og[r - n]);
                } else {
                    assert(self@.grid[r] == og[r]);
                }
            }
        }
    }

    /// Moves to the next line, scrolling at the bottom of the region.
    pub fn line_feed(&mut self)
        requires
            old(self).wf(),
        ensures
            final(self).wf(),
            final(self)@ == spec_line_feed(old(self)@),
    {
        if self.cursor_row == self.scroll_bottom {
            self.scroll_up(1);
        } else {
            self.cursor_row = min_usize(self.cursor_row + 1, self.rows - 1);
        }
    }

    /// Moves to the previous line, scrolling at the top of the region.
    pub fn reverse_index(&mut self)
        requires
            old(self).wf(),
        ensures
            final(self).wf(),
            final(self)@ == spec_reverse_index(old(self)@),
    {
        if self.cursor_row == self.scroll_top {
            self.scroll_down(1);
        } else {
            self.cursor_row = if self.cursor_row > 0 { self.cursor_row - 1 } else { 0 };
        }
    }

    /// Blanks cells `from..to` of row `r`.
    fn blank_cells(&mut self, r: usize, from: usize, to: usize)
        requires
            old(self).wf(),
            r < old(self)@.rows,
            from <= to <= old(self)@.cols,
        ensures
            final(self).wf(),
            final(self)@ == (ScreenModel { grid: blanked(old(self)@.grid, r as int, from as int, to as int), ..old(self)@ }),
    {
        let mut row: Vec<TerminalCell> = Vec::new();
        push_cells(&mut row, &self.grid[r], 0, from);
        push_blank_cells(&mut row, to - from);
        push_cells(&mut row, &self.grid[r], to, self.cols);
        let ghost og = old(self)@.grid;
        assert(row@ =~= og[r as int].take(from as int) + blank_line(to - from) + og[r as int].skip(to as int));
        let ghost before = self.grid@;
        self.grid.set(r, row);
        assert(lines_view(self.grid@) =~= lines_view(before).update(r as int, row@));
        assert(grid_shaped(self@.grid, self@.rows, self@.cols)) by {
            assert forall|k: int| 0 <= k < self@.rows implies (#[trigger] self@.grid[k]).len() == self@.cols by {
                if k != r {
                    assert(self@.grid[k] == og[k]);
                }
            }
        }
    }

    /// Erases in the cursor's line: 0 from the cursor on, 1 up to and with
    /// the cursor, 2 the whole line.
    pub fn erase_line(&mut self, mode: u16)
        requires
            old(self).wf(),
        ensures
            final(self).wf(),
            final(self)@ == spec_erase_line(old(self)@, mode),
    {
        if mode == 0 {
            self.blank_cells(self.cursor_row, self.cursor_col, self.cols);
        } else if mode == 1 {
            self.blank_cells(self.cursor_row, 0, self.cursor_col + 1);
        } else if mode == 2 {
            self.blank_cells(self.cursor_row, 0, self.cols);
        }
    }

    /// Blanks rows `a..b`.
    fn blank_rows(&mut self, a: usize, b: usize)
        requires
            old(self).wf(),
            a <= b <= old(self)@.rows,
        ensures
            final(self).wf(),
            final(self)@ == (ScreenModel { grid: rows_blanked(old(self)@.grid, a as int, b as int, old(self)@.cols), ..old(self)@ }),
    {
        let mut g: Vec<Vec<TerminalCell>> = Vec::new();
        copy_rows(&self.grid, 0, a, &mut g);
        push_blank_rows(&mut g, b - a, self.cols);
        copy_rows(&self.grid, b, self.grid.len(), &mut g);
        let ghost og = old(self)@.grid;
        assert(lines_view(g@) =~= rows_blanked(og, a as int, b as int, self@.cols));
        self.grid = g;
        assert(grid_shaped(self@.grid, self@.rows, self@.cols)) by {
            assert forall|k: int| 0 <= k < self@.rows implies (#[trigger] self@.grid[k]).len() == self@.cols by {
                if k < a || k >= b {
                    assert(self@.grid[k] == og[k]);
                } else {
                    assert(self@.grid[k] == blank_line(self@.cols));
                }
            }
        }
    }

    /// Erases in the display: 0 from the cursor on, 1 up to the cursor, 2
    /// all of it, 3 all of it and the scrollback.
    pub fn erase_display(&mut self, mode: u16)
        requires
            old(self).wf(),
        ensures
            final(self).wf(),
            final(self)@ == spec_erase_display(old(self)@, mode),
    {
        if mode == 0 {
            self.erase_line(0);
            self.blank_rows(self.cursor_row + 1, self.rows);
        } else if mode == 1 {
            self.erase_line(1);
            self.blank_rows(0, self.cursor_row);
        } else if mode == 2 || mode == 3 {
            self.blank_rows(0, self.rows);
            assert(self@.grid =~= blank_lines(self@.rows, self@.cols));
            if mode == 3 {
                self.scrollback.clear();
                assert(lines_view(self.scrollback@) =~= Seq::<Seq<TerminalCell>>::empty());
            }
        }
    }

    /// Shows or leaves the alternate screen; the primary screen and its
    /// cursors are kept meanwhile.
    pub fn set_alternate_screen(&mut self, enabled: bool)
        requires
            old(self).wf(),
        ensures
            final(self).wf(),
            final(self)@ == spec_set_alternate_screen(old(self)@, enabled),
    {
        if enabled && !self.alternate_screen {
            let mut grid = blank_grid(self.rows, self.cols);
            std::mem::swap(&mut grid, &mut self.grid);
            self.primary = Some(PrimaryScreen {
                grid,
                cursor: (self.cursor_row, self.cursor_col),
                saved_cursor: self.saved_cursor,
            });
            self.cursor_row = 0;
            self.cursor_col = 0;
            self.alternate_screen = true;
        } else if !enabled && self.alternate_screen {
            match self.primary.take() {
                Some(p) => {
                    self.grid = p.grid;
                    self.cursor_row = p.cursor.0;
                    self.cursor_col = p.cursor.1;
                    self.saved_cursor = p.saved_cursor;
                    self.alternate_screen = false;
                },
                None => {},
            }
        }
    }

    /// Sets a DEC private mode.
    pub fn set_private_mode(&mut self, mode: u16, enabled: bool)
        requires
            old(self).wf(),
        ensures
            final(self).wf(),
            final(self)@ == spec_set_private_mode(old(self)@, mode, enabled),
    {
        if mode == 1 {
            self.application_cursor = enabled;
        } else if mode == 25 {
            self.cursor_visible = enabled;
        } else if mode == 1047 || mode == 1049 {
            self.set_alternate_screen(enabled);
        } else if mode == 2004 {
            self.bracketed_paste = enabled;
        }
    }

    /// Back to a fresh screen of the same size and scrollback limit.
    pub fn reset(&mut self)
        requires
            old(self).wf(),
        ensures
            final(self).wf(),
            final(self)@ == initial(old(self)@.rows, old(self)@.cols, old(self)@.limit),
    {
        let limit = self.scrollback_limit;
        *self = Screen::new(self.rows, self.cols, limit);
    }

    /// Resizes to at least one row and two columns.
    pub fn resize(&mut self, rows: usize, cols: usize)
        requires
            old(self).wf(),
            rows <= max_extent(),
            cols <= max_extent(),
        ensures
            final(self).wf(),
            final(self)@ == spec_resize(old(self)@, rows as int, cols as int),
    {
        let rows = if rows < 1 { 1 } else { rows };
        let cols = if cols < 2 { 2 } else { cols };
        let (g, dropped) = fitted_grid(&self.grid, rows, cols);
        let ghost m0 = old(self)@;
        if rows < self.grid.len() && !self.alternate_screen {
            self.push_scrollback_lines(dropped);
        }
        let ghost m2 = self@;
        self.grid = g;
        let primary = match self.primary.take() {
            Some(p) => {
                let (pg, _) = fitted_grid(&p.grid, rows, cols);
                Some(PrimaryScreen {
                    grid: pg,
                    cursor: clamp_pair(p.cursor, rows, cols),
                    saved_cursor: clamp_pair(p.saved_cursor, rows, cols),
                })
            },
            None => None,
        };
        self.primary = primary;
        self.rows = rows;
        self.cols = cols;
        self.cursor_row = min_usize(self.cursor_row, rows - 1);
        self.cursor_col = min_usize(self.cursor_col, cols - 1);
        self.saved_cursor = clamp_pair(self.saved_cursor, rows, cols);
        self.scroll_top = 0;
        self.scroll_bottom = rows - 1;
        proof {
            lemma_fit_grid_shaped(m0.grid, rows as int, cols as int);
            match m0.primary {
                Some(p) => lemma_fit_grid_shaped(p.grid, rows as int, cols as int),
                None => {},
            }
        }
        assert(self@ == spec_resize(m0, rows as int, cols as int));
    }
}

pub proof fn lemma_fit_grid_shaped(g: Seq<Seq<TerminalCell>>, rows: int, cols: int)
    requires
        rows >= 0,
        cols >= 0,
    ensures
        grid_shaped(fit_grid(g, rows, cols), rows, cols),
{
    let f = fit_lines(g, cols);
    let r = fit_grid(g, rows, cols);
    assert forall|k: int| 0 <= k < rows implies (#[trigger] r[k]).len() == cols by {
        if rows >= f.len() {
            if k < f.len() {
                assert(r[k] == fit_line(g[k], cols));
            } else {
                assert(r[k] == blank_line(cols));
            }
        } else {
            assert(r[k] == f[k + f.len() - rows]);
            assert(f[k + f.len() - rows] == fit_line(g[k + f.len() - rows], cols));
        }
    }
}

/// Cell `c` of row `r` set.
pub open spec fn with_cell(g: Seq<Seq<TerminalCell>>, r: int, c: int, cell: TerminalCell) -> Seq<Seq<TerminalCell>> {
    g.update(r, g[r].update(c, cell))
}

/// The columns a printed char takes (0 for control characters).
pub open spec fn print_width(c: char) -> int {
    match crate::unicode::char_display_width(c) {
        Some(w) => w as int,
        None => 0,
    }
}

/// A printed char: wraps first if it does not fit, a wide char leaves a
/// continuation cell after it, and the cursor wraps once the line is full.
pub open spec fn spec_put_char(m: ScreenModel, c: char) -> ScreenModel {
    let w = print_width(c);
    if w == 0 {
        m
    } else {
        let m1 = if m.cursor_col + w > m.cols {
            spec_line_feed(ScreenModel { cursor_col: 0, ..m })
        } else {
            m
        };
        let g1 = with_cell(
            m1.grid,
            m1.cursor_row,
            m1.cursor_col,
            TerminalCell { character: c, style: m1.style, wide_continuation: false },
        );
        let g2 = if w == 2 && m1.cursor_col + 1 < m1.cols {
            with_cell(
                g1,
                m1.cursor_row,
                m1.cursor_col + 1,
                TerminalCell { character: ' ', style: m1.style, wide_continuation: true },
            )
        } else {
            g1
        };
        let col = m1.cursor_col + w;
        if col >= m.cols {
            spec_line_feed(ScreenModel { grid: g2, cursor_col: 0, ..m1 })
        } else {
            ScreenModel { grid: g2, cursor_col: col, ..m1 }
        }
    }
}

/// C0 controls: backspace, tab to the next multiple of 8, line feeds and
/// carriage return.
pub open spec fn spec_execute(m: ScreenModel, byte: u8) -> ScreenModel {
    if byte == 0x08 {
        ScreenModel { cursor_col: if m.cursor_col > 0 { m.cursor_col - 1 } else { 0 }, ..m }
    } else if byte == 0x09 {
        ScreenModel { cursor_col: min_int((m.cursor_col / 8 + 1) * 8, m.cols - 1), ..m }
    } else if byte == 0x0a || byte == 0x0b || byte == 0x0c {
        spec_line_feed(m)
    } else if byte == 0x0d {
        ScreenModel { cursor_col: 0, ..m }
    } else {
        m
    }
}

pub open spec fn clamp_byte(v: u16) -> u8 {
    if v > 255 { 255 } else { v as u8 }
}

/// An extended color (`5;n` or `2;r;g;b`) at the start of `vals`, and how
/// many values it takes; the color stays where none is there.
pub open spec fn spec_extended_color(vals: Seq<u16>, color: TerminalColor) -> (TerminalColor, int) {
    if vals.len() >= 2 && vals[0] == 5 {
        (TerminalColor::Indexed(clamp_byte(vals[1])), 2)
    } else if vals.len() >= 4 && vals[0] == 2 {
        (TerminalColor::Rgb(clamp_byte(vals[1]), clamp_byte(vals[2]), clamp_byte(vals[3])), 4)
    } else {
        (color, 0)
    }
}

/// Select Graphic Rendition, from value `i` on.
pub open spec fn sgr_from(st: CellStyle, vals: Seq<u16>, i: int) -> CellStyle
    decreases vals.len() - i,
{
    if i < 0 || i >= vals.len() {
        st
    } else {
        let v = vals[i];
        let (st2, skip): (CellStyle, int) = if v == 0 {
            (default_style(), 0)
        } else if v == 1 {
            (CellStyle { bold: true, ..st }, 0)
        } else if v == 3 {
            (CellStyle { italic: true, ..st }, 0)
        } else if v == 4 {
            (CellStyle { underline: true, ..st }, 0)
        } else if v == 7 {
            (CellStyle { inverse: true, ..st }, 0)
        } else if v == 22 {
            (CellStyle { bold: false, ..st }, 0)
        } else if v == 23 {
            (CellStyle { italic: false, ..st }, 0)
        } else if v == 24 {
            (CellStyle { underline: false, ..st }, 0)
        } else if v == 27 {
            (CellStyle { inverse: false, ..st }, 0)
        } else if 30 <= v <= 37 {
            (CellStyle { foreground: TerminalColor::Indexed((v - 30) as u8), ..st }, 0)
        } else if v == 38 {
            let (c, k) = spec_extended_color(vals.skip(i + 1), st.foreground);
            (CellStyle { foreground: c, ..st }, k)
        } else if v == 39 {
            (CellStyle { foreground: TerminalColor::Default, ..st }, 0)
        } else if 40 <= v <= 47 {
            (CellStyle { background: TerminalColor::Indexed((v - 40) as u8), ..st }, 0)
        } else if v == 48 {
            let (c, k) = spec_extended_color(vals.skip(i + 1), st.background);
            (CellStyle { background: c, ..st }, k)
        } else if v == 49 {
            (CellStyle { background: TerminalColor::Default, ..st }, 0)
        } else if 90 <= v <= 97 {
            (CellStyle { foreground: TerminalColor::Indexed((v - 90 + 8) as u8), ..st }, 0)
        } else if 100 <= v <= 107 {
            (CellStyle { background: TerminalColor::Indexed((v - 100 + 8) as u8), ..st }, 0)
        } else {
            (st, 0)
        };
        sgr_from(st2, vals, i + skip + 1)
    }
}

/// The style after an SGR sequence; no values reset it.
pub open spec fn spec_sgr(st: CellStyle, vals: Seq<u16>) -> CellStyle {
    if vals.len() == 0 {
        default_style()
    } else {
        sgr_from(st, vals, 0)
    }
}

/// One colour value of SGR sets exactly one colour: 30-37 and 90-97 the
/// foreground, 40-47 and 100-107 the background (the bright ones from 8 on);
/// the other colour and the attributes stay.
pub proof fn lemma_sgr_colour_value(st: CellStyle, v: u16)
    ensures
        ({
            let r = spec_sgr(st, seq![v]);
            &&& (30 <= v <= 37 ==> r == CellStyle { foreground: TerminalColor::Indexed((v - 30) as u8), ..st })
            &&& (40 <= v <= 47 ==> r == CellStyle { background: TerminalColor::Indexed((v - 40) as u8), ..st })
            &&& (90 <= v <= 97 ==> r == CellStyle { foreground: TerminalColor::Indexed((v - 82) as u8), ..st })
            &&& (100 <= v <= 107 ==> r == CellStyle { background: TerminalColor::Indexed((v - 92) as u8), ..st })
            &&& ((30 <= v <= 37 || 90 <= v <= 97) ==> r.background == st.background)
            &&& ((40 <= v <= 47 || 100 <= v <= 107) ==> r.foreground == st.foreground)
        }),
{
    reveal_with_fuel(sgr_from, 3);
}

/// The attribute values of SGR: 0 resets, 1/3/4/7 turn bold, italic,
/// underline and inverse on, 22/23/24/27 turn them off, 39/49 restore the
/// default colours; each leaves the rest of the style; no values reset.
pub proof fn lemma_sgr_attribute_value(st: CellStyle, v: u16)
    ensures
        ({
            let r = spec_sgr(st, seq![v]);
            &&& (v == 0 ==> r == default_style())
            &&& (v == 1 ==> r == CellStyle { bold: true, ..st })
            &&& (v == 3 ==> r == CellStyle { italic: true, ..st })
            &&& (v == 4 ==> r == CellStyle { underline: true, ..st })
            &&& (v == 7 ==> r == CellStyle { inverse: true, ..st })
            &&& (v == 22 ==> r == CellStyle { bold: false, ..st })
            &&& (v == 23 ==> r == CellStyle { italic: false, ..st })
            &&& (v == 24 ==> r == CellStyle { underline: false, ..st })
            &&& (v == 27 ==> r == CellStyle { inverse: false, ..st })
            &&& (v == 39 ==> r == CellStyle { foreground: TerminalColor::Default, ..st })
            &&& (v == 49 ==> r == CellStyle { background: TerminalColor::Default, ..st })
        }),
        spec_sgr(st, Seq::empty()) == default_style(),
{
    reveal_with_fuel(sgr_from, 3);
}

/// Extended colours: `38;5;n` and `48;5;n` pick colour `n` of the palette,
/// `38;2;r;g;b` and `48;2;r;g;b` a true colour, for the foreground and the
/// background respectively.
pub proof fn lemma_sgr_extended_colours(st: CellStyle, n: u8, r: u8, g: u8, b: u8)
    ensures
        spec_sgr(st, seq![38, 5, n as u16]) == (CellStyle { foreground: TerminalColor::Indexed(n), ..st }),
        spec_sgr(st, seq![48, 5, n as u16]) == (CellStyle { background: TerminalColor::Indexed(n), ..st }),
        spec_sgr(st, seq![38, 2, r as u16, g as u16, b as u16]) == (CellStyle { foreground: TerminalColor::Rgb(r, g, b), ..st }),
        spec_sgr(st, seq![48, 2, r as u16, g as u16, b as u16]) == (CellStyle { background: TerminalColor::Rgb(r, g, b), ..st }),
{
    reveal_with_fuel(sgr_from, 3);
    let a = seq![38u16, 5, n as u16];
    assert(a.skip(1) =~= seq![5u16, n as u16]);
    let b1 = seq![48u16, 5, n as u16];
    assert(b1.skip(1) =~= seq![5u16, n as u16]);
    let c = seq![38u16, 2, r as u16, g as u16, b as u16];
    assert(c.skip(1) =~= seq![2u16, r as u16, g as u16, b as u16]);
    let d = seq![48u16, 2, r as u16, g as u16, b as u16];
    assert(d.skip(1) =~= seq![2u16, r as u16, g as u16, b as u16]);
}

/// A foreground value followed by a background value sets both.
pub proof fn lemma_sgr_foreground_then_background(st: CellStyle, f: u16, b: u16)
    requires
        30 <= f <= 37,
        40 <= b <= 47,
    ensures
        spec_sgr(st, seq![f, b]).foreground == TerminalColor::Indexed((f - 30) as u8),
        spec_sgr(st, seq![f, b]).background == TerminalColor::Indexed((b - 40) as u8),
        spec_sgr(st, seq![f, b]).bold == st.bold,
{
    reveal_with_fuel(sgr_from, 4);
}

fn clamp_to_byte(v: u16) -> (b: u8)
    ensures
        b == clamp_byte(v),
{
    if v > 255 { 255 } else { v as u8 }
}

/// Reads an extended color from `vals[from..]` into `color`; returns how
/// many values it took.
pub fn parse_extended_color(vals: &Vec<u16>, from: usize, color: &mut TerminalColor) -> (k: usize)
    requires
        from <= vals@.len(),
    ensures
        (*final(color), k as int) == spec_extended_color(vals@.skip(from as int), *old(color)),
{
    let n = vals.len() - from;
    if n >= 2 && vals[from] == 5 {
        *color = TerminalColor::Indexed(clamp_to_byte(vals[from + 1]));
        2
    } else if n >= 4 && vals[from] == 2 {
        *color = TerminalColor::Rgb(
            clamp_to_byte(vals[from + 1]),
            clamp_to_byte(vals[from + 2]),
            clamp_to_byte(vals[from + 3]),
        );
        4
    } else {
        0
    }
}

/// A CSI parameter: the value given (or `d`, as 16 bits), at least `d`.
pub open spec fn csi_value(vals: Seq<u16>, i: int, d: int) -> int {
    let v: u16 = if 0 <= i < vals.len() { vals[i] } else { d as u16 };
    if (v as int) < d { d } else { v as int }
}

pub open spec fn first_or_zero(vals: Seq<u16>) -> u16 {
    if vals.len() > 0 { vals[0] } else { 0 }
}

pub open spec fn sat_sub(a: int, b: int) -> int {
    if a > b { a - b } else { 0 }
}

/// Private modes set or reset in turn, from value `i` on.
pub open spec fn modes_from(m: ScreenModel, vals: Seq<u16>, i: int, enabled: bool) -> ScreenModel
    decreases vals.len() - i,
{
    if i < 0 || i >= vals.len() {
        m
    } else {
        modes_from(spec_set_private_mode(m, vals[i], enabled), vals, i + 1, enabled)
    }
}

/// A CSI sequence with its parameters (each the first of its group, or 0).
pub open spec fn spec_csi(m: ScreenModel, vals: Seq<u16>, private: bool, ignore: bool, action: char) -> ScreenModel {
    let v0 = csi_value(vals, 0, 1);
    if ignore {
        m
    } else if action == 'A' {
        ScreenModel { cursor_row: sat_sub(m.cursor_row, v0), ..m }
    } else if action == 'B' {
        ScreenModel { cursor_row: min_int(m.cursor_row + v0, m.rows - 1), ..m }
    } else if action == 'C' {
        ScreenModel { cursor_col: min_int(m.cursor_col + v0, m.cols - 1), ..m }
    } else if action == 'D' {
        ScreenModel { cursor_col: sat_sub(m.cursor_col, v0), ..m }
    } else if action == 'E' {
        ScreenModel { cursor_row: min_int(m.cursor_row + v0, m.rows - 1), cursor_col: 0, ..m }
    } else if action == 'F' {
        ScreenModel { cursor_row: sat_sub(m.cursor_row, v0), cursor_col: 0, ..m }
    } else if action == 'G' {
        ScreenModel { cursor_col: min_int(v0 - 1, m.cols - 1), ..m }
    } else if action == 'H' || action == 'f' {
        ScreenModel {
            cursor_row: min_int(v0 - 1, m.rows - 1),
            cursor_col: min_int(csi_value(vals, 1, 1) - 1, m.cols - 1),
            ..m
        }
    } else if action == 'J' {
        spec_erase_display(m, first_or_zero(vals))
    } else if action == 'K' {
        spec_erase_line(m, first_or_zero(vals))
    } else if (action == 'L' || action == 'M') && m.cursor_row > m.bottom {
        m
    } else if action == 'L' {
        let n = min_int(v0, m.bottom - m.cursor_row + 1);
        ScreenModel { grid: shifted_down(m.grid, m.cursor_row, m.bottom, n, m.cols), ..m }
    } else if action == 'M' {
        let n = min_int(v0, m.bottom - m.cursor_row + 1);
        ScreenModel { grid: shifted_up(m.grid, m.cursor_row, m.bottom, n, m.cols), ..m }
    } else if action == '@' {
        let n = min_int(v0, m.cols - m.cursor_col);
        let line = m.grid[m.cursor_row];
        ScreenModel {
            grid: m.grid.update(
                m.cursor_row,
                line.take(m.cursor_col) + blank_line(n) + line.subrange(m.cursor_col, m.cols - n),
            ),
            ..m
        }
    } else if action == 'P' {
        let n = min_int(v0, m.cols - m.cursor_col);
        let line = m.grid[m.cursor_row];
        ScreenModel {
            grid: m.grid.update(
                m.cursor_row,
                line.take(m.cursor_col) + line.skip(m.cursor_col + n) + blank_line(n),
            ),
            ..m
        }
    } else if action == 'S' {
        spec_scroll_up(m, v0)
    } else if action == 'T' {
        spec_scroll_down(m, v0)
    } else if action == 'm' {
        ScreenModel { style: spec_sgr(m.style, vals), ..m }
    } else if action == 'r' {
        let t = min_int(v0 - 1, m.rows - 1);
        let b = min_int(csi_value(vals, 1, m.rows) - 1, m.rows - 1);
        ScreenModel {
            top: if t >= b { 0 } else { t },
            bottom: if t >= b { m.rows - 1 } else { b },
            cursor_row: 0,
            cursor_col: 0,
            ..m
        }
    } else if action == 's' {
        ScreenModel { saved_cursor: (m.cursor_row, m.cursor_col), ..m }
    } else if action == 'u' {
        ScreenModel { cursor_row: m.saved_cursor.0, cursor_col: m.saved_cursor.1, ..m }
    } else if (action == 'h' || action == 'l') && private {
        modes_from(m, vals, 0, action == 'h')
    } else {
        m
    }
}

/// An escape sequence: save and restore the cursor, index, reverse index,
/// and full reset.
pub open spec fn spec_esc(m: ScreenModel, ignore: bool, byte: u8) -> ScreenModel {
    if ignore {
        m
    } else if byte == 0x37 {
        ScreenModel { saved_cursor: (m.cursor_row, m.cursor_col), ..m }
    } else if byte == 0x38 {
        ScreenModel { cursor_row: m.saved_cursor.0, cursor_col: m.saved_cursor.1, ..m }
    } else if byte == 0x44 {
        spec_line_feed(m)
    } else if byte == 0x4d {
        spec_reverse_index(m)
    } else if byte == 0x63 {
        initial(m.rows, m.cols, m.limit)
    } else {
        m
    }
}

/// An operating system command: `0` and `2` set the title.
pub open spec fn spec_osc(m: ScreenModel, params: Seq<Seq<u8>>) -> ScreenModel {
    if params.len() >= 2 && (params[0] == seq![0x30u8] || params[0] == seq![0x32u8]) {
        ScreenModel { title: Some(crate::chars::lossy_utf8(params[1])), ..m }
    } else {
        m
    }
}

/// Text without trailing whitespace (`str::trim_end`).
pub open spec fn trim_end(s: Seq<char>) -> Seq<char>
    decreases s.len(),
{
    if s.len() > 0 && crate::chars::is_ws(s.last()) {
        trim_end(s.drop_last())
    } else {
        s
    }
}

/// The characters of cells, continuation cells left out.
pub open spec fn cells_text(cells: Seq<TerminalCell>) -> Seq<char>
    decreases cells.len(),
{
    if cells.len() == 0 {
        Seq::empty()
    } else {
        let rest = cells_text(cells.drop_last());
        if cells.last().wide_continuation { rest } else { rest.push(cells.last().character) }
    }
}

/// Position `a` is at or before `b`.
pub open spec fn pos_le(a: (usize, usize), b: (usize, usize)) -> bool {
    a.0 < b.0 || (a.0 == b.0 && a.1 <= b.1)
}

/// The selected text of rows `r..=last`, from `a` to `b`.
pub open spec fn selection_from(lines: Seq<Seq<TerminalCell>>, a: (usize, usize), b: (usize, usize), r: int, last: int) -> Seq<char>
    decreases last + 1 - r,
{
    if r > last || r < 0 || r >= lines.len() {
        Seq::empty()
    } else {
        let line = lines[r];
        let from = if r == a.0 { a.1 as int } else { 0 };
        let to = if r == b.0 { min_int(b.1 as int + 1, line.len() as int) } else { line.len() as int };
        let piece = trim_end(cells_text(line.subrange(min_int(from, line.len() as int), to)));
        piece + (if r < b.0 { seq!['\n'] } else { Seq::empty() }) + selection_from(lines, a, b, r + 1, last)
    }
}

/// The text between two positions of a snapshot (in either order),
/// each row's trailing blanks trimmed.
pub open spec fn spec_selected_text(lines: Seq<Seq<TerminalCell>>, start: (usize, usize), end: (usize, usize)) -> Seq<char> {
    let (a, b) = if pos_le(start, end) { (start, end) } else { (end, start) };
    let last = min_int(b.0 as int, sat_sub(lines.len() as int, 1));
    selection_from(lines, a, b, a.0 as int, last)
}

fn csi_value_of(vals: &Vec<u16>, i: usize, d: usize) -> (v: usize)
    ensures
        v as int == csi_value(vals@, i as int, d as int),
{
    let raw: u16 = if i < vals.len() { vals[i] } else { d as u16 };
    let raw = raw as usize;
    if raw < d { d } else { raw }
}

fn sat_sub_usize(a: usize, b: usize) -> (r: usize)
    ensures
        r as int == sat_sub(a as int, b as int),
{
    if a > b { a - b } else { 0 }
}

fn trim_end_chars(s: &Vec<char>) -> (r: Vec<char>)
    ensures
        r@ == trim_end(s@),
{
    let mut n = s.len();
    assert(s@.take(n as int) =~= s@);
    while n > 0 && crate::chars::is_whitespace(s[n - 1])
        invariant
            n <= s@.len(),
            trim_end(s@) == trim_end(s@.take(n as int)),
        decreases n,
    {
        assert(s@.take(n as int).drop_last() =~= s@.take(n - 1));
        assert(s@.take(n as int).last() == s@[n - 1]);
        n = n - 1;
    }
    proof {
        if n > 0 {
            assert(s@.take(n as int).last() == s@[n - 1]);
        }
    }
    let r = crate::chars::sub_vec(s, 0, n);
    assert(r@ =~= s@.take(n as int));
    r
}

impl Screen {
    /// Writes a glyph of `width` columns at the cursor, leaving the cursor.
    fn place(&mut self, c: char, width: usize)
        requires
            old(self).wf(),
        ensures
            final(self).wf(),
            final(self)@ == (ScreenModel {
                grid: {
                    let m = old(self)@;
                    let g1 = with_cell(m.grid, m.cursor_row, m.cursor_col, TerminalCell { character: c, style: m.style, wide_continuation: false });
                    if width == 2 && m.cursor_col + 1 < m.cols {
                        with_cell(g1, m.cursor_row, m.cursor_col + 1, TerminalCell { character: ' ', style: m.style, wide_continuation: true })
                    } else {
                        g1
                    }
                },
                ..old(self)@
            }),
    {
        let ghost m1 = self@;
        let r = self.cursor_row;
        let col = self.cursor_col;
        let mut row = copy_row(&self.grid[r]);
        row.set(col, TerminalCell { character: c, style: self.style, wide_continuation: false });
        if width == 2 && col + 1 < self.cols {
            row.set(col + 1, TerminalCell { character: ' ', style: self.style, wide_continuation: true });
        }
        let ghost before = self.grid@;
        self.grid.set(r, row);
        assert(lines_view(self.grid@) =~= lines_view(before).update(r as int, row@));
        proof {
            let g1 = with_cell(m1.grid, m1.cursor_row, m1.cursor_col, TerminalCell { character: c, style: m1.style, wide_continuation: false });
            if width == 2 && col + 1 < self.cols {
                let g2 = with_cell(g1, m1.cursor_row, m1.cursor_col + 1, TerminalCell { character: ' ', style: m1.style, wide_continuation: true });
                assert(self@.grid =~= g2);
            } else {
                assert(self@.grid =~= g1);
            }
            assert forall|k: int| 0 <= k < self@.rows implies (#[trigger] self@.grid[k]).len() == self@.cols by {
                if k != r {
                    assert(self@.grid[k] == m1.grid[k]);
                }
            }
        }
    }

    /// Prints a char at the cursor (see `spec_put_char`).
    #[verifier::spinoff_prover]
    pub fn put_char(&mut self, c: char)
        requires
            old(self).wf(),
        ensures
            final(self).wf(),
            final(self)@ == spec_put_char(old(self)@, c),
    {
        let width = match crate::unicode::char_width(c) {
            Some(w) => w,
            None => 0,
        };
        if width == 0 {
            return;
        }
        if self.cursor_col + width > self.cols {
            self.cursor_col = 0;
            self.line_feed();
        }
        let col = self.cursor_col;
        self.place(c, width);
        let next = col + width;
        if next >= self.cols {
            self.cursor_col = 0;
            self.line_feed();
        } else {
            self.cursor_col = next;
        }
    }

    /// A C0 control byte.
    pub fn execute(&mut self, byte: u8)
        requires
            old(self).wf(),
        ensures
            final(self).wf(),
            final(self)@ == spec_execute(old(self)@, byte),
    {
        if byte == 0x08 {
            self.cursor_col = if self.cursor_col > 0 { self.cursor_col - 1 } else { 0 };
        } else if byte == 0x09 {
            self.cursor_col = min_usize((self.cursor_col / 8 + 1) * 8, self.cols - 1);
        } else if byte == 0x0a || byte == 0x0b || byte == 0x0c {
            self.line_feed();
        } else if byte == 0x0d {
            self.cursor_col = 0;
        }
    }

    /// Select Graphic Rendition: sets the style of what is printed next.
    pub fn sgr(&mut self, values: &Vec<u16>)
        requires
            old(self).wf(),
        ensures
            final(self).wf(),
            final(self)@ == (ScreenModel { style: spec_sgr(old(self)@.style, values@), ..old(self)@ }),
    {
        if values.len() == 0 {
            self.style = CellStyle::default();
            return;
        }
        let mut st = self.style;
        let mut index: usize = 0;
        while index < values.len()
            invariant
                index <= values@.len() > 0,
                spec_sgr(old(self)@.style, values@) == sgr_from(st, values@, index as int),
            decreases values@.len() - index,
        {
            let v = values[index];
            let mut skip: usize = 0;
            if v == 0 {
                st = CellStyle::default();
            } else if v == 1 {
                st.bold = true;
            } else if v == 3 {
                st.italic = true;
            } else if v == 4 {
                st.underline = true;
            } else if v == 7 {
                st.inverse = true;
            } else if v == 22 {
                st.bold = false;
            } else if v == 23 {
                st.italic = false;
            } else if v == 24 {
                st.underline = false;
            } else if v == 27 {
                st.inverse = false;
            } else if 30 <= v && v <= 37 {
                st.foreground = TerminalColor::Indexed((v - 30) as u8);
            } else if v == 38 {
                skip = parse_extended_color(values, index + 1, &mut st.foreground);
            } else if v == 39 {
                st.foreground = TerminalColor::Default;
            } else if 40 <= v && v <= 47 {
                st.background = TerminalColor::Indexed((v - 40) as u8);
            } else if v == 48 {
                skip = parse_extended_color(values, index + 1, &mut st.background);
            } else if v == 49 {
                st.background = TerminalColor::Default;
            } else if 90 <= v && v <= 97 {
                st.foreground = TerminalColor::Indexed((v - 90 + 8) as u8);
            } else if 100 <= v && v <= 107 {
                st.background = TerminalColor::Indexed((v - 100 + 8) as u8);
            }
            index = index + skip + 1;
        }
        self.style = st;
    }

    /// Restores the saved cursor.
    fn restore_cursor(&mut self)
        requires
            old(self).wf(),
        ensures
            final(self).wf(),
            final(self)@ == (ScreenModel { cursor_row: old(self)@.saved_cursor.0, cursor_col: old(self)@.saved_cursor.1, ..old(self)@ }),
    {
        self.cursor_row = self.saved_cursor.0;
        self.cursor_col = self.saved_cursor.1;
    }

    /// A CSI sequence. Inserting or deleting lines (`L`, `M`) needs the
    /// cursor within the scroll region or just below it, where they do
    /// nothing.
    #[verifier::spinoff_prover]
    #[verifier::rlimit(60)]
    pub fn csi_dispatch(&mut self, values: &Vec<u16>, private: bool, ignore: bool, action: char)
        requires
            old(self).wf(),
            !ignore && (action == 'L' || action == 'M') ==> old(self)@.cursor_row <= old(self)@.bottom + 1,
        ensures
            final(self).wf(),
            final(self)@ == spec_csi(old(self)@, values@, private, ignore, action),
    {
        if ignore {
            return;
        }
        let v0 = csi_value_of(values, 0, 1);
        let first: u16 = if values.len() > 0 { values[0] } else { 0 };
        if action == 'A' {
            self.cursor_row = sat_sub_usize(self.cursor_row, v0);
        } else if action == 'B' {
            self.cursor_row = min_usize(self.cursor_row + v0, self.rows - 1);
        } else if action == 'C' {
            self.cursor_col = min_usize(self.cursor_col + v0, self.cols - 1);
        } else if action == 'D' {
            self.cursor_col = sat_sub_usize(self.cursor_col, v0);
        } else if action == 'E' {
            self.cursor_row = min_usize(self.cursor_row + v0, self.rows - 1);
            self.cursor_col = 0;
        } else if action == 'F' {
            self.cursor_row = sat_sub_usize(self.cursor_row, v0);
            self.cursor_col = 0;
        } else if action == 'G' {
            self.cursor_col = min_usize(v0 - 1, self.cols - 1);
        } else if action == 'H' || action == 'f' {
            let v1 = csi_value_of(values, 1, 1);
            self.cursor_row = min_usize(v0 - 1, self.rows - 1);
            self.cursor_col = min_usize(v1 - 1, self.cols - 1);
        } else if action == 'J' {
            self.erase_display(first);
        } else if action == 'K' {
            self.erase_line(first);
        } else if (action == 'L' || action == 'M') && self.cursor_row > self.scroll_bottom {
        } else if action == 'L' || action == 'M' {
            let n = min_usize(v0, self.scroll_bottom - self.cursor_row + 1);
            let g = if action == 'L' {
                self.grid_shifted_down(self.cursor_row, self.scroll_bottom, n)
            } else {
                self.grid_shifted_up(self.cursor_row, self.scroll_bottom, n)
            };
            let ghost og = self@.grid;
            let ghost t = self@.cursor_row;
            let ghost b = self@.bottom;
            self.grid = g;
            assert(grid_shaped(self@.grid, self@.rows, self@.cols)) by {
                assert forall|r: int| 0 <= r < self@.rows implies (#[trigger] self@.grid[r]).len() == self@.cols by {
                    if r < t || r > b {
                        assert(self@.grid[r] == og[r]);
                    } else if action == 'L' {
                        if r < t + n {
                            assert(self@.grid[r] == blank_line(self@.cols));
                        } else {
                            assert(self@.grid[r] == og[r - n]);
                        }
                    } else {
                        if r < b + 1 - n {
                            assert(self@.grid[r] == og[r + n]);
                        } else {
                            assert(self@.grid[r] == blank_line(self@.cols));
                        }
                    }
                }
            }
        } else if action == '@' || action == 'P' {
            let n = min_usize(v0, self.cols - self.cursor_col);
            let r = self.cursor_row;
            let col = self.cursor_col;
            let mut row: Vec<TerminalCell> = Vec::new();
            push_cells(&mut row, &self.grid[r], 0, col);
            if action == '@' {
                push_blank_cells(&mut row, n);
                push_cells(&mut row, &self.grid[r], col, self.cols - n);
            } else {
                push_cells(&mut row, &self.grid[r], col + n, self.cols);
                push_blank_cells(&mut row, n);
            }
            let ghost og = self@.grid;
            proof {
                if action == '@' {
                    assert(row@ =~= og[r as int].take(col as int) + blank_line(n as int) + og[r as int].subrange(col as int, self@.cols - n));
                } else {
                    assert(row@ =~= og[r as int].take(col as int) + og[r as int].skip(col + n) + blank_line(n as int));
                }
            }
            let ghost before = self.grid@;
            self.grid.set(r, row);
            assert(lines_view(self.grid@) =~= lines_view(before).update(r as int, row@));
            assert(grid_shaped(self@.grid, self@.rows, self@.cols)) by {
                assert forall|k: int| 0 <= k < self@.rows implies (#[trigger] self@.grid[k]).len() == self@.cols by {
                    if k != r {
                        assert(self@.grid[k] == og[k]);
                    }
                }
            }
        } else if action == 'S' {
            self.scroll_up(v0);
        } else if action == 'T' {
            self.scroll_down(v0);
        } else if action == 'm' {
            self.sgr(values);
        } else if action == 'r' {
            let t = min_usize(v0 - 1, self.rows - 1);
            let b = min_usize(csi_value_of(values, 1, self.rows) - 1, self.rows - 1);
            if t >= b {
                self.scroll_top = 0;
                self.scroll_bottom = self.rows - 1;
            } else {
                self.scroll_top = t;
                self.scroll_bottom = b;
            }
            self.cursor_row = 0;
            self.cursor_col = 0;
        } else if action == 's' {
            self.saved_cursor = (self.cursor_row, self.cursor_col);
        } else if action == 'u' {
            self.restore_cursor();
        } else if (action == 'h' || action == 'l') && private {
            let enabled = action == 'h';
            let mut i: usize = 0;
            while i < values.len()
                invariant
                    i <= values@.len(),
                    self.wf(),
                    spec_csi(old(self)@, values@, private, ignore, action) == modes_from(self@, values@, i as int, enabled),
                decreases values@.len() - i,
            {
                self.set_private_mode(values[i], enabled);
                i = i + 1;
            }
        }
    }

    /// An escape sequence.
    pub fn esc_dispatch(&mut self, ignore: bool, byte: u8)
        requires
            old(self).wf(),
        ensures
            final(self).wf(),
            final(self)@ == spec_esc(old(self)@, ignore, byte),
    {
        if ignore {
            return;
        }
        if byte == 0x37 {
            self.saved_cursor = (self.cursor_row, self.cursor_col);
        } else if byte == 0x38 {
            self.restore_cursor();
        } else if byte == 0x44 {
            self.line_feed();
        } else if byte == 0x4d {
            self.reverse_index();
        } else if byte == 0x63 {
            self.reset();
        }
    }

    /// An operating system command; `0` and `2` set the window title.
    pub fn osc_dispatch(&mut self, params: &Vec<Vec<u8>>)
        requires
            old(self).wf(),
        ensures
            final(self).wf(),
            final(self)@ == spec_osc(old(self)@, params@.map_values(|p: Vec<u8>| p@)),
    {
        let ghost ps = params@.map_values(|p: Vec<u8>| p@);
        if params.len() >= 2 {
            let p0 = &params[0];
            let is_title = p0.len() == 1 && (p0[0] == 0x30 || p0[0] == 0x32);
            proof {
                assert(ps[0] == p0@);
                if p0@.len() == 1 {
                    if p0[0] == 0x30 {
                        assert(p0@ =~= seq![0x30u8]);
                    }
                    if p0[0] == 0x32 {
                        assert(p0@ =~= seq![0x32u8]);
                    }
                }
            }
            if is_title {
                assert(ps[1] == params@[1]@);
                self.title = Some(crate::chars::utf8_lossy(params[1].as_slice()));
            }
        }
    }

    /// The text between two positions of the snapshot scrolled back by
    /// `scroll_offset` lines.
    pub fn selected_text(&self, scroll_offset: usize, start: (usize, usize), end: (usize, usize)) -> (t: String)
        requires
            self.wf(),
        ensures
            t@ == spec_selected_text(snapshot_lines(self@, scroll_offset as int), start, end),
    {
        let snapshot = self.snapshot(scroll_offset);
        let lines = &snapshot.lines;
        let ghost ls = lines_view(lines@);
        let ordered = start.0 < end.0 || (start.0 == end.0 && start.1 <= end.1);
        let (a, b) = if ordered { (start, end) } else { (end, start) };
        let last = min_usize(b.0, if lines.len() > 0 { lines.len() - 1 } else { 0 });
        let mut out: Vec<char> = Vec::new();
        let mut r = a.0;
        while r <= last && r < lines.len()
            invariant
                ls == lines_view(lines@),
                pos_le(a, b),
                last < lines@.len() || last == 0,
                a.0 <= r,
                spec_selected_text(ls, start, end) == out@ + selection_from(ls, a, b, r as int, last as int),
            decreases last + 1 - r,
        {
            let line = &lines[r];
            assert(ls[r as int] == line@);
            let len = line.len();
            let from: usize = if r == a.0 { a.1 } else { 0 };
            let to: usize = if r == b.0 { min_usize(if b.1 < usize::MAX { b.1 + 1 } else { b.1 }, len) } else { len };
            let from = min_usize(from, len);
            let mut text: Vec<char> = Vec::new();
            let mut k = from;
            while k < to
                invariant
                    from <= k <= to <= len == line@.len(),
                    text@ == cells_text(line@.subrange(from as int, k as int)),
                decreases to - k,
            {
                assert(line@.subrange(from as int, k + 1).drop_last() =~= line@.subrange(from as int, k as int));
                if !line[k].wide_continuation {
                    text.push(line[k].character);
                }
                k = k + 1;
            }
            let piece = trim_end_chars(&text);
            let ghost before = out@;
            crate::chars::push_all(&mut out, &piece);
            if r < b.0 {
                out.push('\n');
            }
            assert(out@ =~= before + piece@ + (if r < b.0 { seq!['\n'] } else { Seq::<char>::empty() }));
            r = r + 1;
        }
        assert(selection_from(ls, a, b, r as int, last as int) =~= Seq::<char>::empty());
        assert(out@ + Seq::<char>::empty() =~= out@);
        crate::chars::chars_to_string(out.as_slice())
    }
}

} // verus!
