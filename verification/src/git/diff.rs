//! Unified diffs as `git diff` prints them.

use vstd::prelude::*;

use crate::chars::{
    chars_eq, chars_to_string, lines, lit, parse_usize, push_all, split_once, starts_with,
    str_to_chars, sub_vec, trim_bounds,
};
use crate::chars;

verus! {

#[derive(Debug, Clone, Copy, PartialEq, Eq, Structural)]
pub enum DiffTarget {
    WorkingTree,
    Staged,
}

#[derive(Debug, Clone, Copy, PartialEq, Eq, Structural)]
pub enum DiffLineKind {
    Context,
    Added,
    Removed,
    Meta,
}

#[derive(Debug, Clone, PartialEq, Eq)]
pub struct DiffLine {
    pub kind: DiffLineKind,
    pub text: String,
    pub old_line: Option<usize>,
    pub new_line: Option<usize>,
}

#[derive(Debug, Clone, PartialEq, Eq)]
pub struct DiffHunk {
    pub old_start: usize,
    pub old_count: usize,
    pub new_start: usize,
    pub new_count: usize,
    pub heading: String,
    pub lines: Vec<DiffLine>,
    /// A standalone patch containing file headers and this hunk.
    pub patch: String,
}

#[derive(Debug, Clone, PartialEq, Eq)]
pub struct FileDiff {
    pub path: String,
    pub target: DiffTarget,
    pub binary: bool,
    pub hunks: Vec<DiffHunk>,
    pub raw: String,
}

pub struct LineModel {
    pub kind: DiffLineKind,
    pub text: Seq<char>,
    pub old_line: Option<usize>,
    pub new_line: Option<usize>,
}

pub struct HunkModel {
    pub old_start: usize,
    pub old_count: usize,
    pub new_start: usize,
    pub new_count: usize,
    pub heading: Seq<char>,
    pub lines: Seq<LineModel>,
    pub patch: Seq<char>,
}

impl DiffLine {
    pub open spec fn model(self) -> LineModel {
        LineModel { kind: self.kind, text: self.text@, old_line: self.old_line, new_line: self.new_line }
    }
}

pub open spec fn line_models(v: Seq<DiffLine>) -> Seq<LineModel> {
    v.map_values(|l: DiffLine| l.model())
}

impl DiffHunk {
    pub open spec fn model(self) -> HunkModel {
        HunkModel {
            old_start: self.old_start,
            old_count: self.old_count,
            new_start: self.new_start,
            new_count: self.new_count,
            heading: self.heading@,
            lines: line_models(self.lines@),
            patch: self.patch@,
        }
    }
}

pub open spec fn hunk_models(v: Seq<DiffHunk>) -> Seq<HunkModel> {
    v.map_values(|h: DiffHunk| h.model())
}

/// `start[,count]`; the count defaults to 1.
pub open spec fn spec_parse_range(r: Seq<char>) -> Option<(usize, usize)> {
    match chars::spec_split_once(r, seq![',']) {
        Some((a, b)) => match (chars::spec_parse_usize(a), chars::spec_parse_usize(b)) {
            (Some(x), Some(y)) => Some((x, y)),
            _ => None,
        },
        None => match chars::spec_parse_usize(r) {
            Some(x) => Some((x, 1)),
            None => None,
        },
    }
}

fn parse_range(range: &Vec<char>) -> (r: Option<(usize, usize)>)
    ensures
        r == spec_parse_range(range@),
{
    let comma = lit(",");
    proof { reveal_strlit(","); assert(comma@ =~= seq![',']); }
    match split_once(range, &comma) {
        Some((a, b)) => {
            match (parse_usize(&a, 0, a.len()), parse_usize(&b, 0, b.len())) {
                (Some(x), Some(y)) => {
                    assert(a@.subrange(0, a@.len() as int) =~= a@);
                    assert(b@.subrange(0, b@.len() as int) =~= b@);
                    Some((x, y))
                },
                (x, y) => {
                    assert(a@.subrange(0, a@.len() as int) =~= a@);
                    assert(b@.subrange(0, b@.len() as int) =~= b@);
                    None
                },
            }
        },
        None => {
            let v = parse_usize(range, 0, range.len());
            assert(range@.subrange(0, range@.len() as int) =~= range@);
            match v {
                Some(x) => Some((x, 1)),
                None => None,
            }
        },
    }
}

/// `@@ -old +new @@ heading`, the heading trimmed.
pub open spec fn spec_parse_hunk_header(h: Seq<char>) -> Option<(usize, usize, usize, usize, Seq<char>)> {
    if !chars::has_prefix(h, "@@ -"@) {
        None
    } else {
        let rem = h.skip("@@ -"@.len() as int);
        match chars::spec_split_once(rem, " +"@) {
            None => None,
            Some((old, rem2)) => match chars::spec_split_once(rem2, " @@"@) {
                None => None,
                Some((new, heading)) => match (spec_parse_range(old), spec_parse_range(new)) {
                    (Some((os, oc)), Some((ns, nc))) => Some((os, oc, ns, nc, chars::spec_trim(heading))),
                    _ => None,
                },
            },
        }
    }
}

fn parse_hunk_header(header: &Vec<char>) -> (r: Option<(usize, usize, usize, usize, Vec<char>)>)
    ensures
        match r {
            Some((a, b, c, d, e)) => spec_parse_hunk_header(header@) == Some((a, b, c, d, e@)),
            None => spec_parse_hunk_header(header@) is None,
        },
{
    let start = lit("@@ -");
    let plus = lit(" +");
    let close = lit(" @@");
    if !starts_with(header, &start) {
        return None;
    }
    let rem = sub_vec(header, start.len(), header.len());
    assert(rem@ =~= header@.skip(start@.len() as int));
    let (old, rem2) = match split_once(&rem, &plus) {
        Some(p) => p,
        None => { return None; },
    };
    let (new, heading) = match split_once(&rem2, &close) {
        Some(p) => p,
        None => { return None; },
    };
    let old_range = parse_range(&old);
    let new_range = parse_range(&new);
    match (old_range, new_range) {
        (Some((os, oc)), Some((ns, nc))) => {
            let (a, b) = trim_bounds(&heading);
            let trimmed = sub_vec(&heading, a, b);
            Some((os, oc, ns, nc, trimmed))
        },
        _ => None,
    }
}

/// How a hunk body line counts: `+` adds, `-` removes, a space is context
/// (file headers `+++`/`---` and anything else are meta lines).
pub open spec fn spec_line_kind(l: Seq<char>) -> DiffLineKind {
    if chars::has_prefix(l, "+"@) && !chars::has_prefix(l, "+++"@) {
        DiffLineKind::Added
    } else if chars::has_prefix(l, "-"@) && !chars::has_prefix(l, "---"@) {
        DiffLineKind::Removed
    } else if chars::has_prefix(l, " "@) {
        DiffLineKind::Context
    } else {
        DiffLineKind::Meta
    }
}

pub open spec fn sat_add1(x: usize) -> usize {
    if x < usize::MAX { (x + 1) as usize } else { usize::MAX }
}

/// The body lines of a hunk with the line numbers they have in the old and
/// new file, numbering from `old` and `new`.
pub open spec fn spec_number_lines(ls: Seq<Seq<char>>, old: usize, new: usize) -> Seq<LineModel>
    decreases ls.len(),
{
    if ls.len() == 0 {
        Seq::empty()
    } else {
        let l = ls[0];
        let k = spec_line_kind(l);
        let (m, o2, n2) = match k {
            DiffLineKind::Added => (LineModel { kind: k, text: l, old_line: None, new_line: Some(new) }, old, sat_add1(new)),
            DiffLineKind::Removed => (LineModel { kind: k, text: l, old_line: Some(old), new_line: None }, sat_add1(old), new),
            DiffLineKind::Context => (LineModel { kind: k, text: l, old_line: Some(old), new_line: Some(new) }, sat_add1(old), sat_add1(new)),
            DiffLineKind::Meta => (LineModel { kind: k, text: l, old_line: None, new_line: None }, old, new),
        };
        seq![m] + spec_number_lines(ls.drop_first(), o2, n2)
    }
}

/// How many of the first `k` body lines are in the new file (added or
/// context lines).
pub open spec fn new_side_before(ls: Seq<Seq<char>>, k: int) -> nat
    decreases k,
{
    if k <= 0 || ls.len() == 0 {
        0
    } else {
        let here: nat = match spec_line_kind(ls[0]) {
            DiffLineKind::Added | DiffLineKind::Context => 1,
            _ => 0,
        };
        here + new_side_before(ls.drop_first(), k - 1)
    }
}

/// How many of the first `k` body lines are in the old file (removed or
/// context lines).
pub open spec fn old_side_before(ls: Seq<Seq<char>>, k: int) -> nat
    decreases k,
{
    if k <= 0 || ls.len() == 0 {
        0
    } else {
        let here: nat = match spec_line_kind(ls[0]) {
            DiffLineKind::Removed | DiffLineKind::Context => 1,
            _ => 0,
        };
        here + old_side_before(ls.drop_first(), k - 1)
    }
}

/// Each body line keeps its text and kind; an added line has only a new
/// line number, a removed line only an old one, a context line both, a meta
/// line none; and the numbers count on from the starts by the lines before
/// that are on each side.
pub proof fn lemma_line_numbers(ls: Seq<Seq<char>>, old: usize, new: usize, k: int)
    requires
        0 <= k < ls.len(),
        old + ls.len() <= usize::MAX,
        new + ls.len() <= usize::MAX,
    ensures
        spec_number_lines(ls, old, new).len() == ls.len(),
        ({
            let m = spec_number_lines(ls, old, new)[k];
            let kind = spec_line_kind(ls[k]);
            &&& m.text == ls[k]
            &&& m.kind == kind
            &&& (kind == DiffLineKind::Added ==> m.old_line is None && m.new_line == Some((new + new_side_before(ls, k)) as usize))
            &&& (kind == DiffLineKind::Removed ==> m.new_line is None && m.old_line == Some((old + old_side_before(ls, k)) as usize))
            &&& (kind == DiffLineKind::Context ==> m.old_line == Some((old + old_side_before(ls, k)) as usize)
                && m.new_line == Some((new + new_side_before(ls, k)) as usize))
            &&& (kind == DiffLineKind::Meta ==> m.old_line is None && m.new_line is None)
        }),
    decreases k,
{
    lemma_number_lines_len(ls, old, new);
    let l = ls[0];
    let kd = spec_line_kind(l);
    let o2: usize = match kd {
        DiffLineKind::Removed | DiffLineKind::Context => sat_add1(old),
        _ => old,
    };
    let n2: usize = match kd {
        DiffLineKind::Added | DiffLineKind::Context => sat_add1(new),
        _ => new,
    };
    if k > 0 {
        assert(ls.drop_first()[k - 1] == ls[k]);
        lemma_side_counts_bounded(ls.drop_first(), k - 1);
        lemma_line_numbers(ls.drop_first(), o2, n2, k - 1);
        assert(spec_number_lines(ls, old, new)[k] == spec_number_lines(ls.drop_first(), o2, n2)[k - 1]);
    }
}

proof fn lemma_number_lines_len(ls: Seq<Seq<char>>, old: usize, new: usize)
    ensures
        spec_number_lines(ls, old, new).len() == ls.len(),
    decreases ls.len(),
{
    if ls.len() > 0 {
        let l = ls[0];
        let kd = spec_line_kind(l);
        let o2: usize = match kd {
            DiffLineKind::Removed | DiffLineKind::Context => sat_add1(old),
            _ => old,
        };
        let n2: usize = match kd {
            DiffLineKind::Added | DiffLineKind::Context => sat_add1(new),
            _ => new,
        };
        lemma_number_lines_len(ls.drop_first(), o2, n2);
    }
}

proof fn lemma_side_counts_bounded(ls: Seq<Seq<char>>, k: int)
    ensures
        new_side_before(ls, k) <= if k < 0 { 0 } else { k as nat },
        old_side_before(ls, k) <= if k < 0 { 0 } else { k as nat },
    decreases k,
{
    if k > 0 && ls.len() > 0 {
        lemma_side_counts_bounded(ls.drop_first(), k - 1);
    }
}

/// A hunk's lines are numbered from the starts its header gives.
pub proof fn lemma_hunk_line_numbers(ls: Seq<Seq<char>>, file_header: Seq<char>, k: int)
    requires
        spec_parse_hunk(ls, file_header) is Some,
        0 <= k < ls.len() - 1,
        spec_parse_hunk(ls, file_header)->0.old_start + ls.len() <= usize::MAX,
        spec_parse_hunk(ls, file_header)->0.new_start + ls.len() <= usize::MAX,
    ensures
        ({
            let h = spec_parse_hunk(ls, file_header)->0;
            let body = ls.drop_first();
            let m = h.lines[k];
            &&& h.lines.len() == body.len()
            &&& m.text == body[k]
            &&& (spec_line_kind(body[k]) == DiffLineKind::Added ==> m.old_line is None
                && m.new_line == Some((h.new_start + new_side_before(body, k)) as usize))
            &&& (spec_line_kind(body[k]) == DiffLineKind::Removed ==> m.new_line is None
                && m.old_line == Some((h.old_start + old_side_before(body, k)) as usize))
            &&& (spec_line_kind(body[k]) == DiffLineKind::Context ==> m.old_line == Some((h.old_start + old_side_before(body, k)) as usize)
                && m.new_line == Some((h.new_start + new_side_before(body, k)) as usize))
        }),
{
    let h = spec_parse_hunk(ls, file_header)->0;
    lemma_line_numbers(ls.drop_first(), h.old_start, h.new_start, k);
}

/// Lines joined with LF between them.
pub open spec fn join_lf(ls: Seq<Seq<char>>) -> Seq<char>
    decreases ls.len(),
{
    if ls.len() == 0 {
        Seq::empty()
    } else if ls.len() == 1 {
        ls[0]
    } else {
        join_lf(ls.drop_last()) + seq!['\n'] + ls.last()
    }
}

/// Joins lines with LF between them.
fn join_lines(ls: &Vec<Vec<char>>, start: usize, end: usize) -> (r: Vec<char>)
    requires
        start <= end <= ls@.len(),
    ensures
        r@ == join_lf(ls@.subrange(start as int, end as int).map_values(|v: Vec<char>| v@)),
{
    let mut out: Vec<char> = Vec::new();
    let mut i = start;
    while i < end
        invariant
            start <= i <= end <= ls@.len(),
            out@ == join_lf(ls@.subrange(start as int, i as int).map_values(|v: Vec<char>| v@)),
        decreases end - i,
    {
        let ghost prev = ls@.subrange(start as int, i as int).map_values(|v: Vec<char>| v@);
        let ghost next = ls@.subrange(start as int, i + 1).map_values(|v: Vec<char>| v@);
        assert(next.drop_last() =~= prev);
        assert(next.last() == ls@[i as int]@);
        if i > start {
            out.push('\n');
        }
        push_all(&mut out, &ls[i]);
        proof {
            if i == start {
                assert(next.len() == 1);
                assert(out@ =~= next[0]);
            } else {
                assert(out@ =~= join_lf(prev) + seq!['\n'] + next.last());
            }
        }
        i = i + 1;
    }
    out
}

/// A hunk from its lines (header line first) and the file header.
pub open spec fn spec_parse_hunk(ls: Seq<Seq<char>>, file_header: Seq<char>) -> Option<HunkModel> {
    if ls.len() == 0 {
        None
    } else {
        match spec_parse_hunk_header(ls[0]) {
            None => None,
            Some((os, oc, ns, nc, heading)) => Some(HunkModel {
                old_start: os,
                old_count: oc,
                new_start: ns,
                new_count: nc,
                heading,
                lines: spec_number_lines(ls.drop_first(), os, ns),
                patch: file_header + join_lf(ls) + seq!['\n'],
            }),
        }
    }
}


fn line_kind(l: &Vec<char>, plus: &Vec<char>, plus3: &Vec<char>, minus: &Vec<char>, minus3: &Vec<char>, space: &Vec<char>) -> (k: DiffLineKind)
    requires
        plus@ == "+"@,
        plus3@ == "+++"@,
        minus@ == "-"@,
        minus3@ == "---"@,
        space@ == " "@,
    ensures
        k == spec_line_kind(l@),
{
    if starts_with(l, plus) && !starts_with(l, plus3) {
        DiffLineKind::Added
    } else if starts_with(l, minus) && !starts_with(l, minus3) {
        DiffLineKind::Removed
    } else if starts_with(l, space) {
        DiffLineKind::Context
    } else {
        DiffLineKind::Meta
    }
}

fn parse_hunk(ls: &Vec<Vec<char>>, start: usize, end: usize, file_header: &Vec<char>) -> (r: Option<DiffHunk>)
    requires
        start <= end <= ls@.len(),
    ensures
        match r {
            Some(h) => spec_parse_hunk(ls@.subrange(start as int, end as int).map_values(|v: Vec<char>| v@), file_header@) == Some(h.model()),
            None => spec_parse_hunk(ls@.subrange(start as int, end as int).map_values(|v: Vec<char>| v@), file_header@) is None,
        },
{
    let ghost seg = ls@.subrange(start as int, end as int).map_values(|v: Vec<char>| v@);
    if start == end {
        return None;
    }
    assert(seg[0] == ls@[start as int]@);
    let (old_start, old_count, new_start, new_count, heading) = match parse_hunk_header(&ls[start]) {
        Some(h) => h,
        None => { return None; },
    };
    let plus = lit("+");
    let plus3 = lit("+++");
    let minus = lit("-");
    let minus3 = lit("---");
    let space = lit(" ");
    let mut old_line = old_start;
    let mut new_line = new_start;
    let mut parsed: Vec<DiffLine> = Vec::new();
    let mut i = start + 1;
    while i < end
        invariant
            start < i <= end <= ls@.len(),
            seg == ls@.subrange(start as int, end as int).map_values(|v: Vec<char>| v@),
            plus@ == "+"@, plus3@ == "+++"@, minus@ == "-"@, minus3@ == "---"@, space@ == " "@,
            line_models(parsed@) + spec_number_lines(seg.skip(i - start), old_line, new_line)
                == spec_number_lines(seg.drop_first(), old_start, new_start),
        decreases end - i,
    {
        let line = &ls[i];
        let ghost rest = seg.skip(i - start);
        assert(rest[0] == line@);
        assert(rest.drop_first() =~= seg.skip(i + 1 - start));
        let kind = line_kind(line, &plus, &plus3, &minus, &minus3, &space);
        let (old, new) = match kind {
            DiffLineKind::Added => {
                let current = new_line;
                new_line = if new_line < usize::MAX { new_line + 1 } else { usize::MAX };
                (None, Some(current))
            },
            DiffLineKind::Removed => {
                let current = old_line;
                old_line = if old_line < usize::MAX { old_line + 1 } else { usize::MAX };
                (Some(current), None)
            },
            DiffLineKind::Context => {
                let o = old_line;
                let n = new_line;
                old_line = if old_line < usize::MAX { old_line + 1 } else { usize::MAX };
                new_line = if new_line < usize::MAX { new_line + 1 } else { usize::MAX };
                (Some(o), Some(n))
            },
            DiffLineKind::Meta => (None, None),
        };
        let text = chars_to_string(line.as_slice());
        let ghost before = line_models(parsed@);
        parsed.push(DiffLine { kind, text, old_line: old, new_line: new });
        assert(line_models(parsed@) =~= before.push(parsed@.last().model()));
        i = i + 1;
    }
    assert(seg.skip(end - start) =~= Seq::<Seq<char>>::empty());
    assert(seg.skip(1) =~= seg.drop_first());
    assert(line_models(parsed@) =~= spec_number_lines(seg.drop_first(), old_start, new_start));
    let joined = join_lines(ls, start, end);
    let mut patch: Vec<char> = Vec::new();
    push_all(&mut patch, file_header);
    push_all(&mut patch, &joined);
    patch.push('\n');
    let h = DiffHunk {
        old_start,
        old_count,
        new_start,
        new_count,
        heading: chars_to_string(heading.as_slice()),
        lines: parsed,
        patch: chars_to_string(patch.as_slice()),
    };
    assert(spec_parse_hunk_header(seg[0]) == Some((old_start, old_count, new_start, new_count, heading@)));
    assert(h.model().patch =~= file_header@ + join_lf(seg) + seq!['\n']);
    assert(h.model().lines == spec_number_lines(seg.drop_first(), old_start, new_start));
    Some(h)
}

/// Index of the first line at or after `i` that starts a hunk (`@@ `), or
/// the number of lines.
pub open spec fn next_hunk(ls: Seq<Seq<char>>, i: int) -> int
    decreases ls.len() - i,
{
    if i >= ls.len() {
        ls.len() as int
    } else if chars::has_prefix(ls[i], "@@ "@) {
        i
    } else {
        next_hunk(ls, i + 1)
    }
}

pub proof fn lemma_next_hunk(ls: Seq<Seq<char>>, i: int)
    requires
        0 <= i,
    ensures
        i <= next_hunk(ls, i) || next_hunk(ls, i) == ls.len(),
        next_hunk(ls, i) <= ls.len() || i > ls.len(),
        i <= ls.len() ==> i <= next_hunk(ls, i) <= ls.len(),
    decreases ls.len() - i,
{
    if i < ls.len() && !chars::has_prefix(ls[i], "@@ "@) {
        lemma_next_hunk(ls, i + 1);
    }
}

fn find_next_hunk(ls: &Vec<Vec<char>>, i: usize, marker: &Vec<char>) -> (r: usize)
    requires
        marker@ == "@@ "@,
        i <= ls@.len(),
    ensures
        r == next_hunk(ls@.map_values(|v: Vec<char>| v@), i as int),
        i <= r <= ls@.len(),
{
    let ghost lv = ls@.map_values(|v: Vec<char>| v@);
    let mut j = i;
    while j < ls.len() && !starts_with(&ls[j], marker)
        invariant
            i <= j <= ls@.len(),
            lv == ls@.map_values(|v: Vec<char>| v@),
            marker@ == "@@ "@,
            next_hunk(lv, i as int) == next_hunk(lv, j as int),
        decreases ls.len() - j,
    {
        assert(lv[j as int] == ls@[j as int]@);
        j = j + 1;
    }
    proof {
        if j < ls@.len() {
            assert(lv[j as int] == ls@[j as int]@);
        }
    }
    j
}

/// The hunks that start at line `i` and later.
pub open spec fn spec_hunks(ls: Seq<Seq<char>>, i: int, header: Seq<char>) -> Seq<HunkModel>
    decreases ls.len() - i,
{
    if i < 0 || i >= ls.len() {
        Seq::empty()
    } else {
        let e = next_hunk(ls, i + 1);
        proof { lemma_next_hunk(ls, i + 1); }
        let rest = spec_hunks(ls, e, header);
        match spec_parse_hunk(ls.subrange(i, e), header) {
            Some(h) => seq![h] + rest,
            None => rest,
        }
    }
}

/// A line that marks a binary diff.
pub open spec fn is_binary_marker(l: Seq<char>) -> bool {
    chars::has_prefix(l, "Binary files "@) || l == "GIT binary patch"@ || l == "Binary files differ"@
}

/// The diff of one file: `binary` when git reports a binary change; the
/// lines before the first hunk form the file header that every hunk's
/// standalone patch starts with.
pub open spec fn spec_parse_unified_diff(raw: Seq<char>) -> (bool, Seq<HunkModel>) {
    let ls = chars::text_lines(raw);
    let first = next_hunk(ls, 0);
    let header = if first == 0 { Seq::empty() } else { join_lf(ls.take(first)) + seq!['\n'] };
    (exists|i: int| 0 <= i < ls.len() && is_binary_marker(#[trigger] ls[i]), spec_hunks(ls, first, header))
}

pub fn parse_unified_diff(path: String, target: DiffTarget, raw: String) -> (d: FileDiff)
    ensures
        d.path == path,
        d.target == target,
        d.raw == raw,
        d.binary == spec_parse_unified_diff(raw@).0,
        hunk_models(d.hunks@) == spec_parse_unified_diff(raw@).1,
{
    let raw_chars = str_to_chars(raw.as_str());
    let ls = lines(&raw_chars);
    let ghost lv = ls@.map_values(|v: Vec<char>| v@);
    assert(lv == chars::text_lines(raw@));
    let bin_prefix = lit("Binary files ");
    let git_binary = lit("GIT binary patch");
    let bin_differ = lit("Binary files differ");
    let mut binary = false;
    let mut k: usize = 0;
    while k < ls.len()
        invariant
            k <= ls@.len(),
            lv == ls@.map_values(|v: Vec<char>| v@),
            bin_prefix@ == "Binary files "@,
            git_binary@ == "GIT binary patch"@,
            bin_differ@ == "Binary files differ"@,
            binary == exists|i: int| 0 <= i < k && is_binary_marker(#[trigger] lv[i]),
        decreases ls.len() - k,
    {
        assert(lv[k as int] == ls@[k as int]@);
        if starts_with(&ls[k], &bin_prefix) || chars_eq(&ls[k], &git_binary) || chars_eq(&ls[k], &bin_differ) {
            binary = true;
        }
        k = k + 1;
    }
    let marker = lit("@@ ");
    let first = find_next_hunk(&ls, 0, &marker);
    let header = if first == 0 {
        Vec::new()
    } else {
        let mut h = join_lines(&ls, 0, first);
        h.push('\n');
        h
    };
    assert(ls@.subrange(0, first as int).map_values(|v: Vec<char>| v@) =~= lv.take(first as int));
    assert(header@ == (if first == 0 { Seq::<char>::empty() } else { join_lf(lv.take(first as int)) + seq!['\n'] }));
    let mut hunks: Vec<DiffHunk> = Vec::new();
    let mut index = first;
    while index < ls.len()
        invariant
            first <= index <= ls@.len(),
            lv == ls@.map_values(|v: Vec<char>| v@),
            marker@ == "@@ "@,
            hunk_models(hunks@) + spec_hunks(lv, index as int, header@) == spec_hunks(lv, first as int, header@),
        decreases ls.len() - index,
    {
        let hunk_start = index;
        let e = find_next_hunk(&ls, index + 1, &marker);
        assert(ls@.subrange(hunk_start as int, e as int).map_values(|v: Vec<char>| v@) =~= lv.subrange(hunk_start as int, e as int));
        let parsed = parse_hunk(&ls, hunk_start, e, &header);
        let ghost before = hunk_models(hunks@);
        match parsed {
            Some(h) => {
                hunks.push(h);
                assert(hunk_models(hunks@) =~= before.push(h.model()));
            },
            None => {},
        }
        index = e;
    }
    FileDiff { path, target, binary, hunks, raw }
}
} // verus!
