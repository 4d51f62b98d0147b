//! Finding `path:line[:column]` compiler locations in terminal output.

use vstd::prelude::*;

use crate::chars::{byte_span, char_index_of_byte, chars_to_string, parse_usize, str_to_chars};
use crate::pattern::regex_captures;
use crate::terminal::session::TerminalFileReference;

verus! {

/// A path with an extension, a line and maybe a column, colon-separated.
pub const FILE_REFERENCE_PATTERN: &'static str = r"(?P<path>[^\s:]+\.[^\s:]+):(?P<line>[0-9]+)(?::(?P<column>[0-9]+))?";

/// A reference as plain values: path, line, column, display columns.
pub open spec fn reference_model(r: TerminalFileReference) -> (Seq<char>, usize, usize, (int, int)) {
    (r.path@, r.line, r.column, (r.display_columns.start as int, r.display_columns.end as int))
}

pub open spec fn group(groups: Seq<Option<(usize, usize)>>, k: int) -> Option<(usize, usize)> {
    if 0 <= k < groups.len() { groups[k] } else { None }
}

/// The reference of one match: its path, its line (which must parse), its
/// column (1 where it is missing) and the chars it spans.
pub open spec fn reference_of(text: Seq<char>, groups: Seq<Option<(usize, usize)>>) -> Option<
    (Seq<char>, usize, usize, (int, int)),
> {
    match (group(groups, 0), group(groups, 1), group(groups, 2)) {
        (Some(m), Some(p), Some(l)) => match crate::chars::spec_parse_usize(
            crate::chars::byte_span_chars(text, l.0 as int, l.1 as int),
        ) {
            None => None,
            Some(line) => {
                let column = match group(groups, 3) {
                    Some(c) => match crate::chars::spec_parse_usize(
                        crate::chars::byte_span_chars(text, c.0 as int, c.1 as int),
                    ) {
                        Some(v) => v,
                        None => 1,
                    },
                    None => 1,
                };
                Some(
                    (
                        crate::chars::byte_span_chars(text, p.0 as int, p.1 as int),
                        line,
                        column,
                        (
                            crate::chars::chars_before_byte(text, m.0 as int) as int,
                            crate::chars::chars_before_byte(text, m.1 as int) as int,
                        ),
                    ),
                )
            },
        },
        _ => None,
    }
}

pub open spec fn references_of(text: Seq<char>, ms: Seq<Seq<Option<(usize, usize)>>>) -> Seq<
    (Seq<char>, usize, usize, (int, int)),
>
    decreases ms.len(),
{
    if ms.len() == 0 {
        Seq::empty()
    } else {
        let r = references_of(text, ms.drop_last());
        match reference_of(text, ms.last()) {
            Some(x) => r.push(x),
            None => r,
        }
    }
}

/// The references among the matches of the location pattern.
pub open spec fn spec_find_file_references(text: Seq<char>) -> Seq<(Seq<char>, usize, usize, (int, int))> {
    match crate::pattern::regex_captures_of(FILE_REFERENCE_PATTERN@, false, text) {
        Some(ms) => references_of(text, ms),
        None => Seq::empty(),
    }
}

fn group_of(groups: &Vec<Option<(usize, usize)>>, k: usize) -> (r: Option<(usize, usize)>)
    ensures
        r == group(groups@, k as int),
{
    if k < groups.len() {
        groups[k]
    } else {
        None
    }
}

fn reference_from(text: &Vec<char>, groups: &Vec<Option<(usize, usize)>>) -> (r: Option<TerminalFileReference>)
    ensures
        match r {
            Some(x) => reference_of(text@, groups@) == Some(reference_model(x)),
            None => reference_of(text@, groups@) is None,
        },
{
    let (m, p, l) = match (group_of(groups, 0), group_of(groups, 1), group_of(groups, 2)) {
        (Some(m), Some(p), Some(l)) => (m, p, l),
        _ => return None,
    };
    let line_text = byte_span(text, l.0, l.1);
    let line = match parse_usize(&line_text, 0, line_text.len()) {
        Some(v) => v,
        None => {
            assert(line_text@.subrange(0, line_text@.len() as int) =~= line_text@);
            return None;
        },
    };
    assert(line_text@.subrange(0, line_text@.len() as int) =~= line_text@);
    let column = match group_of(groups, 3) {
        Some(c) => {
            let column_text = byte_span(text, c.0, c.1);
            assert(column_text@.subrange(0, column_text@.len() as int) =~= column_text@);
            match parse_usize(&column_text, 0, column_text.len()) {
                Some(v) => v,
                None => 1,
            }
        },
        None => 1,
    };
    let path = byte_span(text, p.0, p.1);
    let from = char_index_of_byte(text, m.0);
    let to = char_index_of_byte(text, m.1);
    Some(TerminalFileReference { path: chars_to_string(path.as_slice()), line, column, display_columns: from..to })
}

/// The `path:line[:column]` locations in a text, in order, each with the
/// display columns (chars) it spans; a missing column is 1.
pub fn find_file_references(text: &str) -> (r: Vec<TerminalFileReference>)
    ensures
        r@.map_values(|x: TerminalFileReference| reference_model(x)) == spec_find_file_references(text@),
{
    let mut out: Vec<TerminalFileReference> = Vec::new();
    let ms = match regex_captures(FILE_REFERENCE_PATTERN, false, text) {
        Ok(ms) => ms,
        Err(_) => {
            assert(out@.map_values(|x: TerminalFileReference| reference_model(x)) =~= Seq::<
                (Seq<char>, usize, usize, (int, int)),
            >::empty());
            return out;
        },
    };
    let chars = str_to_chars(text);
    let ghost gv = crate::pattern::groups_view(ms@);
    let mut i: usize = 0;
    assert(gv.take(0) =~= Seq::<Seq<Option<(usize, usize)>>>::empty());
    assert(out@.map_values(|x: TerminalFileReference| reference_model(x)) =~= references_of(text@, gv.take(0)));
    while i < ms.len()
        invariant
            i <= ms@.len(),
            chars@ == text@,
            gv == crate::pattern::groups_view(ms@),
            out@.map_values(|x: TerminalFileReference| reference_model(x)) == references_of(text@, gv.take(i as int)),
        decreases ms.len() - i,
    {
        assert(gv.take(i + 1).drop_last() =~= gv.take(i as int));
        assert(gv.take(i + 1).last() == ms@[i as int]@);
        let ghost before = out@;
        match reference_from(&chars, &ms[i]) {
            Some(x) => {
                out.push(x);
                assert(out@.map_values(|x: TerminalFileReference| reference_model(x)) =~= before.map_values(
                    |x: TerminalFileReference| reference_model(x),
                ).push(reference_model(x)));
            },
            None => {},
        }
        i = i + 1;
    }
    assert(gv.take(i as int) =~= gv);
    out
}

} // verus!
