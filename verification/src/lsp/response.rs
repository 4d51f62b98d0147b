//! Reading a language server's replies: diagnostics, hovers, signature
//! help, completions, locations and text edits.

use vstd::prelude::*;

use std::ops::Range;

use crate::app::{ColumnHint, CompletionCandidate, NavigationLocation};
use crate::chars::{chars_to_string, lines, str_to_chars};
use crate::diagnostics::model::{Diagnostic, DiagnosticSeverity, DiagnosticSource, TextPosition, TextRange};
use crate::lsp::json::{get_opt, str_opt, u64_opt, JsonValue};
use crate::lsp::position::{position_to_char_offset, Position};
use crate::lsp::snippet::expand_lsp_snippet;
use crate::lsp::uri::file_uri_to_path;

verus! {

/// A position object: its `line` and `character`, each cut to 32 bits.
pub open spec fn spec_completion_position(v: JsonValue) -> Option<Position> {
    match (
        crate::lsp::json::u64_of(crate::lsp::json::spec_get(v, "line"@)),
        crate::lsp::json::u64_of(crate::lsp::json::spec_get(v, "character"@)),
    ) {
        (Some(l), Some(c)) => Some(Position { line: l as u32, character: c as u32 }),
        _ => None,
    }
}

/// The `start` and `end` positions of a range object.
pub open spec fn spec_range_positions(range: JsonValue) -> Option<(Position, Position)> {
    match (crate::lsp::json::spec_get(range, "start"@), crate::lsp::json::spec_get(range, "end"@)) {
        (Some(s), Some(e)) => match (spec_completion_position(s), spec_completion_position(e)) {
            (Some(a), Some(b)) => Some((a, b)),
            _ => None,
        },
        _ => None,
    }
}

/// The range a completion's text replaces: `textEdit.range`, or
/// `textEdit.insert` where there is no `range`.
pub open spec fn spec_completion_replace_range(v: JsonValue) -> Option<(Position, Position)> {
    match crate::lsp::json::spec_get(v, "textEdit"@) {
        None => None,
        Some(edit) => match crate::lsp::json::or_else(
            crate::lsp::json::spec_get(edit, "range"@),
            crate::lsp::json::spec_get(edit, "insert"@),
        ) {
            None => None,
            Some(range) => spec_range_positions(range),
        },
    }
}

/// A completion as plain values.
pub struct CandidateModel {
    pub label: Seq<char>,
    pub insert_text: Seq<char>,
    pub detail: Option<Seq<char>>,
    pub replace_range: Option<(Position, Position)>,
    pub cursor_char_offset: Option<usize>,
}

pub open spec fn candidate_model(c: CompletionCandidate) -> CandidateModel {
    CandidateModel {
        label: c.label@,
        insert_text: c.insert_text@,
        detail: crate::diagnostics::model::opt_text(c.detail),
        replace_range: c.replace_range,
        cursor_char_offset: c.cursor_char_offset,
    }
}

/// The text a completion inserts before snippet expansion:
/// `textEdit.newText`, else `insertText`, else the label.
pub open spec fn raw_insert_text(v: JsonValue, label: Seq<char>) -> Seq<char> {
    match crate::lsp::json::or_else(
        crate::lsp::json::str_of(
            crate::lsp::json::get_in(crate::lsp::json::spec_get(v, "textEdit"@), "newText"@),
        ),
        crate::lsp::json::str_of(crate::lsp::json::spec_get(v, "insertText"@)),
    ) {
        Some(t) => t,
        None => label,
    }
}

/// A completion item: it needs a string `label`; a snippet
/// (`insertTextFormat` 2) is expanded and places the cursor.
pub open spec fn spec_completion_candidate(v: JsonValue) -> Option<CandidateModel> {
    match crate::lsp::json::str_of(crate::lsp::json::spec_get(v, "label"@)) {
        None => None,
        Some(label) => {
            let raw = raw_insert_text(v, label);
            let snippet = crate::lsp::json::u64_of(crate::lsp::json::spec_get(v, "insertTextFormat"@)) == Some(
                2u64,
            );
            let expanded = crate::lsp::snippet::spec_expand_snippet(raw);
            Some(
                CandidateModel {
                    label,
                    insert_text: if snippet { expanded.0 } else { raw },
                    detail: crate::lsp::json::str_of(crate::lsp::json::spec_get(v, "detail"@)),
                    replace_range: spec_completion_replace_range(v),
                    cursor_char_offset: if snippet { expanded.1 } else { None },
                },
            )
        },
    }
}

/// The text of a hover item or documentation: a string, or the `value` of
/// a markup object.
pub open spec fn markup_text(v: JsonValue) -> Option<Seq<char>> {
    crate::lsp::json::or_else(
        crate::lsp::json::str_of(Some(v)),
        crate::lsp::json::str_of(crate::lsp::json::spec_get(v, "value"@)),
    )
}

pub open spec fn markup_lines(v: JsonValue) -> Seq<Seq<char>> {
    match markup_text(v) {
        Some(t) => crate::chars::text_lines(t),
        None => Seq::empty(),
    }
}

pub open spec fn items_lines(items: Seq<JsonValue>) -> Seq<Seq<char>>
    decreases items.len(),
{
    if items.len() == 0 {
        Seq::empty()
    } else {
        items_lines(items.drop_last()) + markup_lines(items.last())
    }
}

/// The lines of a hover's `contents`: of each item of an array, or of the
/// one value.
pub open spec fn spec_hover_lines(result: JsonValue) -> Seq<Seq<char>> {
    match crate::lsp::json::spec_get(result, "contents"@) {
        None => Seq::empty(),
        Some(contents) => match crate::lsp::json::array_of(Some(contents)) {
            Some(items) => items_lines(items),
            None => markup_lines(contents),
        },
    }
}

/// The active signature's label and the lines of its documentation; the
/// first signature where the active index is out of range.
pub open spec fn spec_signature_help_lines(result: JsonValue) -> Seq<Seq<char>> {
    let active: int = match crate::lsp::json::u64_of(crate::lsp::json::spec_get(result, "activeSignature"@)) {
        Some(n) => (n as usize) as int,
        None => 0,
    };
    match crate::lsp::json::array_of(crate::lsp::json::spec_get(result, "signatures"@)) {
        None => Seq::empty(),
        Some(items) => if items.len() == 0 {
            Seq::empty()
        } else {
            let sig = if active < items.len() { items[active] } else { items[0] };
            let head = match crate::lsp::json::str_of(crate::lsp::json::spec_get(sig, "label"@)) {
                Some(l) => seq![l],
                None => Seq::empty(),
            };
            match crate::lsp::json::spec_get(sig, "documentation"@) {
                Some(d) => match markup_text(d) {
                    Some(t) => head + crate::chars::text_lines(t),
                    None => head,
                },
                None => head,
            }
        },
    }
}

/// The start position object of a location: of its `range`, else of its
/// `targetSelectionRange`.
pub open spec fn location_start(v: JsonValue) -> Option<JsonValue> {
    crate::lsp::json::get_in(
        crate::lsp::json::or_else(
            crate::lsp::json::spec_get(v, "range"@),
            crate::lsp::json::spec_get(v, "targetSelectionRange"@),
        ),
        "start"@,
    )
}

/// The line and column of a location leave room to count from 1.
pub open spec fn location_fits(v: JsonValue) -> bool {
    &&& (crate::lsp::json::u64_of(crate::lsp::json::get_in(location_start(v), "line"@)) matches Some(n) ==> (n as usize) < usize::MAX)
    &&& (crate::lsp::json::u64_of(crate::lsp::json::get_in(location_start(v), "character"@)) matches Some(n) ==> (n as usize) < usize::MAX)
}

/// A location (or location link): the file of its `uri` (or `targetUri`)
/// and its start, counted from 1, the column in UTF-16 code units.
pub open spec fn spec_lsp_location(v: JsonValue) -> Option<(Seq<char>, int, ColumnHint)> {
    let uri = crate::lsp::json::str_of(
        crate::lsp::json::or_else(crate::lsp::json::spec_get(v, "uri"@), crate::lsp::json::spec_get(v, "targetUri"@)),
    );
    let path = match uri {
        Some(u) => crate::lsp::uri::spec_file_uri_to_path(u),
        None => None,
    };
    let start = location_start(v);
    match (
        path,
        crate::lsp::json::u64_of(crate::lsp::json::get_in(start, "line"@)),
        crate::lsp::json::u64_of(crate::lsp::json::get_in(start, "character"@)),
    ) {
        (Some(p), Some(l), Some(c)) => Some((p, (l as usize) + 1, ColumnHint::Utf16(((c as usize) + 1) as usize))),
        _ => None,
    }
}

/// A text edit: its range as char offsets of `source` (in order) and its
/// new text.
pub open spec fn spec_lsp_text_edit(source: Seq<char>, v: JsonValue) -> Option<((int, int), Seq<char>)> {
    match crate::lsp::json::spec_get(v, "range"@) {
        None => None,
        Some(range) => match (
            spec_range_positions(range),
            crate::lsp::json::str_of(crate::lsp::json::spec_get(v, "newText"@)),
        ) {
            (Some((a, b)), Some(t)) => {
                let s = crate::lsp::position::spec_position_to_char_offset(source, a) as int;
                let e = crate::lsp::position::spec_position_to_char_offset(source, b) as int;
                Some((if s > e { (e, s) } else { (s, e) }, t))
            },
            _ => None,
        },
    }
}

/// A diagnostic's `severity`: 1 error, 2 warning, 3 information, anything
/// else a hint.
pub open spec fn severity_of(n: Option<u64>) -> DiagnosticSeverity {
    match n {
        Some(1) => DiagnosticSeverity::Error,
        Some(2) => DiagnosticSeverity::Warning,
        Some(3) => DiagnosticSeverity::Information,
        _ => DiagnosticSeverity::Hint,
    }
}

/// A diagnostic's `code`: a string, or the text of a number.
pub open spec fn code_of(v: Option<JsonValue>) -> Option<Seq<char>> {
    match v {
        Some(JsonValue::String(s)) => Some(s@),
        Some(JsonValue::Number { text, .. }) => Some(text@),
        _ => None,
    }
}

/// The line and character of one end of a diagnostic's range.
pub open spec fn end_of(range: JsonValue, name: Seq<char>) -> Option<(usize, usize)> {
    let p = crate::lsp::json::spec_get(range, name);
    match (
        crate::lsp::json::u64_of(crate::lsp::json::get_in(p, "line"@)),
        crate::lsp::json::u64_of(crate::lsp::json::get_in(p, "character"@)),
    ) {
        (Some(l), Some(c)) => Some((l as usize, c as usize)),
        _ => None,
    }
}

/// Where a line and UTF-16 column fall in the source text, when it is
/// known.
pub open spec fn offset_in(source: Option<Seq<char>>, at: (usize, usize)) -> Option<usize> {
    match source {
        Some(t) => Some(
            crate::lsp::position::spec_position_to_char_offset(
                t,
                Position { line: at.0 as u32, character: at.1 as u32 },
            ) as usize,
        ),
        None => None,
    }
}

/// A published diagnostic of a file: it needs a range with both ends and a
/// string message.
pub open spec fn spec_lsp_diagnostic(path: Seq<char>, source: Option<Seq<char>>, v: JsonValue) -> Option<
    crate::diagnostics::model::DiagnosticModel,
> {
    match crate::lsp::json::spec_get(v, "range"@) {
        None => None,
        Some(range) => match (
            end_of(range, "start"@),
            end_of(range, "end"@),
            crate::lsp::json::str_of(crate::lsp::json::spec_get(v, "message"@)),
        ) {
            (Some(s), Some(e), Some(message)) => Some(
                crate::diagnostics::model::DiagnosticModel {
                    file: path,
                    range: TextRange {
                        start: TextPosition { line: s.0, column: s.1, char_offset: offset_in(source, s) },
                        end: TextPosition { line: e.0, column: e.1, char_offset: offset_in(source, e) },
                    },
                    severity: severity_of(crate::lsp::json::u64_of(crate::lsp::json::spec_get(v, "severity"@))),
                    message,
                    source: DiagnosticSource::Lsp,
                    code: code_of(crate::lsp::json::spec_get(v, "code"@)),
                    stale: false,
                },
            ),
            _ => None,
        },
    }
}

/// Reads a position object.
pub fn completion_position(value: &JsonValue) -> (r: Option<Position>)
    ensures
        r == spec_completion_position(*value),
{
    let line = value.get("line");
    let character = value.get("character");
    let l = u64_opt(line);
    let c = u64_opt(character);
    match (l, c) {
        (Some(l), Some(c)) => Some(Position::new(l as u32, c as u32)),
        _ => None,
    }
}

fn range_positions(range: &JsonValue) -> (r: Option<(Position, Position)>)
    ensures
        r == spec_range_positions(*range),
{
    let start = match range.get("start") {
        Some(s) => s,
        None => return None,
    };
    let end = match range.get("end") {
        Some(e) => e,
        None => return None,
    };
    match (completion_position(start), completion_position(end)) {
        (Some(a), Some(b)) => Some((a, b)),
        _ => None,
    }
}

/// The range a completion's text replaces.
pub fn completion_replace_range(value: &JsonValue) -> (r: Option<(Position, Position)>)
    ensures
        r == spec_completion_replace_range(*value),
{
    let edit = match value.get("textEdit") {
        Some(e) => e,
        None => return None,
    };
    let range = match edit.get("range") {
        Some(r) => r,
        None => match edit.get("insert") {
            Some(r) => r,
            None => return None,
        },
    };
    range_positions(range)
}

/// Reads a completion item.
pub fn completion_candidate(value: &JsonValue) -> (r: Option<CompletionCandidate>)
    ensures
        match r {
            Some(c) => spec_completion_candidate(*value) == Some(candidate_model(c)),
            None => spec_completion_candidate(*value) is None,
        },
{
    let label = match str_opt(value.get("label")) {
        Some(l) => l,
        None => return None,
    };
    let is_snippet = match u64_opt(value.get("insertTextFormat")) {
        Some(n) => n == 2,
        None => false,
    };
    let raw = match str_opt(get_opt(value.get("textEdit"), "newText")) {
        Some(t) => t,
        None => match str_opt(value.get("insertText")) {
            Some(t) => t,
            None => label,
        },
    };
    let (insert_text, cursor_char_offset) = if is_snippet {
        expand_lsp_snippet(raw)
    } else {
        (chars_to_string(str_to_chars(raw).as_slice()), None)
    };
    let detail = match str_opt(value.get("detail")) {
        Some(d) => Some(chars_to_string(str_to_chars(d).as_slice())),
        None => None,
    };
    Some(
        CompletionCandidate {
            label: chars_to_string(str_to_chars(label).as_slice()),
            insert_text,
            detail,
            replace_range: completion_replace_range(value),
            cursor_char_offset,
        },
    )
}

fn push_lines(out: &mut Vec<String>, text: &str)
    ensures
        crate::unicode::views(final(out)@) == crate::unicode::views(old(out)@) + crate::chars::text_lines(text@),
{
    let ls = lines(&str_to_chars(text));
    let ghost start = crate::unicode::views(out@);
    let mut i: usize = 0;
    assert(ls@.map_values(|v: Vec<char>| v@).take(0) =~= Seq::<Seq<char>>::empty());
    while i < ls.len()
        invariant
            i <= ls@.len(),
            ls@.map_values(|v: Vec<char>| v@) == crate::chars::text_lines(text@),
            crate::unicode::views(out@) == start + ls@.map_values(|v: Vec<char>| v@).take(i as int),
        decreases ls.len() - i,
    {
        let ghost before = out@;
        out.push(chars_to_string(ls[i].as_slice()));
        proof {
            let lv = ls@.map_values(|v: Vec<char>| v@);
            assert(lv.take(i + 1) =~= lv.take(i as int).push(ls@[i as int]@));
            assert(crate::unicode::views(out@) =~= crate::unicode::views(before).push(ls@[i as int]@));
        }
        i = i + 1;
    }
    assert(ls@.map_values(|v: Vec<char>| v@).take(i as int) =~= ls@.map_values(|v: Vec<char>| v@));
}

fn markup_str(v: &JsonValue) -> (r: Option<&str>)
    ensures
        match r {
            Some(s) => markup_text(*v) == Some(s@),
            None => markup_text(*v) is None,
        },
{
    match v.as_str() {
        Some(s) => Some(s),
        None => str_opt(v.get("value")),
    }
}

/// The lines of a hover reply.
pub fn hover_lines(result: &JsonValue) -> (r: Vec<String>)
    ensures
        crate::unicode::views(r@) == spec_hover_lines(*result),
{
    let mut out: Vec<String> = Vec::new();
    let contents = match result.get("contents") {
        Some(c) => c,
        None => {
            assert(crate::unicode::views(out@) =~= Seq::<Seq<char>>::empty());
            return out;
        },
    };
    match contents.as_array() {
        Some(items) => {
            let mut i: usize = 0;
            assert(crate::unicode::views(out@) =~= items_lines(items@.take(0)));
            while i < items.len()
                invariant
                    i <= items@.len(),
                    crate::unicode::views(out@) == items_lines(items@.take(i as int)),
                decreases items.len() - i,
            {
                assert(items@.take(i + 1).drop_last() =~= items@.take(i as int));
                assert(items@.take(i + 1).last() == items@[i as int]);
                match markup_str(&items[i]) {
                    Some(t) => push_lines(&mut out, t),
                    None => {
                        assert(crate::unicode::views(out@) =~= crate::unicode::views(out@) + Seq::<
                            Seq<char>,
                        >::empty());
                    },
                }
                i = i + 1;
            }
            assert(items@.take(i as int) =~= items@);
        },
        None => {
            match markup_str(contents) {
                Some(t) => push_lines(&mut out, t),
                None => {},
            }
            assert(crate::unicode::views(out@) =~= markup_lines(*contents));
        },
    }
    out
}

/// The lines of a signature help reply.
pub fn signature_help_lines(result: &JsonValue) -> (r: Vec<String>)
    ensures
        crate::unicode::views(r@) == spec_signature_help_lines(*result),
{
    let mut out: Vec<String> = Vec::new();
    let active: usize = match u64_opt(result.get("activeSignature")) {
        Some(n) => n as usize,
        None => 0,
    };
    let items = match result.get("signatures") {
        Some(s) => match s.as_array() {
            Some(items) => items,
            None => {
                assert(crate::unicode::views(out@) =~= Seq::<Seq<char>>::empty());
                return out;
            },
        },
        None => {
            assert(crate::unicode::views(out@) =~= Seq::<Seq<char>>::empty());
            return out;
        },
    };
    if items.len() == 0 {
        assert(crate::unicode::views(out@) =~= Seq::<Seq<char>>::empty());
        return out;
    }
    let signature = if active < items.len() { &items[active] } else { &items[0] };
    match str_opt(signature.get("label")) {
        Some(l) => {
            out.push(chars_to_string(str_to_chars(l).as_slice()));
            assert(crate::unicode::views(out@) =~= seq![l@]);
        },
        None => {
            assert(crate::unicode::views(out@) =~= Seq::<Seq<char>>::empty());
        },
    }
    match signature.get("documentation") {
        Some(d) => match markup_str(d) {
            Some(t) => push_lines(&mut out, t),
            None => {},
        },
        None => {},
    }
    out
}

/// Whether a location's line and column leave room to count from 1, as
/// `lsp_location` needs.
pub fn location_fits_check(value: &JsonValue) -> (b: bool)
    ensures
        b == location_fits(*value),
{
    let range = match value.get("range") {
        Some(r) => Some(r),
        None => value.get("targetSelectionRange"),
    };
    let start = get_opt(range, "start");
    let line_ok = match u64_opt(get_opt(start, "line")) {
        Some(n) => (n as usize) < usize::MAX,
        None => true,
    };
    let character_ok = match u64_opt(get_opt(start, "character")) {
        Some(n) => (n as usize) < usize::MAX,
        None => true,
    };
    line_ok && character_ok
}

/// Reads a location or location link. Its line and column are counted from
/// 1, so they must leave room for that.
pub fn lsp_location(value: &JsonValue) -> (r: Option<NavigationLocation>)
    requires
        location_fits(*value),
    ensures
        match r {
            Some(loc) => spec_lsp_location(*value) == Some((loc.path@, loc.line as int, loc.column)),
            None => spec_lsp_location(*value) is None,
        },
{
    let uri_value = match value.get("uri") {
        Some(u) => Some(u),
        None => value.get("targetUri"),
    };
    let path = match str_opt(uri_value) {
        Some(u) => file_uri_to_path(u),
        None => None,
    };
    let range = match value.get("range") {
        Some(r) => Some(r),
        None => value.get("targetSelectionRange"),
    };
    let start = get_opt(range, "start");
    let line = u64_opt(get_opt(start, "line"));
    let character = u64_opt(get_opt(start, "character"));
    match (path, line, character) {
        (Some(p), Some(l), Some(c)) => Some(
            NavigationLocation { path: p, line: (l as usize) + 1, column: ColumnHint::Utf16((c as usize) + 1) },
        ),
        _ => None,
    }
}

/// Reads a text edit against the text it applies to: its char range, in
/// order, and its new text.
pub fn lsp_text_edit(source: &str, value: &JsonValue) -> (r: Option<(Range<usize>, String)>)
    ensures
        match r {
            Some((range, text)) => spec_lsp_text_edit(source@, *value) == Some(
                ((range.start as int, range.end as int), text@),
            ),
            None => spec_lsp_text_edit(source@, *value) is None,
        },
{
    let range = match value.get("range") {
        Some(r) => r,
        None => return None,
    };
    let (a, b) = match range_positions(range) {
        Some(p) => p,
        None => return None,
    };
    let text = match str_opt(value.get("newText")) {
        Some(t) => t,
        None => return None,
    };
    let start = position_to_char_offset(source, a);
    let end = position_to_char_offset(source, b);
    let (start, end) = if start > end { (end, start) } else { (start, end) };
    Some((start..end, chars_to_string(str_to_chars(text).as_slice())))
}

fn end_position(range: &JsonValue, name: &str) -> (r: Option<(usize, usize)>)
    ensures
        r == end_of(*range, name@),
{
    let p = range.get(name);
    let l = u64_opt(get_opt(p, "line"));
    let c = u64_opt(get_opt(p, "character"));
    match (l, c) {
        (Some(l), Some(c)) => Some((l as usize, c as usize)),
        _ => None,
    }
}

fn char_offset_at(source_text: Option<&str>, at: (usize, usize)) -> (r: Option<usize>)
    ensures
        r == offset_in(
            match source_text {
                Some(t) => Some(t@),
                None => None,
            },
            at,
        ),
{
    match source_text {
        Some(t) => Some(position_to_char_offset(t, Position::new(at.0 as u32, at.1 as u32))),
        None => None,
    }
}

/// Reads a published diagnostic of the file at `path`, with char offsets
/// where the file's text is known.
pub fn lsp_diagnostic(path: &str, source_text: Option<&str>, value: &JsonValue) -> (r: Option<Diagnostic>)
    ensures
        match r {
            Some(d) => spec_lsp_diagnostic(
                path@,
                match source_text {
                    Some(t) => Some(t@),
                    None => None,
                },
                *value,
            ) == Some(d@),
            None => spec_lsp_diagnostic(
                path@,
                match source_text {
                    Some(t) => Some(t@),
                    None => None,
                },
                *value,
            ) is None,
        },
{
    let range = match value.get("range") {
        Some(r) => r,
        None => return None,
    };
    let (start, end) = match (end_position(range, "start"), end_position(range, "end")) {
        (Some(s), Some(e)) => (s, e),
        _ => return None,
    };
    let message = match str_opt(value.get("message")) {
        Some(m) => m,
        None => return None,
    };
    let severity = match u64_opt(value.get("severity")) {
        Some(1) => DiagnosticSeverity::Error,
        Some(2) => DiagnosticSeverity::Warning,
        Some(3) => DiagnosticSeverity::Information,
        _ => DiagnosticSeverity::Hint,
    };
    let code = match value.get("code") {
        Some(JsonValue::String(s)) => Some(chars_to_string(str_to_chars(s.as_str()).as_slice())),
        Some(JsonValue::Number { text, .. }) => Some(chars_to_string(str_to_chars(text.as_str()).as_slice())),
        _ => None,
    };
    Some(
        Diagnostic {
            file: chars_to_string(str_to_chars(path).as_slice()),
            range: TextRange {
                start: TextPosition { line: start.0, column: start.1, char_offset: char_offset_at(source_text, start) },
                end: TextPosition { line: end.0, column: end.1, char_offset: char_offset_at(source_text, end) },
            },
            severity,
            message: chars_to_string(str_to_chars(message).as_slice()),
            source: DiagnosticSource::Lsp,
            code,
            stale: false,
        },
    )
}

} // verus!
