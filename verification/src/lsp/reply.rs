//! What the editor does with a language server's reply to one of its
//! requests: what to show, where to go, which edits to make.

use vstd::prelude::*;

use std::ops::Range;

use crate::app::{ColumnHint, CompletionCandidate, NavigationLocation, PendingLspRequest};
use crate::chars::{chars_to_string, lit, str_to_chars};
use crate::lsp::json::{get_opt, str_opt, u64_opt, JsonValue};
use crate::lsp::response::{completion_candidate, hover_lines, location_fits_check, lsp_location, lsp_text_edit, signature_help_lines};
use crate::lsp::uri::file_uri_to_path;

verus! {

/// What a reply calls for.
#[derive(Debug)]
pub enum LspReply {
    /// Nothing at all.
    Nothing,
    /// A message only.
    Notify(String),
    /// Save a file as it is, with a message: the formatter changed nothing.
    FormatUnchanged { path: String, message: String },
    /// Show hover lines.
    Hover(Vec<String>),
    /// Open a location.
    OpenLocation(NavigationLocation),
    /// Offer completions.
    Completions(Vec<CompletionCandidate>),
    /// List reference locations.
    References(Vec<NavigationLocation>),
    /// Apply formatting edits, then save.
    FormatEdits { path: String, edits: Vec<(Range<usize>, String)> },
    /// Show signature help lines.
    Signature(Vec<String>),
}

/// A reply as plain values.
pub enum ReplyModel {
    Nothing,
    Notify(Seq<char>),
    FormatUnchanged(Seq<char>, Seq<char>),
    Hover(Seq<Seq<char>>),
    OpenLocation((Seq<char>, int, ColumnHint)),
    Completions(Seq<crate::lsp::response::CandidateModel>),
    References(Seq<(Seq<char>, int, ColumnHint)>),
    FormatEdits(Seq<char>, Seq<((int, int), Seq<char>)>),
    Signature(Seq<Seq<char>>),
}

pub open spec fn location_model(l: NavigationLocation) -> (Seq<char>, int, ColumnHint) {
    (l.path@, l.line as int, l.column)
}

pub open spec fn edit_model(e: (Range<usize>, String)) -> ((int, int), Seq<char>) {
    ((e.0.start as int, e.0.end as int), e.1@)
}

pub open spec fn reply_model(r: LspReply) -> ReplyModel {
    match r {
        LspReply::Nothing => ReplyModel::Nothing,
        LspReply::Notify(m) => ReplyModel::Notify(m@),
        LspReply::FormatUnchanged { path, message } => ReplyModel::FormatUnchanged(path@, message@),
        LspReply::Hover(lines) => ReplyModel::Hover(crate::unicode::views(lines@)),
        LspReply::OpenLocation(l) => ReplyModel::OpenLocation(location_model(l)),
        LspReply::Completions(cs) => ReplyModel::Completions(
            cs@.map_values(|c: CompletionCandidate| crate::lsp::response::candidate_model(c)),
        ),
        LspReply::References(ls) => ReplyModel::References(ls@.map_values(|l: NavigationLocation| location_model(l))),
        LspReply::FormatEdits { path, edits } => ReplyModel::FormatEdits(
            path@,
            edits@.map_values(|e: (Range<usize>, String)| edit_model(e)),
        ),
        LspReply::Signature(lines) => ReplyModel::Signature(crate::unicode::views(lines@)),
    }
}

/// The most completions offered at once.
pub const COMPLETION_LIMIT: usize = 200;

/// The completions among the items, in order.
pub open spec fn candidates_of(items: Seq<JsonValue>) -> Seq<crate::lsp::response::CandidateModel>
    decreases items.len(),
{
    if items.len() == 0 {
        Seq::empty()
    } else {
        let rest = candidates_of(items.drop_last());
        match crate::lsp::response::spec_completion_candidate(items.last()) {
            Some(c) => rest.push(c),
            None => rest,
        }
    }
}

/// The locations among the items, in order.
pub open spec fn locations_of(items: Seq<JsonValue>) -> Seq<(Seq<char>, int, ColumnHint)>
    decreases items.len(),
{
    if items.len() == 0 {
        Seq::empty()
    } else {
        let rest = locations_of(items.drop_last());
        match crate::lsp::response::spec_lsp_location(items.last()) {
            Some(l) => rest.push(l),
            None => rest,
        }
    }
}

/// The text edits among the items, in order.
pub open spec fn edits_of(source: Seq<char>, items: Seq<JsonValue>) -> Seq<((int, int), Seq<char>)>
    decreases items.len(),
{
    if items.len() == 0 {
        Seq::empty()
    } else {
        let rest = edits_of(source, items.drop_last());
        match crate::lsp::response::spec_lsp_text_edit(source, items.last()) {
            Some(e) => rest.push(e),
            None => rest,
        }
    }
}

/// The start of a definition's location: of its `range`, else of its
/// `targetSelectionRange`.
pub open spec fn definition_start(location: JsonValue) -> Option<JsonValue> {
    crate::lsp::response::location_start(location)
}

/// The location a definition reply points at: its first item when it is an
/// array.
pub open spec fn definition_location(result: JsonValue) -> Option<JsonValue> {
    match crate::lsp::json::array_of(Some(result)) {
        Some(items) => if items.len() > 0 { Some(items[0]) } else { None },
        None => Some(result),
    }
}

/// Lines and columns of the locations in a reply leave room to count
/// from 1.
pub open spec fn reply_fits(result: JsonValue) -> bool {
    &&& (definition_location(result) matches Some(l) ==> crate::lsp::response::location_fits(l))
    &&& (crate::lsp::json::array_of(Some(result)) matches Some(items) ==> forall|k: int|
        0 <= k < items.len() ==> crate::lsp::response::location_fits(#[trigger] items[k]))
}

/// Whether a reply's locations leave room to count from 1, as `lsp_reply`
/// needs of its result.
pub fn reply_fits_check(result: &JsonValue) -> (b: bool)
    ensures
        b == reply_fits(*result),
{
    let first_ok = match result.as_array() {
        Some(items) => if items.len() > 0 { location_fits_check(&items[0]) } else { true },
        None => location_fits_check(result),
    };
    if !first_ok {
        return false;
    }
    match result.as_array() {
        Some(items) => {
            let mut k: usize = 0;
            while k < items.len()
                invariant
                    k <= items@.len(),
                    crate::lsp::json::array_of(Some(*result)) == Some(items@),
                    forall|j: int| 0 <= j < k ==> crate::lsp::response::location_fits(#[trigger] items@[j]),
                decreases items.len() - k,
            {
                if !location_fits_check(&items[k]) {
                    return false;
                }
                k = k + 1;
            }
            true
        },
        None => true,
    }
}

/// A reply's result counts as missing when it is absent or JSON `null`.
pub open spec fn present(result: Option<JsonValue>) -> Option<JsonValue> {
    match result {
        Some(JsonValue::Null) => None,
        other => other,
    }
}

pub open spec fn stale() -> Seq<char> {
    "Stale LSP response discarded"@
}

/// Where a definition reply sends the editor: the file of its location
/// (or location link), at its start counted from 1; nothing without a
/// usable location.
pub open spec fn spec_definition_reply(r: JsonValue) -> ReplyModel {
    match definition_location(r) {
            None => ReplyModel::Nothing,
            Some(l) => {
                let uri = crate::lsp::json::str_of(
                    crate::lsp::json::or_else(
                        crate::lsp::json::spec_get(l, "uri"@),
                        crate::lsp::json::spec_get(l, "targetUri"@),
                    ),
                );
                let path = match uri {
                    Some(u) => crate::lsp::uri::spec_file_uri_to_path(u),
                    None => None,
                };
                let start = definition_start(l);
                let line = match crate::lsp::json::u64_of(crate::lsp::json::get_in(start, "line"@)) {
                    Some(n) => n as usize,
                    None => 0usize,
                };
                let column = match crate::lsp::json::u64_of(crate::lsp::json::get_in(start, "character"@)) {
                    Some(n) => n as usize,
                    None => 0usize,
                };
                match path {
                    Some(p) => ReplyModel::OpenLocation((p, line + 1, ColumnHint::Utf16((column + 1) as usize))),
                    None => ReplyModel::Nothing,
                }
            },
        }
}

/// What a reply calls for: `active` says whether the request's file is
/// still the active one, `source` is the active buffer's text.
pub open spec fn spec_lsp_reply(request: PendingLspRequest, active: bool, result: Option<JsonValue>, source: Seq<char>) -> ReplyModel {
    match present(result) {
        None => match request {
            PendingLspRequest::Formatting(p) => ReplyModel::FormatUnchanged(
                p@,
                "Formatter returned no edits; saving unchanged"@,
            ),
            _ => ReplyModel::Notify("LSP returned no result"@),
        },
        Some(r) => match request {
            PendingLspRequest::Definition(_) => spec_definition_reply(r),
            _ => if !active {
                ReplyModel::Notify(stale())
            } else {
                match request {
                    PendingLspRequest::Hover(_) => {
                        let lines = crate::lsp::response::spec_hover_lines(r);
                        if lines.len() == 0 { ReplyModel::Notify("No hover information"@) } else { ReplyModel::Hover(lines) }
                    },
                    PendingLspRequest::Completion(_) => {
                        let items = match crate::lsp::json::array_of(Some(r)) {
                            Some(items) => items,
                            None => match crate::lsp::json::array_of(crate::lsp::json::spec_get(r, "items"@)) {
                                Some(items) => items,
                                None => Seq::empty(),
                            },
                        };
                        let cs = crate::search::files::first_n(candidates_of(items), COMPLETION_LIMIT as int);
                        if cs.len() == 0 { ReplyModel::Notify("No completions"@) } else { ReplyModel::Completions(cs) }
                    },
                    PendingLspRequest::References(_) => {
                        let ls = match crate::lsp::json::array_of(Some(r)) {
                            Some(items) => locations_of(items),
                            None => Seq::empty(),
                        };
                        if ls.len() == 0 { ReplyModel::Notify("No references found"@) } else { ReplyModel::References(ls) }
                    },
                    PendingLspRequest::Formatting(p) => {
                        let es = match crate::lsp::json::array_of(Some(r)) {
                            Some(items) => edits_of(source, items),
                            None => Seq::empty(),
                        };
                        if es.len() == 0 {
                            ReplyModel::FormatUnchanged(p@, "Document is already formatted"@)
                        } else {
                            ReplyModel::FormatEdits(p@, es)
                        }
                    },
                    PendingLspRequest::SignatureHelp(_) => {
                        let lines = crate::lsp::response::spec_signature_help_lines(r);
                        if lines.len() == 0 {
                            ReplyModel::Notify("No signature help available"@)
                        } else {
                            ReplyModel::Signature(lines)
                        }
                    },
                    PendingLspRequest::Definition(_) => ReplyModel::Nothing,
                }
            },
        },
    }
}

fn text(s: &str) -> (r: String)
    ensures
        r@ == s@,
{
    chars_to_string(str_to_chars(s).as_slice())
}

fn message(s: &str) -> (r: LspReply)
    ensures
        reply_model(r) == ReplyModel::Notify(s@),
{
    LspReply::Notify(text(s))
}

fn definition_reply(result: &JsonValue) -> (r: LspReply)
    requires
        reply_fits(*result),
    ensures
        reply_model(r) == spec_definition_reply(*result),
{
    let location = match result.as_array() {
        Some(items) => if items.len() > 0 {
            &items[0]
        } else {
            return LspReply::Nothing;
        },
        None => result,
    };
    let uri = match location.get("uri") {
        Some(u) => Some(u),
        None => location.get("targetUri"),
    };
    let path = match str_opt(uri) {
        Some(u) => file_uri_to_path(u),
        None => None,
    };
    let range = match location.get("range") {
        Some(r) => Some(r),
        None => location.get("targetSelectionRange"),
    };
    let start = get_opt(range, "start");
    let line = match u64_opt(get_opt(start, "line")) {
        Some(n) => n as usize,
        None => 0,
    };
    let column = match u64_opt(get_opt(start, "character")) {
        Some(n) => n as usize,
        None => 0,
    };
    assert(crate::lsp::response::location_fits(*location));
    match path {
        Some(p) => LspReply::OpenLocation(
            NavigationLocation { path: p, line: line + 1, column: ColumnHint::Utf16(column + 1) },
        ),
        None => LspReply::Nothing,
    }
}

fn completions_reply(result: &JsonValue) -> (r: LspReply)
    ensures
        ({
            let items = match crate::lsp::json::array_of(Some(*result)) {
                Some(items) => items,
                None => match crate::lsp::json::array_of(crate::lsp::json::spec_get(*result, "items"@)) {
                    Some(items) => items,
                    None => Seq::empty(),
                },
            };
            let cs = crate::search::files::first_n(candidates_of(items), COMPLETION_LIMIT as int);
            reply_model(r) == if cs.len() == 0 {
                ReplyModel::Notify("No completions"@)
            } else {
                ReplyModel::Completions(cs)
            }
        }),
{
    let empty: Vec<JsonValue> = Vec::new();
    let items: &Vec<JsonValue> = match result.as_array() {
        Some(items) => items,
        None => match result.get("items") {
            Some(inner) => match inner.as_array() {
                Some(items) => items,
                None => &empty,
            },
            None => &empty,
        },
    };
    let mut out: Vec<CompletionCandidate> = Vec::new();
    let mut i: usize = 0;
    assert(items@.take(0) =~= Seq::<JsonValue>::empty());
    while i < items.len() && out.len() < COMPLETION_LIMIT
        invariant
            i <= items@.len(),
            out@.len() <= COMPLETION_LIMIT,
            out@.map_values(|c: CompletionCandidate| crate::lsp::response::candidate_model(c))
                == crate::search::files::first_n(candidates_of(items@.take(i as int)), COMPLETION_LIMIT as int),
            candidates_of(items@.take(i as int)).len() >= out@.len(),
            out@.len() < COMPLETION_LIMIT ==> out@.len() == candidates_of(items@.take(i as int)).len(),
        decreases items.len() - i,
    {
        assert(items@.take(i + 1).drop_last() =~= items@.take(i as int));
        assert(items@.take(i + 1).last() == items@[i as int]);
        match completion_candidate(&items[i]) {
            Some(c) => {
                let ghost before = out@;
                out.push(c);
                assert(out@.map_values(|c: CompletionCandidate| crate::lsp::response::candidate_model(c))
                    =~= before.map_values(|c: CompletionCandidate| crate::lsp::response::candidate_model(c)).push(
                    crate::lsp::response::candidate_model(c),
                ));
            },
            None => {},
        }
        i = i + 1;
    }
    proof {
        lemma_first_n_stable(items@, i as int);
    }
    if out.len() == 0 {
        message("No completions")
    } else {
        LspReply::Completions(out)
    }
}

/// Once `COMPLETION_LIMIT` candidates are found, later items change
/// nothing of the first ones.
proof fn lemma_first_n_stable(items: Seq<JsonValue>, i: int)
    requires
        0 <= i <= items.len(),
    ensures
        candidates_of(items.take(i)).len() >= COMPLETION_LIMIT ==> crate::search::files::first_n(
            candidates_of(items),
            COMPLETION_LIMIT as int,
        ) == crate::search::files::first_n(candidates_of(items.take(i)), COMPLETION_LIMIT as int),
        candidates_of(items.take(i)).len() < COMPLETION_LIMIT && i == items.len() ==> candidates_of(items)
            == candidates_of(items.take(i)),
    decreases items.len() - i,
{
    if i == items.len() {
        assert(items.take(i) =~= items);
    } else {
        lemma_candidates_prefix(items, i);
    }
}

/// The candidates of a prefix of the items start the candidates of all.
proof fn lemma_candidates_prefix(items: Seq<JsonValue>, i: int)
    requires
        0 <= i <= items.len(),
    ensures
        candidates_of(items.take(i)).len() <= candidates_of(items).len(),
        candidates_of(items).take(candidates_of(items.take(i)).len() as int) == candidates_of(items.take(i)),
    decreases items.len() - i,
{
    if i == items.len() {
        assert(items.take(i) =~= items);
        assert(candidates_of(items).take(candidates_of(items).len() as int) =~= candidates_of(items));
    } else {
        lemma_candidates_prefix(items.drop_last(), i);
        assert(items.drop_last().take(i) =~= items.take(i));
        let a = candidates_of(items.take(i));
        let b = candidates_of(items.drop_last());
        let c = candidates_of(items);
        assert(c.take(a.len() as int) =~= b.take(a.len() as int));
    }
}

fn references_reply(result: &JsonValue) -> (r: LspReply)
    requires
        reply_fits(*result),
    ensures
        ({
            let ls = match crate::lsp::json::array_of(Some(*result)) {
                Some(items) => locations_of(items),
                None => Seq::empty(),
            };
            reply_model(r) == if ls.len() == 0 {
                ReplyModel::Notify("No references found"@)
            } else {
                ReplyModel::References(ls)
            }
        }),
{
    let mut out: Vec<NavigationLocation> = Vec::new();
    match result.as_array() {
        Some(items) => {
            let mut i: usize = 0;
            assert(items@.take(0) =~= Seq::<JsonValue>::empty());
            while i < items.len()
                invariant
                    i <= items@.len(),
                    forall|k: int| 0 <= k < items@.len() ==> crate::lsp::response::location_fits(#[trigger] items@[k]),
                    out@.map_values(|l: NavigationLocation| location_model(l)) == locations_of(items@.take(i as int)),
                decreases items.len() - i,
            {
                assert(items@.take(i + 1).drop_last() =~= items@.take(i as int));
                assert(items@.take(i + 1).last() == items@[i as int]);
                assert(crate::lsp::response::location_fits(items@[i as int]));
                match lsp_location(&items[i]) {
                    Some(l) => {
                        let ghost before = out@;
                        out.push(l);
                        assert(out@.map_values(|l: NavigationLocation| location_model(l)) =~= before.map_values(
                            |l: NavigationLocation| location_model(l),
                        ).push(location_model(l)));
                    },
                    None => {},
                }
                i = i + 1;
            }
            assert(items@.take(i as int) =~= items@);
        },
        None => {
            assert(out@.map_values(|l: NavigationLocation| location_model(l)) =~= Seq::empty());
        },
    }
    if out.len() == 0 {
        message("No references found")
    } else {
        LspReply::References(out)
    }
}

fn formatting_reply(path: &String, result: &JsonValue, source: &str) -> (r: LspReply)
    ensures
        ({
            let es = match crate::lsp::json::array_of(Some(*result)) {
                Some(items) => edits_of(source@, items),
                None => Seq::empty(),
            };
            reply_model(r) == if es.len() == 0 {
                ReplyModel::FormatUnchanged(path@, "Document is already formatted"@)
            } else {
                ReplyModel::FormatEdits(path@, es)
            }
        }),
{
    let mut out: Vec<(Range<usize>, String)> = Vec::new();
    match result.as_array() {
        Some(items) => {
            let mut i: usize = 0;
            assert(items@.take(0) =~= Seq::<JsonValue>::empty());
            while i < items.len()
                invariant
                    i <= items@.len(),
                    out@.map_values(|e: (Range<usize>, String)| edit_model(e)) == edits_of(source@, items@.take(i as int)),
                decreases items.len() - i,
            {
                assert(items@.take(i + 1).drop_last() =~= items@.take(i as int));
                assert(items@.take(i + 1).last() == items@[i as int]);
                match lsp_text_edit(source, &items[i]) {
                    Some(e) => {
                        let ghost before = out@;
                        let ghost m = edit_model(e);
                        out.push(e);
                        assert(out@.map_values(|e: (Range<usize>, String)| edit_model(e)) =~= before.map_values(
                            |e: (Range<usize>, String)| edit_model(e),
                        ).push(m));
                    },
                    None => {},
                }
                i = i + 1;
            }
            assert(items@.take(i as int) =~= items@);
        },
        None => {
            assert(out@.map_values(|e: (Range<usize>, String)| edit_model(e)) =~= Seq::empty());
        },
    }
    if out.len() == 0 {
        LspReply::FormatUnchanged { path: text(path.as_str()), message: text("Document is already formatted") }
    } else {
        LspReply::FormatEdits { path: text(path.as_str()), edits: out }
    }
}

/// What a reply to `request` calls for. `active` says whether the
/// request's file is still the active tab's (a definition jump is taken
/// either way); `source` is the active buffer's text, which formatting
/// edits apply to.
pub fn lsp_reply(request: &PendingLspRequest, active: bool, result: Option<&JsonValue>, source: &str) -> (r: LspReply)
    requires
        result matches Some(x) ==> reply_fits(*x),
    ensures
        reply_model(r) == spec_lsp_reply(
            *request,
            active,
            match result {
                Some(x) => Some(*x),
                None => None,
            },
            source@,
        ),
{
    let result = match result {
        Some(JsonValue::Null) | None => {
            return match request {
                PendingLspRequest::Formatting(p) => LspReply::FormatUnchanged {
                    path: text(p.as_str()),
                    message: text("Formatter returned no edits; saving unchanged"),
                },
                _ => message("LSP returned no result"),
            };
        },
        Some(x) => x,
    };
    match request {
        PendingLspRequest::Definition(_) => definition_reply(result),
        _ => {
            if !active {
                return message("Stale LSP response discarded");
            }
            match request {
                PendingLspRequest::Hover(_) => {
                    let lines = hover_lines(result);
                    if lines.len() == 0 {
                        message("No hover information")
                    } else {
                        LspReply::Hover(lines)
                    }
                },
                PendingLspRequest::Completion(_) => completions_reply(result),
                PendingLspRequest::References(_) => references_reply(result),
                PendingLspRequest::Formatting(p) => formatting_reply(p, result, source),
                PendingLspRequest::SignatureHelp(_) => {
                    let lines = signature_help_lines(result);
                    if lines.len() == 0 {
                        message("No signature help available")
                    } else {
                        LspReply::Signature(lines)
                    }
                },
                PendingLspRequest::Definition(_) => LspReply::Nothing,
            }
        },
    }
}

} // verus!
