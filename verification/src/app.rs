//! Editor state vocabulary and the small decisions the editor makes outside
//! buffers: git failure guidance, the wrap width, glob lists.

pub mod state;

use vstd::prelude::*;

use crate::chars::{contains_chars, str_to_chars, to_ascii_lower, trim_bounds, sub_string};
use crate::chars;
use crate::git::status::GitFileChange;
use crate::lsp::position::{position_to_char_offset, spec_position_to_char_offset, utf16_column_to_char, Position};
use crate::buffer::selection::{CharOffset, Selection};
use crate::buffer::text_buffer::{edit_recorded, BufferError, TextBuffer};
use crate::buffer::rope::{rope_len_lines, rope_line_string, rope_line_to_char};
use ropey::Rope;

verus! {

/// A completion offered by a language server, ready to insert.
#[derive(Debug, Clone, PartialEq, Eq)]
pub struct CompletionCandidate {
    pub label: String,
    pub insert_text: String,
    pub detail: Option<String>,
    /// The range `insert_text` replaces, in LSP (UTF-16) positions: the
    /// item's `textEdit.range`, or `textEdit.insert` for an insert/replace
    /// edit. `None` inserts at the cursor.
    pub replace_range: Option<(Position, Position)>,
    /// Where the cursor goes within `insert_text`, for a snippet.
    pub cursor_char_offset: Option<usize>,
}

/// How a column is counted in a location to open.
#[derive(Debug, Clone, Copy, PartialEq, Eq, Structural)]
pub enum ColumnHint {
    /// In chars, from 1.
    Chars(usize),
    /// In UTF-16 code units, from 1.
    Utf16(usize),
}

/// A place to jump to: a file, a line from 1 and a column.
#[derive(Debug, Clone, PartialEq, Eq)]
pub struct NavigationLocation {
    pub path: String,
    pub line: usize,
    pub column: ColumnHint,
}

#[derive(Debug, Clone, Copy, PartialEq, Eq, Structural)]
pub enum Focus {
    Sidebar,
    Editor,
    BottomPanel,
    Overlay,
}

#[derive(Debug, Clone, Copy, PartialEq, Eq, Structural)]
pub enum BottomPanelView {
    Problems,
    Output,
    Terminal,
}

#[derive(Debug, Clone, Copy, PartialEq, Eq, Structural)]
pub enum SidebarView {
    Explorer,
    SourceControl,
    Search,
}

#[derive(Debug, Clone, Copy, PartialEq, Eq, Structural)]
pub enum GitSection {
    Staged,
    Conflicted,
    Untracked,
    Working,
}

#[derive(Debug, Clone, PartialEq, Eq)]
pub enum WorkspaceSearchRow {
    File(String),
    Match(usize),
}

#[derive(Debug, Clone, PartialEq, Eq)]
pub enum DiagnosticRow {
    File(String),
    Item(usize),
}

#[derive(Debug, Clone)]
pub enum PendingLspRequest {
    Hover(String),
    Definition(String),
    Completion(String),
    References(String),
    Formatting(String),
    SignatureHelp(String),
}

#[derive(Debug, Clone)]
pub enum PathAction {
    CreateFile,
    CreateDirectory,
    Move { source: String },
    SaveAs { tab: usize },
}

#[derive(Debug, Clone)]
pub enum GitOperation {
    Stage(String),
    Unstage(String),
    Restore(String),
    StageHunk(String),
    UnstageHunk(String),
    RestoreHunk(String),
    Commit(String),
    SwitchBranch(String),
    CreateBranch(String),
    Fetch,
    Pull,
    Push,
}

#[derive(Debug, Clone)]
pub struct SaveAsPlan {
    pub tab: usize,
    pub snapshot: crate::buffer::text_buffer::SaveSnapshot,
}

#[derive(Debug)]
pub enum SaveAsInspection {
    Ready(SaveAsPlan),
    ConfirmOverwrite(SaveAsPlan),
}

#[derive(Debug)]
pub enum FileOperationResult {
    Created { path: String, directory: bool },
    Moved { source: String, destination: String },
    Deleted(String),
}

impl GitSection {
    /// Which Source Control section lists a file: conflicts only under
    /// Conflicted, untracked files only under Untracked.
    pub open spec fn spec_contains(self, file: GitFileChange) -> bool {
        match self {
            GitSection::Staged => file.staged && !file.conflicted,
            GitSection::Conflicted => file.conflicted,
            GitSection::Untracked => file.untracked,
            GitSection::Working => file.unstaged && !file.conflicted && !file.untracked,
        }
    }

    pub fn contains(self, file: &GitFileChange) -> (b: bool)
        ensures
            b == self.spec_contains(*file),
    {
        match self {
            GitSection::Staged => file.staged && !file.conflicted,
            GitSection::Conflicted => file.conflicted,
            GitSection::Untracked => file.untracked,
            GitSection::Working => file.unstaged && !file.conflicted && !file.untracked,
        }
    }

    pub open spec fn spec_title(self) -> Seq<char> {
        match self {
            GitSection::Staged => "STAGED CHANGES"@,
            GitSection::Conflicted => "CONFLICTED"@,
            GitSection::Untracked => "UNTRACKED"@,
            GitSection::Working => "WORKING TREE CHANGES"@,
        }
    }

    pub fn title(self) -> (t: &'static str)
        ensures
            t@ == self.spec_title(),
    {
        match self {
            GitSection::Staged => "STAGED CHANGES",
            GitSection::Conflicted => "CONFLICTED",
            GitSection::Untracked => "UNTRACKED",
            GitSection::Working => "WORKING TREE CHANGES",
        }
    }
}

pub open spec fn auth_guidance() -> Seq<char> {
    "Authentication failed. Verify the remote URL and configure HTTPS credentials or an SSH key."@
}

pub open spec fn rejected_guidance() -> Seq<char> {
    "Push was rejected because the remote has newer commits. Pull or fetch and reconcile the branch before pushing again."@
}

pub open spec fn upstream_guidance() -> Seq<char> {
    "This branch has no upstream. Configure one with `git push --set-upstream <remote> <branch>`."@
}

pub open spec fn identity_guidance() -> Seq<char> {
    "Git author identity is not configured. Set `git config --global user.name` and `git config --global user.email`."@
}

pub open spec fn conflict_guidance() -> Seq<char> {
    "Git found unresolved merge conflicts. Resolve and stage conflicted files before retrying."@
}

/// Advice for a git failure, picked by what the (ASCII-lowercased) error
/// mentions; an error that matches nothing is passed through unchanged.
pub open spec fn spec_git_error_guidance(error: Seq<char>) -> Seq<char> {
    let lower = chars::ascii_lower(error);
    if chars::contains(lower, "authentication failed"@) || chars::contains(lower, "could not read username"@)
        || chars::contains(lower, "permission denied (publickey)"@) {
        auth_guidance()
    } else if chars::contains(lower, "non-fast-forward"@) || chars::contains(lower, "rejected"@) {
        rejected_guidance()
    } else if chars::contains(lower, "no upstream branch"@) || chars::contains(lower, "has no upstream"@) {
        upstream_guidance()
    } else if chars::contains(lower, "author identity unknown"@) || chars::contains(lower, "please tell me who you are"@)
        || chars::contains(lower, "user.email"@) {
        identity_guidance()
    } else if chars::contains(lower, "unmerged files"@) || chars::contains(lower, "resolve your current index"@) {
        conflict_guidance()
    } else {
        error
    }
}

pub fn git_error_guidance(error: &str) -> (g: String)
    ensures
        g@ == spec_git_error_guidance(error@),
{
    let lower = to_ascii_lower(&str_to_chars(error));
    let guidance = if contains_chars(&lower, "authentication failed") || contains_chars(&lower, "could not read username")
        || contains_chars(&lower, "permission denied (publickey)") {
        "Authentication failed. Verify the remote URL and configure HTTPS credentials or an SSH key."
    } else if contains_chars(&lower, "non-fast-forward") || contains_chars(&lower, "rejected") {
        "Push was rejected because the remote has newer commits. Pull or fetch and reconcile the branch before pushing again."
    } else if contains_chars(&lower, "no upstream branch") || contains_chars(&lower, "has no upstream") {
        "This branch has no upstream. Configure one with `git push --set-upstream <remote> <branch>`."
    } else if contains_chars(&lower, "author identity unknown") || contains_chars(&lower, "please tell me who you are")
        || contains_chars(&lower, "user.email") {
        "Git author identity is not configured. Set `git config --global user.name` and `git config --global user.email`."
    } else if contains_chars(&lower, "unmerged files") || contains_chars(&lower, "resolve your current index") {
        "Git found unresolved merge conflicts. Resolve and stage conflicted files before retrying."
    } else {
        return error.to_owned();
    };
    guidance.to_owned()
}

/// Number of decimal digits of `n`.
pub open spec fn decimal_len(n: nat) -> nat
    decreases n,
{
    if n < 10 { 1 } else { 1 + decimal_len(n / 10) }
}

pub proof fn lemma_decimal_len(n: nat)
    ensures
        decimal_len(n) >= 1,
        n >= 1 ==> decimal_len(n) <= n,
        n >= 10 ==> decimal_len(n) >= 2,
    decreases n,
{
    if n >= 10 {
        lemma_decimal_len(n / 10);
    }
}

fn decimal_digits(n: usize) -> (d: usize)
    ensures
        d == decimal_len(n as nat),
{
    let mut m = n;
    let mut d: usize = 1;
    proof { lemma_decimal_len(n as nat); }
    while m >= 10
        invariant
            decimal_len(n as nat) == d - 1 + decimal_len(m as nat),
            1 <= d,
            m <= n,
            decimal_len(n as nat) <= n || n == 0,
        decreases m,
    {
        proof { lemma_decimal_len(m as nat); lemma_decimal_len((m / 10) as nat); }
        m = m / 10;
        d = d + 1;
    }
    d
}

/// `a - b`, or 0 when `b` is larger.
pub open spec fn monus(a: int, b: int) -> int {
    if a > b { a - b } else { 0 }
}

/// Width available for text in the editor: the terminal width less the
/// sidebar (when visible, and never wider than the terminal minus 24), a
/// three-column frame, half of it when split, and a gutter as wide as the
/// line count (at least two digits) plus three; at least 1.
pub open spec fn spec_editor_wrap_width(terminal_width: u16, sidebar_visible: bool, configured_sidebar_width: u16, split: bool, line_count: usize) -> usize {
    let sidebar = if sidebar_visible {
        let cap = monus(terminal_width as int, 24);
        if (configured_sidebar_width as int) < cap { configured_sidebar_width as int } else { cap }
    } else {
        0
    };
    let editor = monus(monus(terminal_width as int, 3), sidebar);
    let group = if split { monus(editor, 1) / 2 } else { editor };
    let digits = if decimal_len(line_count as nat) > 2 { decimal_len(line_count as nat) as int } else { 2 };
    let w = monus(group, digits + 3);
    (if w > 1 { w } else { 1 }) as usize
}

pub fn editor_wrap_width(terminal_width: u16, sidebar_visible: bool, configured_sidebar_width: u16, split: bool, line_count: usize) -> (w: usize)
    ensures
        w == spec_editor_wrap_width(terminal_width, sidebar_visible, configured_sidebar_width, split, line_count),
{
    let sidebar_width: u16 = if sidebar_visible {
        let cap = terminal_width.saturating_sub(24);
        if configured_sidebar_width < cap { configured_sidebar_width } else { cap }
    } else {
        0
    };
    let editor_width = terminal_width.saturating_sub(3).saturating_sub(sidebar_width);
    let group_width = if split { editor_width.saturating_sub(1) / 2 } else { editor_width };
    let digits = decimal_digits(line_count);
    let gutter = if digits > 2 { digits } else { 2 };
    let w = (group_width as usize).saturating_sub(gutter).saturating_sub(3);
    if w > 1 { w } else { 1 }
}

/// The non-empty trimmed pieces of a comma-separated list.
pub open spec fn spec_split_globs(value: Seq<char>) -> Seq<Seq<char>>
    decreases value.len(),
{
    match chars::spec_find(value, seq![',']) {
        Some(i) => {
            let piece = chars::spec_trim(value.take(i));
            proof { chars::lemma_find_facts(value, seq![',']); }
            (if piece.len() > 0 { seq![piece] } else { Seq::empty() }) + spec_split_globs(value.skip(i + 1))
        },
        None => {
            let piece = chars::spec_trim(value);
            if piece.len() > 0 { seq![piece] } else { Seq::empty() }
        },
    }
}

pub fn split_globs(value: &str) -> (r: Vec<String>)
    ensures
        r@.map_values(|s: String| s@) == spec_split_globs(value@),
{
    let mut rest = str_to_chars(value);
    let comma = str_to_chars(",");
    proof { reveal_strlit(","); assert(comma@ =~= seq![',']); }
    let mut out: Vec<String> = Vec::new();
    loop
        invariant
            comma@ == seq![','],
            out@.map_values(|s: String| s@) + spec_split_globs(rest@) == spec_split_globs(value@),
        decreases rest@.len(),
    {
        let ghost before = out@.map_values(|s: String| s@);
        proof { chars::lemma_find_facts(rest@, comma@); }
        match chars::find(&rest, &comma) {
            Some(i) => {
                let head = chars::sub_vec(&rest, 0, i);
                assert(head@ =~= rest@.take(i as int));
                let (a, b) = trim_bounds(&head);
                if a < b {
                    out.push(sub_string(&head, a, b));
                    assert(out@.map_values(|s: String| s@) =~= before + seq![chars::spec_trim(rest@.take(i as int))]);
                } else {
                    assert(out@.map_values(|s: String| s@) =~= before);
                }
                let n = rest.len();
                let tail = chars::sub_vec(&rest, i + 1, n);
                assert(tail@ =~= rest@.skip(i + 1));
                rest = tail;
            },
            None => {
                let (a, b) = trim_bounds(&rest);
                if a < b {
                    out.push(sub_string(&rest, a, b));
                    assert(out@.map_values(|s: String| s@) =~= before + seq![chars::spec_trim(rest@)]);
                } else {
                    assert(out@.map_values(|s: String| s@) =~= before + Seq::<Seq<char>>::empty());
                }
                return out;
            },
        }
    }
}

/// Whether cargo's error output says clippy is missing (then plain
/// `cargo check` runs instead).
pub open spec fn spec_clippy_unavailable(stderr: Seq<u8>) -> bool {
    let text = crate::chars::lowercase(crate::chars::lossy_utf8(stderr));
    crate::chars::contains(text, "no such command"@) || crate::chars::contains(text, "is not installed"@)
}

pub fn clippy_unavailable(stderr: &[u8]) -> (b: bool)
    ensures
        b == spec_clippy_unavailable(stderr@),
{
    let text = crate::chars::to_lowercase(crate::chars::utf8_lossy(stderr).as_str());
    let chars = crate::chars::str_to_chars(text.as_str());
    crate::chars::contains_chars(&chars, "no such command") || crate::chars::contains_chars(&chars, "is not installed")
}


/// The char in a line a column hint points at, never past the line's end
/// (its break included): hints count from 1.
pub open spec fn hinted_column(line: Seq<char>, column: Option<ColumnHint>) -> int {
    let target: int = match column {
        Some(ColumnHint::Chars(v)) => if v == 0 { 0 } else { v - 1 },
        Some(ColumnHint::Utf16(v)) => crate::lsp::position::spec_utf16_column_to_char(
            line,
            (if v == 0 { 0 } else { v - 1 }) as nat,
        ) as int,
        None => 0,
    };
    if target < line.len() { target } else { line.len() as int }
}

/// Where the cursor goes in a file opened at a line (from 1; the first by
/// default, the last where the file is shorter) and column.
pub open spec fn spec_opened_cursor_offset(text: Seq<char>, line: Option<usize>, column: Option<ColumnHint>) -> int {
    let wanted: int = match line {
        Some(l) => if l == 0 { 0 } else { l - 1 },
        None => 0,
    };
    let last = crate::buffer::rope::count_lf(text) as int;
    let target = (if wanted < last { wanted } else { last }) as nat;
    crate::buffer::rope::line_start(text, target) + hinted_column(crate::buffer::rope::line_text(text, target), column)
}

/// The cursor offset for a file opened at a line and column hint.
pub fn opened_cursor_offset(text: &Rope, line: Option<usize>, column: Option<ColumnHint>) -> (r: usize)
    ensures
        r as int == spec_opened_cursor_offset(crate::buffer::rope::rope_chars(*text), line, column),
{
    let ghost s = crate::buffer::rope::rope_chars(*text);
    let wanted = match line {
        Some(l) => if l == 0 { 0 } else { l - 1 },
        None => 0,
    };
    let n_lines = rope_len_lines(text);
    let _total = crate::buffer::rope::rope_len_chars(text);
    let target_line = if wanted < n_lines - 1 { wanted } else { n_lines - 1 };
    let line_start = rope_line_to_char(text, target_line);
    let line_text = rope_line_string(text, target_line);
    let line_len = str_to_chars(line_text.as_str()).len();
    let target = match column {
        Some(ColumnHint::Chars(v)) => if v == 0 { 0 } else { v - 1 },
        Some(ColumnHint::Utf16(v)) => utf16_column_to_char(line_text.as_str(), if v == 0 { 0 } else { v - 1 }),
        None => 0,
    };
    let column_offset = if target < line_len { target } else { line_len };
    proof {
        crate::buffer::rope::lemma_line_start_monotonic(s, target_line as nat, (target_line + 1) as nat);
        crate::buffer::rope::lemma_line_start_bounds(s, (target_line + 1) as nat);
        crate::buffer::rope::lemma_line_start_bounds(s, target_line as nat);
    }
    line_start + column_offset
}


/// The chars that accepting a completion replaces in `text`: the converted
/// `replace_range`, each end clamped to the text and the two put in order,
/// or the selection when the server gave no range.
pub open spec fn completion_bounds(text: Seq<char>, sel: Selection, range: Option<(Position, Position)>) -> (int, int) {
    match range {
        None => (sel.start() as int, sel.end() as int),
        Some(r) => {
            let a = spec_position_to_char_offset(text, r.0);
            let b = spec_position_to_char_offset(text, r.1);
            let s = if a <= text.len() { a as int } else { text.len() as int };
            let e = if b <= text.len() { b as int } else { text.len() as int };
            if s <= e { (s, e) } else { (e, s) }
        },
    }
}

/// Where the caret lands after accepting a completion whose text has `len`
/// chars and starts at `start`: at the snippet's cursor, clamped to the
/// text, or after the text.
pub open spec fn completion_caret(start: int, len: nat, cursor: Option<usize>) -> int {
    match cursor {
        Some(rel) => start + if rel <= len { rel as int } else { len as int },
        None => start + len,
    }
}

/// Accepts a completion: its text replaces `replace_range` (converted
/// against the current text), or the selection when there is none, as one
/// undoable edit, so an already typed prefix is not repeated. The caret goes
/// to the snippet's cursor when the completion has one. A read-only buffer
/// keeps its text and answers `ReadOnly`, with the replaced range selected.
pub fn apply_completion(buffer: &mut TextBuffer, completion: &CompletionCandidate) -> (r: Result<(), BufferError>)
    requires
        old(buffer).wf(),
    ensures
        final(buffer).wf(),
        ({
            let (s, e) = completion_bounds(old(buffer).chars(), old(buffer).sel(), completion.replace_range);
            &&& old(buffer).spec_read_only() ==> {
                &&& r matches Err(BufferError::ReadOnly)
                &&& final(buffer).chars() == old(buffer).chars()
                &&& final(buffer).undo_stack() == old(buffer).undo_stack()
                &&& final(buffer).redo_stack() == old(buffer).redo_stack()
                &&& final(buffer).same_meta(*old(buffer))
                &&& final(buffer).sel().start() == s
                &&& final(buffer).sel().end() == e
            }
            &&& !old(buffer).spec_read_only() ==> {
                &&& r is Ok
                &&& edit_recorded(*old(buffer), *final(buffer), s, e, completion.insert_text@)
                &&& final(buffer).sel() == Selection::caret_spec(
                    completion_caret(s, completion.insert_text@.len(), completion.cursor_char_offset) as usize)
            }
        }),
{
    let ghost before = *buffer;
    if let Some(range) = completion.replace_range {
        let text = buffer.text_string();
        let len_chars = buffer.len_chars();
        let a = position_to_char_offset(text.as_str(), range.0);
        let b = position_to_char_offset(text.as_str(), range.1);
        let mut start = if a < len_chars { a } else { len_chars };
        let mut end = if b < len_chars { b } else { len_chars };
        if start > end {
            let t = start;
            start = end;
            end = t;
        }
        buffer.set_selection(Selection { anchor: CharOffset(start), head: CharOffset(end) });
        assert(buffer.sel().start() == start && buffer.sel().end() == end);
    }
    let ghost mid = *buffer;
    let _ = buffer.selection();
    let ghost bounds = completion_bounds(before.chars(), before.sel(), completion.replace_range);
    assert(mid.sel().start() == bounds.0 && mid.sel().end() == bounds.1);
    assert(mid.chars() == before.chars() && mid.same_meta(before));
    let result = buffer.insert(completion.insert_text.as_str());
    match result {
        Err(err) => {
            assert(*buffer == mid);
            Err(err)
        },
        Ok(()) => {
            if let Some(relative) = completion.cursor_char_offset {
                let start = buffer.selection().range().start;
                let n = buffer.len_chars();
                let len = completion.insert_text.as_str().unicode_len();
                assert(buffer.chars() == mid.chars().take(bounds.0) + completion.insert_text@ + mid.chars().skip(bounds.1));
                assert(start == mid.sel().start() + len);
                let offset = if relative < len { relative } else { len };
                let caret = start - len + offset;
                buffer.set_selection(Selection::caret(CharOffset(caret)));
            }
            Ok(())
        },
    }
}

} // verus!
