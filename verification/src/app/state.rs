//! The editor's tab, clipboard, palette and save state, and the function
//! that takes it from one event to the next. The caller performs the
//! effects that come back (opening and saving files, the system clipboard)
//! and hands their outcome back as events.

use vstd::prelude::*;

use crate::app::{opened_cursor_offset, spec_opened_cursor_offset, ColumnHint, Focus, PendingLspRequest};
use crate::lsp::json::JsonValue;
use crate::lsp::reply::{lsp_reply, reply_fits, reply_fits_check, spec_lsp_reply, LspReply, ReplyModel};
use crate::buffer::selection::{CharOffset, Selection};
use crate::buffer::text_buffer::{
    block_start, blank_prefix_len, edit_recorded, last_cluster, min_usize, newline_for, replaced,
    redone, undone, saved_bytes, BufferError, DiskState, SaveSnapshot, TextBuffer,
};
use crate::buffer::persistence;
use crate::chars::{chars_eq, chars_to_string, push_all, str_to_chars};
use crate::session::{RecoveryBuffer, RecoverySet};
use crate::command::Command;
use crate::command::id;
use crate::command::registry::{meta_view, CommandRegistry};
use crate::editor::movement::{move_left, move_right, spec_move_left, spec_move_right};
use crate::panels::{palette_commands, palette_upto};
use crate::paths::{compare_paths, components, path_components, path_order, CompKind};
use crate::chars::{char_utf8_width, utf8_width};

verus! {

/// An open file: its buffer, whether it is pinned, and its save in flight.
#[derive(Debug)]
pub struct BufferTab {
    pub buffer: TextBuffer,
    pub pinned: bool,
    /// A save of this tab has been handed out and has not completed.
    pub saving: bool,
    /// A save asked for while another was in flight, to run after it.
    pub pending_save: Option<SaveSnapshot>,
}

impl BufferTab {
    pub fn new(buffer: TextBuffer) -> (t: Self)
        ensures
            t.buffer == buffer,
            !t.pinned,
            !t.saving,
            t.pending_save is None,
    {
        BufferTab { buffer, pinned: false, saving: false, pending_save: None }
    }

    /// The tab's title: its file's name, or `Untitled`.
    pub open spec fn spec_title(self) -> Seq<char> {
        title_of(self.buffer.spec_path())
    }

    pub fn title(&self) -> (r: String)
        ensures
            r@ == self.spec_title(),
    {
        match self.buffer.path() {
            None => text("Untitled"),
            Some(p) => {
                let cs = path_components(&str_to_chars(p.as_str()));
                if cs.len() > 0 && cs[cs.len() - 1].0 == CompKind::Normal {
                    chars_to_string(cs[cs.len() - 1].1.as_slice())
                } else {
                    text("Untitled")
                }
            },
        }
    }
}

/// The last component of a path where it is a name (`Path::file_name`),
/// else `Untitled`.
pub open spec fn title_of(path: Option<String>) -> Seq<char> {
    match path {
        None => "Untitled"@,
        Some(p) => {
            let cs = components(p@);
            if cs.len() > 0 && cs.last().0 == CompKind::Normal {
                cs.last().1
            } else {
                "Untitled"@
            }
        },
    }
}

/// What covers the editor and takes the keys.
#[derive(Debug, Clone, Copy, PartialEq, Eq, Structural)]
pub enum Overlay {
    CommandPalette,
    /// Closing a tab with unsaved changes waits for a confirmation.
    ConfirmClose { tab: usize },
    /// Unsaved buffers from an abnormal exit wait to be recovered, discarded
    /// or kept for later.
    RecoveryPrompt,
    /// A language server's hover text.
    LspHover,
}

/// What happens to the editor.
#[derive(Debug)]
pub enum AppEvent {
    Command(Command),
    /// A file was read for a tab, to be shown at a line and column.
    FileOpened { path: String, line: Option<usize>, column: Option<ColumnHint>, result: Result<TextBuffer, String> },
    SaveCompleted { tab: usize, snapshot: SaveSnapshot, result: Result<(), String> },
    /// A language server answered a request made against a file.
    LspResponse { request: PendingLspRequest, result: Option<JsonValue> },
}

/// Work for the caller.
#[derive(Debug, Clone)]
pub enum Effect {
    OpenFile { path: String, read_only: bool, line: Option<usize>, column: Option<ColumnHint> },
    Save { tab: usize, snapshot: SaveSnapshot },
    CopyToClipboard(String),
    RefreshGit,
    /// Remove the recovery journals, whose buffers are recovered or discarded.
    DiscardRecovery(Vec<String>),
}

/// An effect with its text as chars.
pub enum EffectView {
    OpenFile { path: Seq<char>, read_only: bool, line: Option<usize>, column: Option<ColumnHint> },
    Save { tab: usize, snapshot: SaveSnapshot },
    CopyToClipboard(Seq<char>),
    RefreshGit,
    DiscardRecovery(Seq<String>),
}

impl Effect {
    pub open spec fn view(self) -> EffectView {
        match self {
            Effect::OpenFile { path, read_only, line, column } => EffectView::OpenFile { path: path@, read_only, line, column },
            Effect::Save { tab, snapshot } => EffectView::Save { tab, snapshot },
            Effect::CopyToClipboard(t) => EffectView::CopyToClipboard(t@),
            Effect::RefreshGit => EffectView::RefreshGit,
            Effect::DiscardRecovery(paths) => EffectView::DiscardRecovery(paths@),
        }
    }
}

pub open spec fn effects_view(effects: Seq<Effect>) -> Seq<EffectView> {
    effects.map_values(|e: Effect| e.view())
}

/// The state, with text as chars.
pub struct AppModel {
    pub tabs: Seq<BufferTab>,
    pub active_tab: Option<usize>,
    pub focus: Focus,
    pub overlay: Option<Overlay>,
    pub palette_query: Seq<char>,
    pub notification: Option<Seq<char>>,
    pub should_quit: bool,
    pub force_read_only: bool,
    pub internal_clipboard: Seq<char>,
    pub terminal_size: (u16, u16),
    pub large_file_threshold_mb: u64,
    pub pending_recovery: Seq<RecoveryBuffer>,
    pub recovery_journals: Seq<String>,
    pub lsp_hover: Seq<Seq<char>>,
    pub commands: Seq<(Seq<char>, Seq<char>)>,
}

/// The editor's state.
#[derive(Debug)]
pub struct AppState {
    pub commands: CommandRegistry,
    pub tabs: Vec<BufferTab>,
    pub active_tab: Option<usize>,
    pub focus: Focus,
    pub overlay: Option<Overlay>,
    pub palette_query: String,
    pub notification: Option<String>,
    pub should_quit: bool,
    pub force_read_only: bool,
    pub internal_clipboard: String,
    pub terminal_size: (u16, u16),
    /// Files larger than this many MiB open in large-file mode.
    pub large_file_threshold_mb: u64,
    /// Unsaved buffers found after an abnormal exit.
    pub pending_recovery: Vec<RecoveryBuffer>,
    /// The journals they were read from.
    pub recovery_journals: Vec<String>,
    /// The hover text shown.
    pub lsp_hover: Vec<String>,
}

pub open spec fn note_view(n: Option<String>) -> Option<Seq<char>> {
    match n {
        Some(s) => Some(s@),
        None => None,
    }
}

/// Every buffer is well formed and the active tab is one of the tabs.
pub open spec fn model_wf(m: AppModel) -> bool {
    &&& forall|i: int| 0 <= i < m.tabs.len() ==> (#[trigger] m.tabs[i]).buffer.wf()
    &&& (m.active_tab matches Some(a) ==> a < m.tabs.len())
}

pub open spec fn noted(m: AppModel, message: Seq<char>) -> AppModel {
    AppModel { notification: Some(message), ..m }
}

pub open spec fn any_saving(tabs: Seq<BufferTab>) -> bool {
    exists|i: int| 0 <= i < tabs.len() && (#[trigger] tabs[i]).saving
}

pub open spec fn any_dirty(tabs: Seq<BufferTab>) -> bool {
    exists|i: int| 0 <= i < tabs.len() && (#[trigger] tabs[i]).buffer.spec_dirty()
}

/// `t` is `m` with tab `i` holding the buffer `b`.
pub open spec fn with_buffer(m: AppModel, i: int, b: TextBuffer) -> AppModel {
    AppModel { tabs: m.tabs.update(i, BufferTab { buffer: b, ..m.tabs[i] }), ..m }
}

/// Closing tab `i`: it leaves, and the active tab follows the tabs it
/// pointed at (the next one where the active tab itself closed).
pub open spec fn closed_tab(m: AppModel, i: int) -> AppModel {
    let tabs = m.tabs.remove(i);
    AppModel {
        tabs,
        active_tab: match m.active_tab {
            None => None,
            Some(a) => if tabs.len() == 0 {
                None
            } else if a > i {
                Some((a - 1) as usize)
            } else if a == i {
                Some(min_usize(i as usize, (tabs.len() - 1) as usize))
            } else {
                Some(a)
            },
        },
        ..m
    }
}

pub open spec fn spec_close_tab(m: AppModel, i: int) -> AppModel {
    if i < 0 || i >= m.tabs.len() || any_saving(m.tabs) { m } else { closed_tab(m, i) }
}

/// A close that asks first where the tab has unsaved changes.
pub open spec fn spec_request_close_tab(m: AppModel, i: int) -> AppModel {
    if i < 0 || i >= m.tabs.len() {
        m
    } else if any_saving(m.tabs) {
        noted(m, "Wait for pending saves before closing a tab"@)
    } else if m.tabs[i].pinned {
        noted(m, "Unpin the tab before closing it"@)
    } else if m.tabs[i].buffer.spec_dirty() {
        AppModel { overlay: Some(Overlay::ConfirmClose { tab: i as usize }), focus: Focus::Overlay, ..m }
    } else {
        closed_tab(m, i)
    }
}

/// The new selection after a movement to `head`, keeping the anchor when
/// the selection is extended.
pub open spec fn moved_selection(old_sel: Selection, head: usize, extend: bool) -> Selection {
    Selection { anchor: if extend { old_sel.anchor } else { CharOffset(head) }, head: CharOffset(head) }
}

/// `after` is `before` with its selection set to `sel`, clamped to the text.
pub open spec fn selection_set(before: TextBuffer, after: TextBuffer, sel: Selection) -> bool {
    &&& after.wf()
    &&& after.chars() == before.chars()
    &&& after.sel().anchor.0 == min_usize(sel.anchor.0, before.chars().len() as usize)
    &&& after.sel().head.0 == min_usize(sel.head.0, before.chars().len() as usize)
    &&& after.undo_stack() == before.undo_stack()
    &&& after.redo_stack() == before.redo_stack()
    &&& after.spec_generation() == before.spec_generation()
    &&& after.same_meta(before)
}

/// An edit of the active buffer.
pub enum EditOp {
    Insert(String),
    InsertNewline,
    DeleteBackward,
    Undo,
    Redo,
}

/// An edit, with inserted text as chars.
pub enum EditSpec {
    Insert(Seq<char>),
    InsertNewline,
    DeleteBackward,
    Undo,
    Redo,
}

impl EditOp {
    pub open spec fn view(self) -> EditSpec {
        match self {
            EditOp::Insert(v) => EditSpec::Insert(v@),
            EditOp::InsertNewline => EditSpec::InsertNewline,
            EditOp::DeleteBackward => EditSpec::DeleteBackward,
            EditOp::Undo => EditSpec::Undo,
            EditOp::Redo => EditSpec::Redo,
        }
    }
}

/// `a` is what the edit makes of the writable buffer `b`.
pub open spec fn edit_applied(op: EditSpec, b: TextBuffer, a: TextBuffer) -> bool {
    match op {
        EditSpec::Insert(v) => replaced(b, a, v),
        EditSpec::InsertNewline => {
            let t = b.chars();
            let c = b.sel().start() as int;
            let ls = block_start(t, c);
            replaced(b, a, newline_for(b.spec_line_ending()) + t.subrange(ls, ls + blank_prefix_len(t.subrange(ls, c))))
        },
        EditSpec::DeleteBackward => if b.sel().anchor != b.sel().head {
            replaced(b, a, Seq::empty())
        } else if b.sel().head.0 == 0 {
            a == b
        } else {
            let h = b.sel().head.0 as int;
            let k = last_cluster(b.chars().take(h)).len() as int;
            &&& edit_recorded(b, a, h - k, h, Seq::empty())
            &&& a.sel() == Selection::caret_spec((h - k) as usize)
        },
        EditSpec::Undo => if b.undo_stack().len() == 0 { a == b } else { undone(b, a) },
        EditSpec::Redo => if b.redo_stack().len() == 0 { a == b } else { redone(b, a) },
    }
}

/// An edit of the active tab: a read-only buffer refuses it with a
/// notification.
pub open spec fn spec_edit(m: AppModel, op: EditSpec, t: AppModel) -> bool {
    match m.active_tab {
        None => t == m,
        Some(a) => if m.tabs[a as int].buffer.spec_read_only() {
            t == noted(m, "buffer is read-only"@)
        } else {
            &&& a < t.tabs.len()
            &&& t == with_buffer(m, a as int, t.tabs[a as int].buffer)
            &&& edit_applied(op, m.tabs[a as int].buffer, t.tabs[a as int].buffer)
        },
    }
}

/// The active tab's selection set to `sel` (clamped), and the editor
/// focused where `focus` says so.
pub open spec fn spec_select(m: AppModel, sel: Selection, focus: bool, t: AppModel) -> bool {
    match m.active_tab {
        None => t == m,
        Some(a) => {
            &&& a < t.tabs.len()
            &&& t == (if focus {
                AppModel { focus: Focus::Editor, ..with_buffer(m, a as int, t.tabs[a as int].buffer) }
            } else {
                with_buffer(m, a as int, t.tabs[a as int].buffer)
            })
            &&& selection_set(m.tabs[a as int].buffer, t.tabs[a as int].buffer, sel)
        },
    }
}

/// The active caret moved by one grapheme cluster.
pub open spec fn spec_move_horizontal(m: AppModel, right: bool, extend: bool, t: AppModel) -> bool {
    match m.active_tab {
        None => t == m,
        Some(a) => {
            let b = m.tabs[a as int].buffer;
            let next = if right {
                spec_move_right(b.chars(), b.sel().head.0 as int)
            } else {
                spec_move_left(b.chars(), b.sel().head.0 as int)
            };
            spec_select(m, moved_selection(b.sel(), next as usize, extend), false, t)
        },
    }
}

pub open spec fn selected_chars(b: TextBuffer) -> Seq<char> {
    b.chars().subrange(b.sel().start() as int, b.sel().end() as int)
}

pub open spec fn spec_copy(m: AppModel, t: AppModel, fx: Seq<EffectView>) -> bool {
    match m.active_tab {
        Some(a) if m.tabs[a as int].buffer.sel().start() != m.tabs[a as int].buffer.sel().end() => {
            let txt = selected_chars(m.tabs[a as int].buffer);
            &&& t == AppModel { internal_clipboard: txt, notification: Some("Copied selection"@), ..m }
            &&& fx == seq![EffectView::CopyToClipboard(txt)]
        },
        _ => t == noted(m, "Select text to copy"@) && fx.len() == 0,
    }
}

pub open spec fn spec_cut(m: AppModel, t: AppModel, fx: Seq<EffectView>) -> bool {
    match m.active_tab {
        None => t == m && fx.len() == 0,
        Some(a) => {
            let b = m.tabs[a as int].buffer;
            if b.sel().start() == b.sel().end() {
                t == noted(m, "Select text to cut"@) && fx.len() == 0
            } else if b.spec_read_only() {
                t == noted(m, "buffer is read-only"@) && fx.len() == 0
            } else {
                let txt = selected_chars(b);
                &&& a < t.tabs.len()
                &&& t == AppModel {
                    internal_clipboard: txt,
                    notification: Some("Cut selection"@),
                    ..with_buffer(m, a as int, t.tabs[a as int].buffer)
                }
                &&& replaced(b, t.tabs[a as int].buffer, Seq::empty())
                &&& fx == seq![EffectView::CopyToClipboard(txt)]
            }
        },
    }
}

pub open spec fn spec_paste(m: AppModel, t: AppModel) -> bool {
    if m.internal_clipboard.len() == 0 {
        t == noted(m, "Internal clipboard is empty"@)
    } else {
        spec_edit(m, EditSpec::Insert(m.internal_clipboard), t)
    }
}

/// `snap` is what a save of `b` writes.
pub open spec fn snapshot_of(b: TextBuffer, snap: SaveSnapshot) -> bool {
    &&& Some(snap.path) == b.spec_path()
    &&& snap.bytes@ == saved_bytes(b.spec_has_bom(), b.chars())
    &&& snap.content_hash == persistence::text_hash(b.chars())
    &&& snap.disk_hash == persistence::bytes_hash(snap.bytes@)
    &&& snap.expected_disk_hash == b.spec_disk_hash()
    &&& snap.generation == b.spec_generation()
}

/// Saving tab `i`: the save goes out, or waits behind the one in flight.
pub open spec fn spec_save_tab(m: AppModel, i: int, t: AppModel, fx: Seq<EffectView>) -> bool {
    if i < 0 || i >= m.tabs.len() {
        t == m && fx.len() == 0
    } else {
        let tab = m.tabs[i];
        let b = tab.buffer;
        if b.spec_read_only() {
            t == noted(m, "buffer is read-only"@) && fx.len() == 0
        } else if b.spec_path() is None {
            t == noted(m, "buffer has no file path"@) && fx.len() == 0
        } else if tab.saving {
            &&& fx.len() == 0
            &&& i < t.tabs.len()
            &&& t.tabs[i].pending_save matches Some(snap) && snapshot_of(b, snap)
            &&& t == AppModel {
                tabs: m.tabs.update(i, BufferTab { pending_save: t.tabs[i].pending_save, ..tab }),
                notification: Some("Save queued"@),
                ..m
            }
        } else {
            &&& t == AppModel { tabs: m.tabs.update(i, BufferTab { saving: true, ..tab }), ..m }
            &&& fx.len() == 1
            &&& fx[0] matches EffectView::Save { tab: k, snapshot } && k == i && snapshot_of(b, snapshot)
        }
    }
}

pub open spec fn spec_toggle_pin(m: AppModel) -> AppModel {
    match m.active_tab {
        None => m,
        Some(a) => {
            let tab = m.tabs[a as int];
            let pinned = !tab.pinned;
            AppModel {
                tabs: m.tabs.update(a as int, BufferTab { pinned, ..tab }),
                notification: Some(if pinned { "Pinned "@ + tab.spec_title() } else { "Unpinned "@ + tab.spec_title() }),
                ..m
            }
        },
    }
}

/// A registry entry is listed for a palette query when the query is empty
/// or (in ASCII lower case) is in its title or its identifier.
pub open spec fn entry_listed(e: (Seq<char>, Seq<char>), query: Seq<char>) -> bool {
    let q = crate::chars::ascii_lower(query);
    q.len() == 0 || crate::chars::contains(crate::chars::ascii_lower(e.1), q) || crate::chars::contains(e.0, q)
}

/// The identifier of the first of the first `k` entries that the palette
/// lists for `query`.
pub open spec fn first_listed(es: Seq<(Seq<char>, Seq<char>)>, query: Seq<char>, k: int) -> Option<Seq<char>>
    decreases k,
{
    if k <= 0 {
        None
    } else {
        match first_listed(es, query, k - 1) {
            Some(x) => Some(x),
            None => if entry_listed(es[k - 1], query) { Some(es[k - 1].0) } else { None },
        }
    }
}

/// The command the palette runs on accept.
pub open spec fn palette_choice(m: AppModel) -> Option<Seq<char>> {
    first_listed(m.commands, m.palette_query, m.commands.len() as int)
}

/// The commands that this state carries out itself.
pub open spec fn handled_id(i: Seq<char>) -> bool {
    ||| i == id::APP_QUIT@
    ||| i == id::EDITOR_SAVE@
    ||| i == id::EDITOR_SAVE_ALL@
    ||| i == id::EDITOR_CLOSE@
    ||| i == id::EDITOR_TOGGLE_PIN@
    ||| i == id::EDITOR_COPY@
    ||| i == id::EDITOR_CUT@
    ||| i == id::EDITOR_PASTE@
    ||| i == id::EDITOR_UNDO@
    ||| i == id::EDITOR_REDO@
    ||| i == id::EDITOR_SELECT_ALL@
    ||| i == id::COMMAND_PALETTE_OPEN@
}

/// An identifier this state answers: one of its own commands, or one that
/// no command of the registry has.
pub open spec fn invocable(m: AppModel, i: Seq<char>) -> bool {
    handled_id(i) || crate::command::registry::first_with_id(m.commands, i) is None
}

pub open spec fn spec_invoke(m: AppModel, i: Seq<char>, t: AppModel, fx: Seq<EffectView>) -> bool {
    if i == id::APP_QUIT@ {
        &&& fx.len() == 0
        &&& t == (if any_dirty(m.tabs) {
            noted(m, "Unsaved changes: save or close them before quitting"@)
        } else {
            AppModel { should_quit: true, ..m }
        })
    } else if i == id::EDITOR_SAVE@ {
        match m.active_tab {
            None => t == m && fx.len() == 0,
            Some(a) => spec_save_tab(m, a as int, t, fx),
        }
    } else if i == id::EDITOR_SAVE_ALL@ {
        spec_save_all(m, t, fx)
    } else if i == id::EDITOR_CLOSE@ {
        &&& fx.len() == 0
        &&& t == match m.active_tab {
            None => m,
            Some(a) => spec_request_close_tab(m, a as int),
        }
    } else if i == id::EDITOR_TOGGLE_PIN@ {
        fx.len() == 0 && t == spec_toggle_pin(m)
    } else if i == id::EDITOR_COPY@ {
        spec_copy(m, t, fx)
    } else if i == id::EDITOR_CUT@ {
        spec_cut(m, t, fx)
    } else if i == id::EDITOR_PASTE@ {
        fx.len() == 0 && spec_paste(m, t)
    } else if i == id::EDITOR_UNDO@ {
        fx.len() == 0 && spec_edit(m, EditSpec::Undo, t)
    } else if i == id::EDITOR_REDO@ {
        fx.len() == 0 && spec_edit(m, EditSpec::Redo, t)
    } else if i == id::EDITOR_SELECT_ALL@ {
        &&& fx.len() == 0
        &&& match m.active_tab {
            None => t == m,
            Some(a) => spec_select(
                m,
                Selection { anchor: CharOffset(0), head: CharOffset(m.tabs[a as int].buffer.chars().len() as usize) },
                false,
                t,
            ),
        }
    } else if i == id::COMMAND_PALETTE_OPEN@ {
        &&& fx.len() == 0
        &&& t == AppModel { overlay: Some(Overlay::CommandPalette), palette_query: Seq::empty(), focus: Focus::Overlay, ..m }
    } else {
        fx.len() == 0 && t == noted(m, "Unknown command: "@ + i)
    }
}

/// A command while an overlay is open: it edits the query, accepts or
/// cancels; anything else waits.
pub open spec fn spec_execute_overlay(m: AppModel, c: Command, t: AppModel, fx: Seq<EffectView>) -> bool {
    match c {
        Command::PaletteInput(ch) => fx.len() == 0 && t == AppModel { palette_query: m.palette_query.push(ch), ..m },
        Command::PaletteBackspace => {
            &&& fx.len() == 0
            &&& t == AppModel {
                palette_query: if m.palette_query.len() > 0 { m.palette_query.drop_last() } else { m.palette_query },
                ..m
            }
        },
        Command::PaletteAccept => match m.overlay {
            Some(Overlay::CommandPalette) => {
                let closed = AppModel { overlay: None, palette_query: Seq::empty(), ..m };
                match palette_choice(m) {
                    None => t == closed && fx.len() == 0,
                    Some(i) => spec_invoke(closed, i, t, fx),
                }
            },
            Some(Overlay::ConfirmClose { tab }) => {
                &&& fx.len() == 0
                &&& t == spec_close_tab(
                    AppModel { overlay: None, palette_query: Seq::empty(), focus: Focus::Editor, ..m },
                    tab as int,
                )
            },
            Some(Overlay::RecoveryPrompt) => t == m && fx.len() == 0,
            Some(Overlay::LspHover) => {
                &&& fx.len() == 0
                &&& t == AppModel { overlay: None, focus: Focus::Editor, ..m }
            },
            None => t == m && fx.len() == 0,
        },
        Command::RecoveryRecover if m.overlay == Some(Overlay::RecoveryPrompt) => spec_recover(m, t, fx),
        Command::RecoveryDiscard if m.overlay == Some(Overlay::RecoveryPrompt) => {
            &&& t == AppModel {
                pending_recovery: Seq::empty(),
                recovery_journals: Seq::empty(),
                overlay: None,
                focus: Focus::Editor,
                notification: Some("Discarded crash recovery data"@),
                ..m
            }
            &&& fx == (if m.recovery_journals.len() > 0 {
                seq![EffectView::DiscardRecovery(m.recovery_journals)]
            } else {
                Seq::empty()
            })
        },
        Command::RecoveryLater if m.overlay == Some(Overlay::RecoveryPrompt) => {
            &&& fx.len() == 0
            &&& t == AppModel { overlay: None, focus: Focus::Editor, notification: Some("Recovery data kept for later"@), ..m }
        },
        Command::Cancel => {
            &&& fx.len() == 0
            &&& t == AppModel { overlay: None, palette_query: Seq::empty(), focus: Focus::Editor, ..m }
        },
        _ => t == m && fx.len() == 0,
    }
}

/// A command with no overlay open.
pub open spec fn spec_execute(m: AppModel, c: Command, t: AppModel, fx: Seq<EffectView>) -> bool {
    if m.overlay is Some {
        spec_execute_overlay(m, c, t, fx)
    } else {
        match c {
            Command::Invoke(i) => spec_invoke(m, i@, t, fx),
            Command::InsertText(v) => fx.len() == 0 && spec_edit(m, EditSpec::Insert(v@), t),
            Command::InsertNewline => fx.len() == 0 && spec_edit(m, EditSpec::InsertNewline, t),
            Command::DeleteBackward => fx.len() == 0 && spec_edit(m, EditSpec::DeleteBackward, t),
            Command::MoveLeft { extend } => fx.len() == 0 && spec_move_horizontal(m, false, extend, t),
            Command::MoveRight { extend } => fx.len() == 0 && spec_move_horizontal(m, true, extend, t),
            Command::OpenFile(p) => {
                &&& t == m
                &&& fx == seq![EffectView::OpenFile { path: p@, read_only: m.force_read_only, line: None, column: None }]
            },
            Command::SelectTab(i) => {
                &&& fx.len() == 0
                &&& t == (if i < m.tabs.len() { AppModel { active_tab: Some(i), focus: Focus::Editor, ..m } } else { m })
            },
            Command::CloseTab(i) => fx.len() == 0 && t == spec_request_close_tab(m, i as int),
            Command::SetCursor { char_offset, extend } => {
                &&& fx.len() == 0
                &&& match m.active_tab {
                    None => t == m,
                    Some(a) => spec_select(m, moved_selection(m.tabs[a as int].buffer.sel(), char_offset, extend), true, t),
                }
            },
            Command::Resize(w, h) => fx.len() == 0 && t == AppModel { terminal_size: (w, h), ..m },
            // Vertical movement goes by the editor view's rows: see `handles`.
            Command::MoveUp { .. } | Command::MoveDown { .. } => true,
            // The explorer tree, searches, the recovery prompt and the palette
            // have nothing to act on without their overlay.
            _ => t == m && fx.len() == 0,
        }
    }
}

/// `after` is `before` marked as saved by `snap`.
pub open spec fn save_recorded(before: TextBuffer, after: TextBuffer, snap: SaveSnapshot) -> bool {
    &&& after.wf()
    &&& after.spec_saved_hash() == snap.content_hash
    &&& after.spec_disk_hash() == Some(snap.disk_hash)
    &&& after.spec_disk_state() == DiskState::Present
    &&& after.chars() == before.chars()
    &&& after.sel() == before.sel()
    &&& after.undo_stack() == before.undo_stack()
    &&& after.redo_stack() == before.redo_stack()
    &&& after.spec_generation() == before.spec_generation()
    &&& after.spec_path() == before.spec_path()
    &&& after.spec_read_only() == before.spec_read_only()
}

/// A save came back: the buffer takes the saved hashes, and a save that
/// waited behind it goes out, expecting what this one wrote.
pub open spec fn spec_save_completed(
    m: AppModel,
    tab: usize,
    snapshot: SaveSnapshot,
    result: Result<(), String>,
    t: AppModel,
    fx: Seq<EffectView>,
) -> bool {
    if tab >= m.tabs.len() {
        match result {
            Ok(()) => t == m && fx == seq![EffectView::RefreshGit],
            Err(e) => t == noted(m, e@) && fx.len() == 0,
        }
    } else {
        let old_tab = m.tabs[tab as int];
        match result {
            Err(e) => {
                &&& fx.len() == 0
                &&& t == AppModel {
                    tabs: m.tabs.update(tab as int, BufferTab { saving: false, pending_save: None, ..old_tab }),
                    notification: Some(e@),
                    ..m
                }
            },
            Ok(()) => {
                let nb = t.tabs[tab as int].buffer;
                &&& tab < t.tabs.len()
                &&& save_recorded(old_tab.buffer, nb, snapshot)
                &&& match old_tab.pending_save {
                    Some(next) => {
                        &&& t == AppModel {
                            tabs: m.tabs.update(tab as int, BufferTab { buffer: nb, saving: true, pending_save: None, ..old_tab }),
                            notification: Some("Saved "@ + snapshot.path@),
                            ..m
                        }
                        &&& fx == seq![EffectView::Save {
                            tab,
                            snapshot: SaveSnapshot { expected_disk_hash: Some(snapshot.disk_hash), ..next },
                        }]
                    },
                    None => {
                        &&& t == AppModel {
                            tabs: m.tabs.update(tab as int, BufferTab { buffer: nb, saving: false, ..old_tab }),
                            notification: Some("Saved "@ + snapshot.path@),
                            ..m
                        }
                        &&& fx == seq![EffectView::RefreshGit]
                    },
                }
            },
        }
    }
}

/// The events this state answers as the editor does: all but vertical
/// movement, which goes by the editor view's rows, and commands of the
/// registry that this state does not carry out.
pub open spec fn handles(m: AppModel, event: AppEvent) -> bool {
    match event {
        AppEvent::Command(Command::MoveUp { .. }) => false,
        AppEvent::Command(Command::MoveDown { .. }) => false,
        AppEvent::LspResponse { request, result } => {
            &&& (request is Hover || request is Definition)
            &&& (result matches Some(x) ==> reply_fits(x))
        },
        AppEvent::Command(Command::Invoke(i)) => m.overlay is Some || invocable(m, i@),
        AppEvent::Command(Command::PaletteAccept) => m.overlay != Some(Overlay::CommandPalette) || match palette_choice(m) {
            None => true,
            Some(i) => invocable(m, i),
        },
        _ => true,
    }
}

/// One step of the editor: the state after `event`, and the effects.
pub open spec fn spec_update(m: AppModel, event: AppEvent, t: AppModel, fx: Seq<EffectView>) -> bool {
    match event {
        AppEvent::Command(c) => spec_execute(m, c, t, fx),
        AppEvent::FileOpened { path, line, column, result } => fx.len() == 0 && spec_file_opened(m, path@, line, column, result, t),
        AppEvent::LspResponse { request, result } => spec_lsp_response(m, request, result, t, fx),
        AppEvent::SaveCompleted { tab, snapshot, result } => spec_save_completed(m, tab, snapshot, result, t, fx),
    }
}

/// The palette's list, as `palette_commands` builds it, starts with the
/// entry `first_listed` names.
pub proof fn lemma_palette_first(ms: Seq<crate::command::registry::CommandMeta>, query: Seq<char>, k: int)
    requires
        0 <= k <= ms.len(),
    ensures
        ({
            let es = ms.map_values(|c: crate::command::registry::CommandMeta| meta_view(c));
            let listed = palette_upto(ms, query, k);
            &&& (listed.len() == 0) == (first_listed(es, query, k) is None)
            &&& listed.len() > 0 ==> first_listed(es, query, k) == Some(listed[0].0)
        }),
    decreases k,
{
    let es = ms.map_values(|c: crate::command::registry::CommandMeta| meta_view(c));
    if k > 0 {
        lemma_palette_first(ms, query, k - 1);
        assert(es[k - 1] == meta_view(ms[k - 1]));
    }
}

/// The length of the UTF-8 encoding of `s`.
pub open spec fn utf8_len(s: Seq<char>) -> nat
    decreases s.len(),
{
    if s.len() == 0 { 0 } else { utf8_len(s.drop_last()) + utf8_width(s.last()) }
}

/// A text whose UTF-8 length is over the large-file threshold (in MiB); both
/// saturate at `u64::MAX`.
pub open spec fn spec_is_large(s: Seq<char>, threshold_mb: u64) -> bool {
    let limit = if threshold_mb as int * 1048576 <= u64::MAX { threshold_mb as int * 1048576 } else { u64::MAX as int };
    let len = if utf8_len(s) <= u64::MAX { utf8_len(s) as int } else { u64::MAX as int };
    len > limit
}

/// The first tab whose file is `path` (compared component by component).
pub open spec fn tab_with_path(tabs: Seq<BufferTab>, path: Seq<char>, k: int) -> Option<int>
    decreases k,
{
    if k <= 0 {
        None
    } else {
        match tab_with_path(tabs, path, k - 1) {
            Some(i) => Some(i),
            None => match tabs[k - 1].buffer.spec_path() {
                Some(p) => if path_order(p@, path) == 0 { Some(k - 1) } else { None },
                None => None,
            },
        }
    }
}

/// An opened file becomes the active tab (the tab that has it already, or a
/// new one), with the caret at the line and column asked for.
pub open spec fn spec_file_opened(
    m: AppModel,
    path: Seq<char>,
    line: Option<usize>,
    column: Option<ColumnHint>,
    result: Result<TextBuffer, String>,
    t: AppModel,
) -> bool {
    match result {
        Err(e) => t == noted(m, e@),
        Ok(b) => {
            let existing = tab_with_path(m.tabs, path, m.tabs.len() as int);
            let tabs = match existing {
                Some(_) => m.tabs,
                None => m.tabs.push(BufferTab { buffer: b, pinned: false, saving: false, pending_save: None }),
            };
            let a = match existing {
                Some(i) => i,
                None => m.tabs.len() as int,
            };
            let before = tabs[a].buffer;
            let after = t.tabs[a].buffer;
            &&& a < t.tabs.len()
            &&& selection_set(
                before,
                after,
                Selection::caret_spec(spec_opened_cursor_offset(before.chars(), line, column) as usize),
            )
            &&& t == AppModel {
                tabs: tabs.update(a, BufferTab { buffer: after, ..tabs[a] }),
                active_tab: Some(a as usize),
                focus: if m.overlay is None { Focus::Editor } else { m.focus },
                notification: if spec_is_large(before.chars(), m.large_file_threshold_mb) {
                    Some("Large-file mode: syntax highlighting, LSP, and diff decorations are disabled"@)
                } else {
                    None
                },
                ..m
            }
        },
    }
}

/// `b` is the buffer recovered from `r`: its text, path and disk state, not
/// saved, with the caret where it was (clamped to the text).
pub open spec fn recovered_buffer(r: RecoveryBuffer, read_only: bool, b: TextBuffer) -> bool {
    &&& b.wf()
    &&& b.chars() == r.text@
    &&& b.sel() == Selection::caret_spec(min_usize(r.cursor_char, r.text@.len() as usize))
    &&& b.undo_stack().len() == 0
    &&& b.redo_stack().len() == 0
    &&& b.spec_path() == r.path
    &&& b.spec_generation() == 1
    &&& b.spec_saved_hash() == persistence::text_hash(r.text@) ^ u64::MAX
    &&& b.spec_disk_hash() == r.expected_disk_hash
    &&& b.spec_has_bom() == r.has_bom
    &&& b.spec_line_ending() == r.line_ending
    &&& b.spec_read_only() == read_only
    &&& !b.spec_invalid_utf8()
    &&& b.spec_disk_state() == DiskState::Present
}

pub open spec fn recovered_tab(r: RecoveryBuffer, read_only: bool, tab: BufferTab) -> bool {
    !tab.pinned && !tab.saving && tab.pending_save is None && recovered_buffer(r, read_only, tab.buffer)
}

/// One recovered buffer takes the place of the tab of its file, or opens a
/// new tab; either becomes the active one.
pub open spec fn recovery_step(
    before: (Seq<BufferTab>, Option<usize>),
    r: RecoveryBuffer,
    read_only: bool,
    after: (Seq<BufferTab>, Option<usize>),
) -> bool {
    let tabs = before.0;
    let slot = match r.path {
        Some(p) => tab_with_path(tabs, p@, tabs.len() as int),
        None => None,
    };
    match slot {
        Some(i) => {
            &&& 0 <= i < tabs.len()
            &&& after.0.len() == tabs.len()
            &&& after.0 == tabs.update(i, after.0[i])
            &&& recovered_tab(r, read_only, after.0[i])
            &&& after.1 == Some(i as usize)
        },
        None => {
            &&& after.0.len() == tabs.len() + 1
            &&& after.0.drop_last() == tabs
            &&& recovered_tab(r, read_only, after.0.last())
            &&& after.1 == Some(tabs.len() as usize)
        },
    }
}

/// `states` runs from the tabs before through one step for each pending
/// buffer, in order.
pub open spec fn recovery_trace(
    start: (Seq<BufferTab>, Option<usize>),
    pending: Seq<RecoveryBuffer>,
    read_only: bool,
    states: Seq<(Seq<BufferTab>, Option<usize>)>,
) -> bool {
    &&& states.len() == pending.len() + 1
    &&& states[0] == start
    &&& forall|k: int| 0 <= k < pending.len() ==> #[trigger] recovery_step(states[k], pending[k], read_only, states[k + 1])
}

/// Recovering every pending buffer: the prompt closes, the journals go.
pub open spec fn spec_recover(m: AppModel, t: AppModel, fx: Seq<EffectView>) -> bool {
    &&& exists|states: Seq<(Seq<BufferTab>, Option<usize>)>| {
        &&& #[trigger] recovery_trace((m.tabs, m.active_tab), m.pending_recovery, m.force_read_only, states)
        &&& t == AppModel {
            tabs: states.last().0,
            active_tab: states.last().1,
            pending_recovery: Seq::empty(),
            recovery_journals: Seq::empty(),
            overlay: None,
            focus: Focus::Editor,
            notification: Some("Recovered unsaved buffers after abnormal exit"@),
            ..m
        }
    }
    &&& fx == (if m.recovery_journals.len() > 0 {
        seq![EffectView::DiscardRecovery(m.recovery_journals)]
    } else {
        Seq::empty()
    })
}

/// The file a request was made against.
pub open spec fn request_path(request: PendingLspRequest) -> Seq<char> {
    match request {
        PendingLspRequest::Hover(p) => p@,
        PendingLspRequest::Definition(p) => p@,
        PendingLspRequest::Completion(p) => p@,
        PendingLspRequest::References(p) => p@,
        PendingLspRequest::Formatting(p) => p@,
        PendingLspRequest::SignatureHelp(p) => p@,
    }
}

/// Whether `path` is the active tab's file (compared component by
/// component).
pub open spec fn is_active_path(m: AppModel, path: Seq<char>) -> bool {
    match m.active_tab {
        Some(a) => match m.tabs[a as int].buffer.spec_path() {
            Some(p) => path_order(p@, path) == 0,
            None => false,
        },
        None => false,
    }
}

/// A hover or definition reply: hover text opens over the editor (a reply
/// for a file that is no longer active is dropped), a definition opens its
/// location.
pub open spec fn spec_lsp_response(m: AppModel, request: PendingLspRequest, result: Option<JsonValue>, t: AppModel, fx: Seq<EffectView>) -> bool {
    match spec_lsp_reply(request, is_active_path(m, request_path(request)), result, Seq::empty()) {
        ReplyModel::Notify(message) => t == noted(m, message) && fx.len() == 0,
        ReplyModel::Hover(lines) => {
            &&& fx.len() == 0
            &&& t == AppModel { lsp_hover: lines, overlay: Some(Overlay::LspHover), focus: Focus::Overlay, ..m }
        },
        ReplyModel::OpenLocation((path, line, column)) => {
            &&& t == m
            &&& fx == seq![EffectView::OpenFile {
                path,
                read_only: m.force_read_only,
                line: Some(line as usize),
                column: Some(column),
            }]
        },
        _ => t == m && fx.len() == 0,
    }
}

/// A tab that Save All writes: unsaved, writable, and with a file.
pub open spec fn save_all_candidate(tab: BufferTab) -> bool {
    tab.buffer.spec_dirty() && !tab.buffer.spec_read_only() && tab.buffer.spec_path() is Some
}

/// What Save All makes of one tab: a save goes out, or waits behind the
/// one in flight; other tabs stay as they are.
pub open spec fn saved_all_tab(before: BufferTab, after: BufferTab) -> bool {
    if !save_all_candidate(before) {
        after == before
    } else if before.saving {
        &&& after == BufferTab { pending_save: after.pending_save, ..before }
        &&& after.pending_save matches Some(snap) && snapshot_of(before.buffer, snap)
    } else {
        after == BufferTab { saving: true, ..before }
    }
}

/// The tabs among the first `k` whose save goes out now, in order.
pub open spec fn sent_upto(tabs: Seq<BufferTab>, k: int) -> Seq<int>
    decreases k,
{
    if k <= 0 {
        Seq::empty()
    } else {
        let r = sent_upto(tabs, k - 1);
        if save_all_candidate(tabs[k - 1]) && !tabs[k - 1].saving { r.push(k - 1) } else { r }
    }
}

/// Among the first `k` tabs, one whose save waits.
pub open spec fn queued_upto(tabs: Seq<BufferTab>, k: int) -> bool {
    exists|j: int| 0 <= j < k && save_all_candidate(#[trigger] tabs[j]) && tabs[j].saving
}

/// Save All: every candidate tab is saved as `editor.save` saves it; with
/// nothing to write, a notification says so.
pub open spec fn spec_save_all(m: AppModel, t: AppModel, fx: Seq<EffectView>) -> bool {
    let sent = sent_upto(m.tabs, m.tabs.len() as int);
    &&& t.tabs.len() == m.tabs.len()
    &&& forall|i: int| 0 <= i < m.tabs.len() ==> saved_all_tab(m.tabs[i], #[trigger] t.tabs[i])
    &&& fx.len() == sent.len()
    &&& forall|q: int| 0 <= q < fx.len() ==> (#[trigger] fx[q] matches EffectView::Save { tab, snapshot }
        && tab == sent[q] && snapshot_of(m.tabs[sent[q]].buffer, snapshot))
    &&& t == AppModel {
        tabs: t.tabs,
        notification: if fx.len() == 0 {
            Some("No writable files to save"@)
        } else if queued_upto(m.tabs, m.tabs.len() as int) {
            Some("Save queued"@)
        } else {
            m.notification
        },
        ..m
    }
}

/// A string with the given text.
fn text(s: &str) -> (r: String)
    ensures
        r@ == s@,
{
    chars_to_string(str_to_chars(s).as_slice())
}

impl AppState {
    pub open spec fn model(&self) -> AppModel {
        AppModel {
            tabs: self.tabs@,
            active_tab: self.active_tab,
            focus: self.focus,
            overlay: self.overlay,
            palette_query: self.palette_query@,
            notification: note_view(self.notification),
            should_quit: self.should_quit,
            force_read_only: self.force_read_only,
            internal_clipboard: self.internal_clipboard@,
            terminal_size: self.terminal_size,
            large_file_threshold_mb: self.large_file_threshold_mb,
            pending_recovery: self.pending_recovery@,
            recovery_journals: self.recovery_journals@,
            lsp_hover: crate::unicode::views(self.lsp_hover@),
            commands: self.commands.entries(),
        }
    }

    pub open spec fn wf(&self) -> bool {
        model_wf(self.model())
    }

    /// An editor with no tabs, the editor focused, and the built-in commands.
    pub fn new(force_read_only: bool, large_file_threshold_mb: u64) -> (r: Self)
        ensures
            r.wf(),
            r.model() == (AppModel {
                tabs: Seq::empty(),
                active_tab: None,
                focus: Focus::Editor,
                overlay: None,
                palette_query: Seq::empty(),
                notification: None,
                should_quit: false,
                force_read_only,
                internal_clipboard: Seq::empty(),
                terminal_size: (0, 0),
                large_file_threshold_mb,
                pending_recovery: Seq::empty(),
                recovery_journals: Seq::empty(),
                lsp_hover: Seq::empty(),
                commands: crate::command::registry::built_in_table(),
            }),
    {
        let r = AppState {
            commands: CommandRegistry::built_in(),
            tabs: Vec::new(),
            active_tab: None,
            focus: Focus::Editor,
            overlay: None,
            palette_query: String::new(),
            notification: None,
            should_quit: false,
            force_read_only,
            internal_clipboard: String::new(),
            terminal_size: (0, 0),
            large_file_threshold_mb,
            pending_recovery: Vec::new(),
            recovery_journals: Vec::new(),
            lsp_hover: Vec::new(),
        };
        assert(crate::unicode::views(r.lsp_hover@) =~= Seq::<Seq<char>>::empty());
        r
    }

    fn note(&mut self, message: String)
        ensures
            final(self).model() == noted(old(self).model(), message@),
    {
        self.notification = Some(message);
    }

    fn any_saving(&self) -> (b: bool)
        ensures
            b == any_saving(self.tabs@),
    {
        let mut i: usize = 0;
        while i < self.tabs.len()
            invariant
                i <= self.tabs@.len(),
                forall|j: int| 0 <= j < i ==> !(#[trigger] self.tabs@[j]).saving,
            decreases self.tabs.len() - i,
        {
            if self.tabs[i].saving {
                return true;
            }
            i = i + 1;
        }
        false
    }

    fn any_dirty(&self) -> (b: bool)
        ensures
            b == any_dirty(self.tabs@),
    {
        let mut i: usize = 0;
        while i < self.tabs.len()
            invariant
                i <= self.tabs@.len(),
                forall|j: int| 0 <= j < i ==> !(#[trigger] self.tabs@[j]).buffer.spec_dirty(),
            decreases self.tabs.len() - i,
        {
            if self.tabs[i].buffer.is_dirty() {
                return true;
            }
            i = i + 1;
        }
        false
    }

    fn close_tab(&mut self, index: usize)
        requires
            old(self).wf(),
        ensures
            final(self).wf(),
            final(self).model() == spec_close_tab(old(self).model(), index as int),
    {
        if index >= self.tabs.len() || self.any_saving() {
            return;
        }
        let ghost m = self.model();
        let _ = self.tabs.remove(index);
        self.active_tab = match self.active_tab {
            None => None,
            Some(active) => if self.tabs.len() == 0 {
                None
            } else if active > index {
                Some(active - 1)
            } else if active == index {
                Some(if index < self.tabs.len() - 1 { index } else { self.tabs.len() - 1 })
            } else {
                Some(active)
            },
        };
        proof {
            let t = closed_tab(m, index as int);
            assert(self.model() == t);
            assert forall|i: int| 0 <= i < self.tabs@.len() implies (#[trigger] self.tabs@[i]).buffer.wf() by {
                if i < index {
                    assert(self.tabs@[i] == m.tabs[i]);
                } else {
                    assert(self.tabs@[i] == m.tabs[i + 1]);
                }
            }
        }
    }

    fn request_close_tab(&mut self, index: usize)
        requires
            old(self).wf(),
        ensures
            final(self).wf(),
            final(self).model() == spec_request_close_tab(old(self).model(), index as int),
    {
        if index >= self.tabs.len() {
            return;
        }
        if self.any_saving() {
            self.note(text("Wait for pending saves before closing a tab"));
            return;
        }
        if self.tabs[index].pinned {
            self.note(text("Unpin the tab before closing it"));
            return;
        }
        if self.tabs[index].buffer.is_dirty() {
            self.overlay = Some(Overlay::ConfirmClose { tab: index });
            self.focus = Focus::Overlay;
        } else {
            self.close_tab(index);
        }
    }

    /// Puts `tab` back at `a`, where it was taken out.
    proof fn lemma_put_back(m: AppModel, tabs: Seq<BufferTab>, a: int, tab: BufferTab)
        requires
            0 <= a < m.tabs.len(),
            tabs == m.tabs.remove(a).insert(a, tab),
        ensures
            tabs == m.tabs.update(a, tab),
    {
        assert(tabs =~= m.tabs.update(a, tab));
    }

    fn edit(&mut self, op: &EditOp)
        requires
            old(self).wf(),
        ensures
            final(self).wf(),
            spec_edit(old(self).model(), op.view(), final(self).model()),
    {
        let a = match self.active_tab {
            None => return,
            Some(a) => a,
        };
        let ghost m = self.model();
        let mut tab = self.tabs.remove(a);
        assert(tab == m.tabs[a as int]);
        let r: Result<(), BufferError> = match op {
            EditOp::Insert(v) => tab.buffer.insert(v.as_str()),
            EditOp::InsertNewline => tab.buffer.insert_newline_with_indent(),
            EditOp::DeleteBackward => tab.buffer.delete_backward(),
            EditOp::Undo => match tab.buffer.undo() {
                Ok(_) => Ok(()),
                Err(e) => Err(e),
            },
            EditOp::Redo => match tab.buffer.redo() {
                Ok(_) => Ok(()),
                Err(e) => Err(e),
            },
        };
        self.tabs.insert(a, tab);
        proof {
            Self::lemma_put_back(m, self.tabs@, a as int, tab);
            assert forall|i: int| 0 <= i < self.tabs@.len() implies (#[trigger] self.tabs@[i]).buffer.wf() by {
                if i != a {
                    assert(self.tabs@[i] == m.tabs[i]);
                }
            }
        }
        match r {
            Ok(()) => {
                assert(self.model() == with_buffer(m, a as int, self.tabs@[a as int].buffer));
            },
            Err(e) => {
                assert(self.tabs@ =~= m.tabs);
                self.note(e.message());
            },
        }
    }

    fn select(&mut self, anchor: Option<usize>, head: usize, focus: bool)
        requires
            old(self).wf(),
        ensures
            final(self).wf(),
            old(self).active_tab matches Some(a) ==> spec_select(
                old(self).model(),
                Selection {
                    anchor: match anchor { Some(x) => CharOffset(x), None => CharOffset(head) },
                    head: CharOffset(head),
                },
                focus,
                final(self).model(),
            ),
            old(self).active_tab is None ==> final(self).model() == old(self).model(),
    {
        let a = match self.active_tab {
            None => return,
            Some(a) => a,
        };
        let ghost m = self.model();
        let mut tab = self.tabs.remove(a);
        assert(tab == m.tabs[a as int]);
        let sel = Selection {
            anchor: match anchor { Some(x) => CharOffset(x), None => CharOffset(head) },
            head: CharOffset(head),
        };
        tab.buffer.set_selection(sel);
        self.tabs.insert(a, tab);
        proof {
            Self::lemma_put_back(m, self.tabs@, a as int, tab);
            assert forall|i: int| 0 <= i < self.tabs@.len() implies (#[trigger] self.tabs@[i]).buffer.wf() by {
                if i != a {
                    assert(self.tabs@[i] == m.tabs[i]);
                }
            }
        }
        if focus {
            self.focus = Focus::Editor;
        }
    }

    fn move_horizontal(&mut self, right: bool, extend: bool)
        requires
            old(self).wf(),
        ensures
            final(self).wf(),
            spec_move_horizontal(old(self).model(), right, extend, final(self).model()),
    {
        let a = match self.active_tab {
            None => return,
            Some(a) => a,
        };
        let selection = self.tabs[a].buffer.selection();
        let next = if right {
            move_right(self.tabs[a].buffer.text(), selection.head.0)
        } else {
            move_left(self.tabs[a].buffer.text(), selection.head.0)
        };
        self.select(if extend { Some(selection.anchor.0) } else { None }, next, false);
    }

    fn set_cursor(&mut self, char_offset: usize, extend: bool)
        requires
            old(self).wf(),
        ensures
            final(self).wf(),
            match old(self).active_tab {
                None => final(self).model() == old(self).model(),
                Some(a) => spec_select(
                    old(self).model(),
                    moved_selection(old(self).tabs@[a as int].buffer.sel(), char_offset, extend),
                    true,
                    final(self).model(),
                ),
            },
    {
        let a = match self.active_tab {
            None => return,
            Some(a) => a,
        };
        let selection = self.tabs[a].buffer.selection();
        self.select(if extend { Some(selection.anchor.0) } else { None }, char_offset, true);
    }

    fn copy(&mut self) -> (fx: Vec<Effect>)
        requires
            old(self).wf(),
        ensures
            final(self).wf(),
            spec_copy(old(self).model(), final(self).model(), effects_view(fx@)),
    {
        let selected = match self.active_tab {
            Some(a) => self.tabs[a].buffer.selected_text(),
            None => None,
        };
        match selected {
            None => {
                self.note(text("Select text to copy"));
                Vec::new()
            },
            Some(t) => {
                self.internal_clipboard = t.clone();
                self.notification = Some(text("Copied selection"));
                let fx = vec![Effect::CopyToClipboard(t)];
                assert(effects_view(fx@) =~= seq![EffectView::CopyToClipboard(self.internal_clipboard@)]);
                fx
            },
        }
    }

    fn cut(&mut self) -> (fx: Vec<Effect>)
        requires
            old(self).wf(),
        ensures
            final(self).wf(),
            spec_cut(old(self).model(), final(self).model(), effects_view(fx@)),
    {
        let a = match self.active_tab {
            None => return Vec::new(),
            Some(a) => a,
        };
        let t = match self.tabs[a].buffer.selected_text() {
            None => {
                self.note(text("Select text to cut"));
                return Vec::new();
            },
            Some(t) => t,
        };
        let ghost m = self.model();
        let mut tab = self.tabs.remove(a);
        assert(tab == m.tabs[a as int]);
        let r = tab.buffer.delete_selection();
        self.tabs.insert(a, tab);
        proof {
            Self::lemma_put_back(m, self.tabs@, a as int, tab);
            assert forall|i: int| 0 <= i < self.tabs@.len() implies (#[trigger] self.tabs@[i]).buffer.wf() by {
                if i != a {
                    assert(self.tabs@[i] == m.tabs[i]);
                }
            }
        }
        match r {
            Ok(true) => {
                self.internal_clipboard = t.clone();
                self.notification = Some(text("Cut selection"));
                let fx = vec![Effect::CopyToClipboard(t)];
                assert(effects_view(fx@) =~= seq![EffectView::CopyToClipboard(self.internal_clipboard@)]);
                fx
            },
            Ok(false) => Vec::new(),
            Err(e) => {
                assert(self.tabs@ =~= m.tabs);
                self.note(e.message());
                Vec::new()
            },
        }
    }

    fn paste(&mut self)
        requires
            old(self).wf(),
        ensures
            final(self).wf(),
            spec_paste(old(self).model(), final(self).model()),
    {
        if str_to_chars(self.internal_clipboard.as_str()).len() == 0 {
            self.note(text("Internal clipboard is empty"));
        } else {
            let op = EditOp::Insert(self.internal_clipboard.clone());
            self.edit(&op);
        }
    }

    fn select_all(&mut self)
        requires
            old(self).wf(),
        ensures
            final(self).wf(),
            match old(self).active_tab {
                None => final(self).model() == old(self).model(),
                Some(a) => spec_select(
                    old(self).model(),
                    Selection { anchor: CharOffset(0), head: CharOffset(old(self).tabs@[a as int].buffer.chars().len() as usize) },
                    false,
                    final(self).model(),
                ),
            },
    {
        let a = match self.active_tab {
            None => return,
            Some(a) => a,
        };
        let n = self.tabs[a].buffer.len_chars();
        self.select(Some(0), n, false);
    }

    fn save_tab(&mut self, index: usize) -> (fx: Vec<Effect>)
        requires
            old(self).wf(),
        ensures
            final(self).wf(),
            spec_save_tab(old(self).model(), index as int, final(self).model(), effects_view(fx@)),
    {
        if index >= self.tabs.len() {
            return Vec::new();
        }
        match self.tabs[index].buffer.prepare_save() {
            Err(e) => {
                self.note(e.message());
                Vec::new()
            },
            Ok(snapshot) => {
                let ghost m = self.model();
                let mut tab = self.tabs.remove(index);
                assert(tab == m.tabs[index as int]);
                if tab.saving {
                    tab.pending_save = Some(snapshot);
                    self.tabs.insert(index, tab);
                    proof { Self::lemma_put_back(m, self.tabs@, index as int, tab); }
                    self.notification = Some(text("Save queued"));
                    proof {
                        assert forall|i: int| 0 <= i < self.tabs@.len() implies (#[trigger] self.tabs@[i]).buffer.wf() by {
                            if i != index {
                                assert(self.tabs@[i] == m.tabs[i]);
                            }
                        }
                    }
                    Vec::new()
                } else {
                    tab.saving = true;
                    self.tabs.insert(index, tab);
                    proof {
                        Self::lemma_put_back(m, self.tabs@, index as int, tab);
                        assert forall|i: int| 0 <= i < self.tabs@.len() implies (#[trigger] self.tabs@[i]).buffer.wf() by {
                            if i != index {
                                assert(self.tabs@[i] == m.tabs[i]);
                            }
                        }
                    }
                    let fx = vec![Effect::Save { tab: index, snapshot }];
                    assert(effects_view(fx@)[0] == fx@[0].view());
                    fx
                }
            },
        }
    }

    fn toggle_pin(&mut self)
        requires
            old(self).wf(),
        ensures
            final(self).wf(),
            final(self).model() == spec_toggle_pin(old(self).model()),
    {
        let a = match self.active_tab {
            None => return,
            Some(a) => a,
        };
        let ghost m = self.model();
        let mut tab = self.tabs.remove(a);
        assert(tab == m.tabs[a as int]);
        tab.pinned = !tab.pinned;
        let title = tab.title();
        let mut out = if tab.pinned { str_to_chars("Pinned ") } else { str_to_chars("Unpinned ") };
        push_all(&mut out, &str_to_chars(title.as_str()));
        self.tabs.insert(a, tab);
        proof {
            Self::lemma_put_back(m, self.tabs@, a as int, tab);
            assert forall|i: int| 0 <= i < self.tabs@.len() implies (#[trigger] self.tabs@[i]).buffer.wf() by {
                if i != a {
                    assert(self.tabs@[i] == m.tabs[i]);
                }
            }
        }
        self.notification = Some(chars_to_string(out.as_slice()));
    }

    fn invoke(&mut self, id: &str) -> (fx: Vec<Effect>)
        requires
            old(self).wf(),
        ensures
            final(self).wf(),
            spec_invoke(old(self).model(), id@, final(self).model(), effects_view(fx@)),
    {
        let key = str_to_chars(id);
        if chars_eq(&key, &str_to_chars(id::APP_QUIT)) {
            if self.any_dirty() {
                self.note(text("Unsaved changes: save or close them before quitting"));
            } else {
                self.should_quit = true;
            }
            Vec::new()
        } else if chars_eq(&key, &str_to_chars(id::EDITOR_SAVE)) {
            match self.active_tab {
                None => Vec::new(),
                Some(a) => self.save_tab(a),
            }
        } else if chars_eq(&key, &str_to_chars(id::EDITOR_SAVE_ALL)) {
            self.save_all()
        } else if chars_eq(&key, &str_to_chars(id::EDITOR_CLOSE)) {
            if let Some(a) = self.active_tab {
                self.request_close_tab(a);
            }
            Vec::new()
        } else if chars_eq(&key, &str_to_chars(id::EDITOR_TOGGLE_PIN)) {
            self.toggle_pin();
            Vec::new()
        } else if chars_eq(&key, &str_to_chars(id::EDITOR_COPY)) {
            self.copy()
        } else if chars_eq(&key, &str_to_chars(id::EDITOR_CUT)) {
            self.cut()
        } else if chars_eq(&key, &str_to_chars(id::EDITOR_PASTE)) {
            self.paste();
            Vec::new()
        } else if chars_eq(&key, &str_to_chars(id::EDITOR_UNDO)) {
            self.edit(&EditOp::Undo);
            Vec::new()
        } else if chars_eq(&key, &str_to_chars(id::EDITOR_REDO)) {
            self.edit(&EditOp::Redo);
            Vec::new()
        } else if chars_eq(&key, &str_to_chars(id::EDITOR_SELECT_ALL)) {
            self.select_all();
            Vec::new()
        } else if chars_eq(&key, &str_to_chars(id::COMMAND_PALETTE_OPEN)) {
            self.overlay = Some(Overlay::CommandPalette);
            self.palette_query = String::new();
            self.focus = Focus::Overlay;
            Vec::new()
        } else {
            let mut out = str_to_chars("Unknown command: ");
            push_all(&mut out, &key);
            self.note(chars_to_string(out.as_slice()));
            Vec::new()
        }
    }

    fn execute_overlay(&mut self, command: Command) -> (fx: Vec<Effect>)
        requires
            old(self).wf(),
            old(self).overlay is Some,
        ensures
            final(self).wf(),
            spec_execute_overlay(old(self).model(), command, final(self).model(), effects_view(fx@)),
    {
        match command {
            Command::PaletteInput(c) => {
                let mut q = str_to_chars(self.palette_query.as_str());
                q.push(c);
                self.palette_query = chars_to_string(q.as_slice());
                Vec::new()
            },
            Command::PaletteBackspace => {
                let mut q = str_to_chars(self.palette_query.as_str());
                if q.len() > 0 {
                    let _ = q.pop();
                    self.palette_query = chars_to_string(q.as_slice());
                }
                Vec::new()
            },
            Command::PaletteAccept => {
                let overlay = self.overlay;
                self.overlay = None;
                match overlay {
                    Some(Overlay::CommandPalette) => {
                        let ghost m = old(self).model();
                        let all = self.commands.all();
                        let listed = palette_commands(all, self.palette_query.as_str());
                        proof { lemma_palette_first(all@, m.palette_query, all@.len() as int); }
                        self.palette_query = String::new();
                        if listed.len() > 0 {
                            let chosen = listed[0].id;
                            assert(listed@.map_values(|c: crate::command::registry::CommandMeta| meta_view(c))[0] == meta_view(listed@[0]));
                            self.invoke(chosen)
                        } else {
                            Vec::new()
                        }
                    },
                    Some(Overlay::ConfirmClose { tab }) => {
                        self.palette_query = String::new();
                        self.focus = Focus::Editor;
                        self.close_tab(tab);
                        Vec::new()
                    },
                    Some(Overlay::RecoveryPrompt) => {
                        self.overlay = Some(Overlay::RecoveryPrompt);
                        Vec::new()
                    },
                    Some(Overlay::LspHover) => {
                        self.focus = Focus::Editor;
                        Vec::new()
                    },
                    None => Vec::new(),
                }
            },
            Command::RecoveryRecover if self.overlay == Some(Overlay::RecoveryPrompt) => self.recover_pending(),
            Command::RecoveryDiscard if self.overlay == Some(Overlay::RecoveryPrompt) => {
                self.pending_recovery = Vec::new();
                self.overlay = None;
                self.focus = Focus::Editor;
                let mut paths: Vec<String> = Vec::new();
                std::mem::swap(&mut paths, &mut self.recovery_journals);
                self.notification = Some(text("Discarded crash recovery data"));
                if paths.len() > 0 {
                    let fx = vec![Effect::DiscardRecovery(paths)];
                    assert(effects_view(fx@) =~= seq![fx@[0].view()]);
                    fx
                } else {
                    let fx: Vec<Effect> = Vec::new();
                    assert(effects_view(fx@) =~= Seq::empty());
                    fx
                }
            },
            Command::RecoveryLater if self.overlay == Some(Overlay::RecoveryPrompt) => {
                self.overlay = None;
                self.focus = Focus::Editor;
                self.notification = Some(text("Recovery data kept for later"));
                Vec::new()
            },
            Command::Cancel => {
                self.overlay = None;
                self.palette_query = String::new();
                self.focus = Focus::Editor;
                Vec::new()
            },
            _ => Vec::new(),
        }
    }

    fn execute(&mut self, command: Command) -> (fx: Vec<Effect>)
        requires
            old(self).wf(),
        ensures
            final(self).wf(),
            spec_execute(old(self).model(), command, final(self).model(), effects_view(fx@)),
    {
        if self.overlay.is_some() {
            return self.execute_overlay(command);
        }
        match command {
            Command::Invoke(i) => self.invoke(i.as_str()),
            Command::InsertText(v) => {
                self.edit(&EditOp::Insert(v));
                Vec::new()
            },
            Command::InsertNewline => {
                self.edit(&EditOp::InsertNewline);
                Vec::new()
            },
            Command::DeleteBackward => {
                self.edit(&EditOp::DeleteBackward);
                Vec::new()
            },
            Command::MoveLeft { extend } => {
                self.move_horizontal(false, extend);
                Vec::new()
            },
            Command::MoveRight { extend } => {
                self.move_horizontal(true, extend);
                Vec::new()
            },
            Command::OpenFile(path) => {
                let fx = vec![Effect::OpenFile { path, read_only: self.force_read_only, line: None, column: None }];
                assert(effects_view(fx@) =~= seq![fx@[0].view()]);
                fx
            },
            Command::SelectTab(index) => {
                if index < self.tabs.len() {
                    self.active_tab = Some(index);
                    self.focus = Focus::Editor;
                }
                Vec::new()
            },
            Command::CloseTab(index) => {
                self.request_close_tab(index);
                Vec::new()
            },
            Command::SetCursor { char_offset, extend } => {
                self.set_cursor(char_offset, extend);
                Vec::new()
            },
            Command::Resize(width, height) => {
                self.terminal_size = (width, height);
                Vec::new()
            },
            _ => Vec::new(),
        }
    }

    fn save_completed(&mut self, tab: usize, snapshot: SaveSnapshot, result: Result<(), String>) -> (fx: Vec<Effect>)
        requires
            old(self).wf(),
        ensures
            final(self).wf(),
            spec_save_completed(old(self).model(), tab, snapshot, result, final(self).model(), effects_view(fx@)),
    {
        if tab >= self.tabs.len() {
            return match result {
                Ok(()) => {
                    let fx = vec![Effect::RefreshGit];
                    assert(effects_view(fx@) =~= seq![EffectView::RefreshGit]);
                    fx
                },
                Err(e) => {
                    self.note(e);
                    Vec::new()
                },
            };
        }
        let ghost m = self.model();
        let mut entry = self.tabs.remove(tab);
        assert(entry == m.tabs[tab as int]);
        entry.saving = false;
        match result {
            Err(e) => {
                entry.pending_save = None;
                self.tabs.insert(tab, entry);
                proof {
                    Self::lemma_put_back(m, self.tabs@, tab as int, entry);
                    assert forall|i: int| 0 <= i < self.tabs@.len() implies (#[trigger] self.tabs@[i]).buffer.wf() by {
                        if i != tab {
                            assert(self.tabs@[i] == m.tabs[i]);
                        }
                    }
                }
                self.notification = Some(e);
                Vec::new()
            },
            Ok(()) => {
                entry.buffer.complete_save(&snapshot);
                let mut out = str_to_chars("Saved ");
                push_all(&mut out, &str_to_chars(snapshot.path.as_str()));
                let pending = entry.pending_save.take();
                let fx = match pending {
                    Some(next) => {
                        let mut next = next;
                        next.expected_disk_hash = Some(snapshot.disk_hash);
                        entry.saving = true;
                        let fx = vec![Effect::Save { tab, snapshot: next }];
                        assert(effects_view(fx@) =~= seq![fx@[0].view()]);
                        fx
                    },
                    None => {
                        let fx = vec![Effect::RefreshGit];
                        assert(effects_view(fx@) =~= seq![EffectView::RefreshGit]);
                        fx
                    },
                };
                self.tabs.insert(tab, entry);
                proof {
                    Self::lemma_put_back(m, self.tabs@, tab as int, entry);
                    assert forall|i: int| 0 <= i < self.tabs@.len() implies (#[trigger] self.tabs@[i]).buffer.wf() by {
                        if i != tab {
                            assert(self.tabs@[i] == m.tabs[i]);
                        }
                    }
                }
                self.notification = Some(chars_to_string(out.as_slice()));
                fx
            },
        }
    }

    /// Takes the editor from one event to the next, and returns the work
    /// for the caller.
    pub fn update(&mut self, event: AppEvent) -> (effects: Vec<Effect>)
        requires
            old(self).wf(),
            handles(old(self).model(), event),
            event matches AppEvent::FileOpened { result: Ok(b), .. } ==> b.wf(),
        ensures
            final(self).wf(),
            spec_update(old(self).model(), event, final(self).model(), effects_view(effects@)),
    {
        match event {
            AppEvent::Command(command) => self.execute(command),
            AppEvent::FileOpened { path, line, column, result } => {
                self.file_opened(path, line, column, result);
                Vec::new()
            },
            AppEvent::LspResponse { request, result } => self.lsp_response(request, result),
            AppEvent::SaveCompleted { tab, snapshot, result } => self.save_completed(tab, snapshot, result),
        }
    }

    fn is_large(&self, text: &Vec<char>) -> (b: bool)
        ensures
            b == spec_is_large(text@, self.large_file_threshold_mb),
    {
        let limit: u64 = if self.large_file_threshold_mb <= u64::MAX / 1048576 {
            self.large_file_threshold_mb * 1048576
        } else {
            u64::MAX
        };
        proof {
            let t = self.large_file_threshold_mb;
            if t <= u64::MAX / 1048576 {
                assert(t as int * 1048576 <= u64::MAX) by (nonlinear_arith)
                    requires t <= u64::MAX / 1048576;
            } else {
                assert(t as int * 1048576 > u64::MAX) by (nonlinear_arith)
                    requires t > u64::MAX / 1048576;
            }
        }
        let mut sum: u64 = 0;
        let mut i: usize = 0;
        while i < text.len()
            invariant
                i <= text@.len(),
                sum as int == (if utf8_len(text@.take(i as int)) <= u64::MAX { utf8_len(text@.take(i as int)) as int } else { u64::MAX as int }),
            decreases text.len() - i,
        {
            assert(text@.take(i + 1).drop_last() =~= text@.take(i as int));
            sum = sum.saturating_add(char_utf8_width(text[i]) as u64);
            i = i + 1;
        }
        assert(text@.take(i as int) =~= text@);
        sum > limit
    }

    fn tab_with_path(&self, path: &Vec<char>) -> (r: Option<usize>)
        ensures
            match r {
                Some(i) => i < self.tabs@.len() && tab_with_path(self.tabs@, path@, self.tabs@.len() as int) == Some(i as int),
                None => tab_with_path(self.tabs@, path@, self.tabs@.len() as int) is None,
            },
    {
        let mut i: usize = 0;
        while i < self.tabs.len()
            invariant
                i <= self.tabs@.len(),
                tab_with_path(self.tabs@, path@, i as int) is None,
            decreases self.tabs.len() - i,
        {
            match self.tabs[i].buffer.path() {
                Some(p) => {
                    if compare_paths(&str_to_chars(p.as_str()), path) == 0 {
                        proof { Self::lemma_tab_with_path_found(self.tabs@, path@, i as int, self.tabs@.len() as int); }
                        return Some(i);
                    }
                },
                None => {},
            }
            i = i + 1;
        }
        None
    }

    proof fn lemma_tab_with_path_found(tabs: Seq<BufferTab>, path: Seq<char>, i: int, k: int)
        requires
            0 <= i < k <= tabs.len(),
            tab_with_path(tabs, path, i + 1) == Some(i),
        ensures
            tab_with_path(tabs, path, k) == Some(i),
        decreases k,
    {
        if k > i + 1 {
            Self::lemma_tab_with_path_found(tabs, path, i, k - 1);
        }
    }

    fn file_opened(&mut self, path: String, line: Option<usize>, column: Option<ColumnHint>, result: Result<TextBuffer, String>)
        requires
            old(self).wf(),
            result matches Ok(b) ==> b.wf(),
        ensures
            final(self).wf(),
            spec_file_opened(old(self).model(), path@, line, column, result, final(self).model()),
    {
        let buffer = match result {
            Err(e) => {
                self.note(e);
                return;
            },
            Ok(b) => b,
        };
        let ghost m = self.model();
        let a = match self.tab_with_path(&str_to_chars(path.as_str())) {
            Some(i) => i,
            None => {
                self.tabs.push(BufferTab::new(buffer));
                self.tabs.len() - 1
            },
        };
        let ghost tabs = self.tabs@;
        proof {
            assert forall|i: int| 0 <= i < tabs.len() implies (#[trigger] tabs[i]).buffer.wf() by {
                if i < m.tabs.len() {
                    assert(tabs[i] == m.tabs[i]);
                }
            }
        }
        let mut tab = self.tabs.remove(a);
        assert(tab == tabs[a as int]);
        let offset = opened_cursor_offset(tab.buffer.text(), line, column);
        let chars = str_to_chars(tab.buffer.text_string().as_str());
        let large = self.is_large(&chars);
        tab.buffer.set_selection(Selection::caret(CharOffset(offset)));
        self.tabs.insert(a, tab);
        proof {
            assert(self.tabs@ =~= tabs.update(a as int, tab));
            assert forall|i: int| 0 <= i < self.tabs@.len() implies (#[trigger] self.tabs@[i]).buffer.wf() by {
                if i != a {
                    assert(self.tabs@[i] == tabs[i]);
                }
            }
        }
        self.active_tab = Some(a);
        if self.overlay.is_none() {
            self.focus = Focus::Editor;
        }
        self.notification = if large {
            Some(text("Large-file mode: syntax highlighting, LSP, and diff decorations are disabled"))
        } else {
            None
        };
    }

    fn invocable(&self, i: &str) -> (b: bool)
        ensures
            b == invocable(self.model(), i@),
    {
        let key = str_to_chars(i);
        let own = chars_eq(&key, &str_to_chars(id::APP_QUIT))
            || chars_eq(&key, &str_to_chars(id::EDITOR_SAVE))
            || chars_eq(&key, &str_to_chars(id::EDITOR_SAVE_ALL))
            || chars_eq(&key, &str_to_chars(id::EDITOR_CLOSE))
            || chars_eq(&key, &str_to_chars(id::EDITOR_TOGGLE_PIN))
            || chars_eq(&key, &str_to_chars(id::EDITOR_COPY))
            || chars_eq(&key, &str_to_chars(id::EDITOR_CUT))
            || chars_eq(&key, &str_to_chars(id::EDITOR_PASTE))
            || chars_eq(&key, &str_to_chars(id::EDITOR_UNDO))
            || chars_eq(&key, &str_to_chars(id::EDITOR_REDO))
            || chars_eq(&key, &str_to_chars(id::EDITOR_SELECT_ALL))
            || chars_eq(&key, &str_to_chars(id::COMMAND_PALETTE_OPEN));
        own || !self.commands.contains(i)
    }

    /// Whether `update` answers `event` as the editor does (see `handles`).
    pub fn handles(&self, event: &AppEvent) -> (b: bool)
        ensures
            b == handles(self.model(), *event),
    {
        match event {
            AppEvent::Command(Command::MoveUp { .. }) => false,
            AppEvent::Command(Command::MoveDown { .. }) => false,
            AppEvent::LspResponse { request, result } => {
                let kind = match request {
                    PendingLspRequest::Hover(_) => true,
                    PendingLspRequest::Definition(_) => true,
                    _ => false,
                };
                kind && match result {
                    Some(x) => reply_fits_check(x),
                    None => true,
                }
            },
            AppEvent::Command(Command::Invoke(i)) => self.overlay.is_some() || self.invocable(i.as_str()),
            AppEvent::Command(Command::PaletteAccept) => {
                match self.overlay {
                    Some(Overlay::CommandPalette) => {
                        let all = self.commands.all();
                        let listed = palette_commands(all, self.palette_query.as_str());
                        proof { lemma_palette_first(all@, self.palette_query@, all@.len() as int); }
                        if listed.len() > 0 {
                            assert(listed@.map_values(|c: crate::command::registry::CommandMeta| meta_view(c))[0] == meta_view(listed@[0]));
                            self.invocable(listed[0].id)
                        } else {
                            true
                        }
                    },
                    _ => true,
                }
            },
            _ => true,
        }
    }

    /// Offers the buffers of an abnormal exit for recovery: a prompt opens
    /// where there are any.
    pub fn offer_recovery(&mut self, recovery: RecoverySet)
        requires
            old(self).wf(),
        ensures
            final(self).wf(),
            final(self).model() == (if recovery.buffers@.len() > 0 {
                AppModel {
                    pending_recovery: recovery.buffers@,
                    recovery_journals: recovery.journal_paths@,
                    overlay: Some(Overlay::RecoveryPrompt),
                    focus: Focus::Overlay,
                    ..old(self).model()
                }
            } else {
                AppModel {
                    pending_recovery: recovery.buffers@,
                    recovery_journals: recovery.journal_paths@,
                    ..old(self).model()
                }
            }),
    {
        self.pending_recovery = recovery.buffers;
        self.recovery_journals = recovery.journal_paths;
        if self.pending_recovery.len() > 0 {
            self.overlay = Some(Overlay::RecoveryPrompt);
            self.focus = Focus::Overlay;
        }
    }

    fn recover_pending(&mut self) -> (fx: Vec<Effect>)
        requires
            old(self).wf(),
        ensures
            final(self).wf(),
            spec_recover(old(self).model(), final(self).model(), effects_view(fx@)),
    {
        let ghost m = self.model();
        let mut pending: Vec<RecoveryBuffer> = Vec::new();
        std::mem::swap(&mut pending, &mut self.pending_recovery);
        let ghost mut states: Seq<(Seq<BufferTab>, Option<usize>)> = seq![(self.tabs@, self.active_tab)];
        let mut k: usize = 0;
        while k < pending.len()
            invariant
                k <= pending@.len(),
                pending@ == m.pending_recovery,
                self.force_read_only == m.force_read_only,
                self.overlay == m.overlay,
                self.focus == m.focus,
                self.palette_query@ == m.palette_query,
                note_view(self.notification) == m.notification,
                self.should_quit == m.should_quit,
                self.internal_clipboard@ == m.internal_clipboard,
                self.terminal_size == m.terminal_size,
                self.large_file_threshold_mb == m.large_file_threshold_mb,
                self.pending_recovery@ == Seq::<RecoveryBuffer>::empty(),
                self.recovery_journals@ == m.recovery_journals,
                self.commands.entries() == m.commands,
                crate::unicode::views(self.lsp_hover@) == m.lsp_hover,
                states.len() == k + 1,
                states[0] == (m.tabs, m.active_tab),
                states.last() == (self.tabs@, self.active_tab),
                forall|j: int| 0 <= j < k ==> #[trigger] recovery_step(states[j], pending@[j], m.force_read_only, states[j + 1]),
                forall|i: int| 0 <= i < self.tabs@.len() ==> (#[trigger] self.tabs@[i]).buffer.wf(),
                self.active_tab matches Some(a) ==> a < self.tabs@.len(),
            decreases pending.len() - k,
        {
            let r = &pending[k];
            let path: Option<String> = match &r.path {
                Some(p) => Some(p.clone()),
                None => None,
            };
            let mut buffer = TextBuffer::recovered(path, r.text.as_str(), r.expected_disk_hash, r.has_bom, r.line_ending, self.force_read_only);
            buffer.set_selection(Selection::caret(CharOffset(r.cursor_char)));
            let tab = BufferTab::new(buffer);
            let slot = match &r.path {
                Some(p) => self.tab_with_path(&str_to_chars(p.as_str())),
                None => None,
            };
            let ghost before = (self.tabs@, self.active_tab);
            match slot {
                Some(i) => {
                    self.tabs.set(i, tab);
                    self.active_tab = Some(i);
                },
                None => {
                    self.tabs.push(tab);
                    self.active_tab = Some(self.tabs.len() - 1);
                    assert(self.tabs@.drop_last() =~= before.0);
                },
            }
            proof {
                assert(recovery_step(before, pending@[k as int], m.force_read_only, (self.tabs@, self.active_tab)));
                states = states.push((self.tabs@, self.active_tab));
                assert forall|j: int| 0 <= j < k + 1 implies #[trigger] recovery_step(states[j], pending@[j], m.force_read_only, states[j + 1]) by {
                    if j < k {
                        assert(states[j] == states.drop_last()[j]);
                    }
                }
                assert forall|i: int| 0 <= i < self.tabs@.len() implies (#[trigger] self.tabs@[i]).buffer.wf() by {
                    if i < before.0.len() && !(slot matches Some(x) && x == i) {
                        assert(self.tabs@[i] == before.0[i]);
                    }
                }
            }
            k = k + 1;
        }
        self.overlay = None;
        self.focus = Focus::Editor;
        self.notification = Some(text("Recovered unsaved buffers after abnormal exit"));
        let mut paths: Vec<String> = Vec::new();
        std::mem::swap(&mut paths, &mut self.recovery_journals);
        proof {
            assert(recovery_trace((m.tabs, m.active_tab), m.pending_recovery, m.force_read_only, states));
            assert(self.recovery_journals@ == Seq::<String>::empty());
            assert(self.model() == AppModel {
                tabs: states.last().0,
                active_tab: states.last().1,
                pending_recovery: Seq::empty(),
                recovery_journals: Seq::empty(),
                overlay: None,
                focus: Focus::Editor,
                notification: Some("Recovered unsaved buffers after abnormal exit"@),
                ..m
            });
        }
        let fx = if paths.len() > 0 {
            let fx = vec![Effect::DiscardRecovery(paths)];
            assert(effects_view(fx@) =~= seq![fx@[0].view()]);
            fx
        } else {
            let fx: Vec<Effect> = Vec::new();
            assert(effects_view(fx@) =~= Seq::empty());
            fx
        };
        proof {
            let t = self.model();
            assert(recovery_trace((m.tabs, m.active_tab), m.pending_recovery, m.force_read_only, states) && t == AppModel {
                tabs: states.last().0,
                active_tab: states.last().1,
                pending_recovery: Seq::empty(),
                recovery_journals: Seq::empty(),
                overlay: None,
                focus: Focus::Editor,
                notification: Some("Recovered unsaved buffers after abnormal exit"@),
                ..m
            });
        }
        fx
    }

    fn is_active_path(&self, path: &str) -> (b: bool)
        requires
            self.wf(),
        ensures
            b == is_active_path(self.model(), path@),
    {
        match self.active_tab {
            Some(a) => match self.tabs[a].buffer.path() {
                Some(p) => compare_paths(&str_to_chars(p.as_str()), &str_to_chars(path)) == 0,
                None => false,
            },
            None => false,
        }
    }

    fn lsp_response(&mut self, request: PendingLspRequest, result: Option<JsonValue>) -> (fx: Vec<Effect>)
        requires
            old(self).wf(),
            result matches Some(x) ==> reply_fits(x),
        ensures
            final(self).wf(),
            spec_lsp_response(old(self).model(), request, result, final(self).model(), effects_view(fx@)),
    {
        let path: &str = match &request {
            PendingLspRequest::Hover(p) => p.as_str(),
            PendingLspRequest::Definition(p) => p.as_str(),
            PendingLspRequest::Completion(p) => p.as_str(),
            PendingLspRequest::References(p) => p.as_str(),
            PendingLspRequest::Formatting(p) => p.as_str(),
            PendingLspRequest::SignatureHelp(p) => p.as_str(),
        };
        let active = self.is_active_path(path);
        let reply = match &result {
            Some(x) => lsp_reply(&request, active, Some(x), ""),
            None => lsp_reply(&request, active, None, ""),
        };
        proof { reveal_strlit(""); }
        match reply {
            LspReply::Notify(message) => {
                self.note(message);
                Vec::new()
            },
            LspReply::Hover(lines) => {
                self.lsp_hover = lines;
                self.overlay = Some(Overlay::LspHover);
                self.focus = Focus::Overlay;
                Vec::new()
            },
            LspReply::OpenLocation(location) => {
                let fx = vec![Effect::OpenFile {
                    path: location.path,
                    read_only: self.force_read_only,
                    line: Some(location.line),
                    column: Some(location.column),
                }];
                assert(effects_view(fx@) =~= seq![fx@[0].view()]);
                fx
            },
            _ => Vec::new(),
        }
    }

    fn save_all(&mut self) -> (fx: Vec<Effect>)
        requires
            old(self).wf(),
        ensures
            final(self).wf(),
            spec_save_all(old(self).model(), final(self).model(), effects_view(fx@)),
    {
        let ghost m = self.model();
        let mut fx: Vec<Effect> = Vec::new();
        let mut i: usize = 0;
        while i < self.tabs.len()
            invariant
                model_wf(self.model()),
                0 <= i <= self.tabs@.len() == m.tabs.len(),
                forall|j: int| 0 <= j < i ==> saved_all_tab(m.tabs[j], #[trigger] self.tabs@[j]),
                forall|j: int| i <= j < m.tabs.len() ==> #[trigger] self.tabs@[j] == m.tabs[j],
                effects_view(fx@).len() == sent_upto(m.tabs, i as int).len(),
                forall|q: int| 0 <= q < fx@.len() ==> (#[trigger] effects_view(fx@)[q] matches EffectView::Save { tab, snapshot }
                    && tab == sent_upto(m.tabs, i as int)[q] && snapshot_of(m.tabs[sent_upto(m.tabs, i as int)[q]].buffer, snapshot)),
                forall|q: int| 0 <= q < sent_upto(m.tabs, i as int).len() ==> 0 <= #[trigger] sent_upto(m.tabs, i as int)[q] < i,
                self.model() == (AppModel {
                    tabs: self.tabs@,
                    notification: if queued_upto(m.tabs, i as int) { Some("Save queued"@) } else { m.notification },
                    ..m
                }),
            decreases self.tabs.len() - i,
        {
            let ghost before = self.model();
            let ghost fx_before = effects_view(fx@);
            let candidate = self.tabs[i].buffer.is_dirty() && !self.tabs[i].buffer.is_read_only()
                && self.tabs[i].buffer.path().is_some();
            if candidate {
                let mut e = self.save_tab(i);
                if e.len() > 0 {
                    let x = e.remove(0);
                    fx.push(x);
                    assert(effects_view(fx@) =~= fx_before.push(x.view()));
                }
            }
            proof {
                assert forall|j: int| i < j < m.tabs.len() implies #[trigger] self.tabs@[j] == m.tabs[j] by {
                    assert(self.tabs@[j] == before.tabs[j]);
                }
                assert forall|j: int| 0 <= j < i + 1 implies saved_all_tab(m.tabs[j], #[trigger] self.tabs@[j]) by {
                    if j < i {
                        assert(self.tabs@[j] == before.tabs[j]);
                    }
                }
                if candidate && m.tabs[i as int].saving {
                    assert(queued_upto(m.tabs, i + 1)) by {
                        assert(save_all_candidate(m.tabs[i as int]) && m.tabs[i as int].saving);
                    }
                } else {
                    assert(queued_upto(m.tabs, i + 1) == queued_upto(m.tabs, i as int)) by {
                        if queued_upto(m.tabs, i + 1) {
                            let j = choose|j: int| 0 <= j < i + 1 && save_all_candidate(#[trigger] m.tabs[j]) && m.tabs[j].saving;
                            assert(j != i);
                        }
                    }
                }
            }
            i = i + 1;
        }
        if fx.len() == 0 {
            self.note(text("No writable files to save"));
        }
        fx
    }
}

} // verus!

verus! {

/// Cutting a selection and pasting it back leaves the text as it was.
pub proof fn lemma_cut_then_paste_restores(
    m: AppModel,
    cut: String,
    paste: String,
    t1: AppModel,
    fx1: Seq<EffectView>,
    t2: AppModel,
    fx2: Seq<EffectView>,
    a: usize,
)
    requires
        model_wf(m),
        m.overlay is None,
        m.active_tab == Some(a),
        m.tabs[a as int].buffer.sel().start() != m.tabs[a as int].buffer.sel().end(),
        !m.tabs[a as int].buffer.spec_read_only(),
        cut@ == id::EDITOR_CUT@,
        paste@ == id::EDITOR_PASTE@,
        spec_update(m, AppEvent::Command(Command::Invoke(cut)), t1, fx1),
        spec_update(t1, AppEvent::Command(Command::Invoke(paste)), t2, fx2),
    ensures
        t2.tabs[a as int].buffer.chars() == m.tabs[a as int].buffer.chars(),
        t2.internal_clipboard == selected_chars(m.tabs[a as int].buffer),
{
    reveal_strlit("app.quit");
    reveal_strlit("editor.save");
    reveal_strlit("editor.save_all");
    reveal_strlit("editor.close");
    reveal_strlit("editor.toggle_pin");
    reveal_strlit("editor.copy");
    reveal_strlit("editor.cut");
    reveal_strlit("editor.paste");
    assert(id::EDITOR_CUT@ != id::APP_QUIT@);
    assert(id::EDITOR_CUT@ != id::EDITOR_SAVE@);
    assert(id::EDITOR_CUT@ != id::EDITOR_SAVE_ALL@);
    assert(id::EDITOR_PASTE@ != id::EDITOR_SAVE_ALL@);
    assert(id::EDITOR_CUT@ != id::EDITOR_CLOSE@);
    assert(id::EDITOR_CUT@ != id::EDITOR_TOGGLE_PIN@);
    assert(id::EDITOR_CUT@ != id::EDITOR_COPY@);
    assert(id::EDITOR_PASTE@ != id::APP_QUIT@);
    assert(id::EDITOR_PASTE@ != id::EDITOR_SAVE@);
    assert(id::EDITOR_PASTE@[7] != id::EDITOR_CLOSE@[7]);
    assert(id::EDITOR_PASTE@ != id::EDITOR_CLOSE@);
    assert(id::EDITOR_PASTE@ != id::EDITOR_TOGGLE_PIN@);
    assert(id::EDITOR_PASTE@ != id::EDITOR_COPY@);
    assert(id::EDITOR_PASTE@ != id::EDITOR_CUT@);
    let b = m.tabs[a as int].buffer;
    let s = b.sel().start() as int;
    let e = b.sel().end() as int;
    let b1 = t1.tabs[a as int].buffer;
    let b2 = t2.tabs[a as int].buffer;
    b.lemma_selection_in_text();
    assert(spec_cut(m, t1, fx1));
    assert(t1.active_tab == Some(a));
    assert(t1.internal_clipboard == b.chars().subrange(s, e));
    assert(b1.chars() == b.chars().take(s) + b.chars().skip(e));
    assert(b1.sel() == Selection::caret_spec(s as usize));
    assert(spec_paste(t1, t2));
    assert(t1.internal_clipboard.len() > 0);
    assert(t1.tabs[a as int] == BufferTab { buffer: b1, ..m.tabs[a as int] });
    assert(!b1.spec_read_only());
    assert(b2.chars() == b1.chars().take(s) + t1.internal_clipboard + b1.chars().skip(s));
    assert(b1.chars().take(s) =~= b.chars().take(s));
    assert(b1.chars().skip(s) =~= b.chars().skip(e));
    assert(b2.chars() =~= b.chars());
}

/// Closing a tab with unsaved changes asks first and keeps the tab; accepting
/// the question closes it.
pub proof fn lemma_dirty_close_needs_confirmation(
    m: AppModel,
    i: usize,
    t1: AppModel,
    fx1: Seq<EffectView>,
    t2: AppModel,
    fx2: Seq<EffectView>,
)
    requires
        model_wf(m),
        m.overlay is None,
        i < m.tabs.len(),
        m.tabs[i as int].buffer.spec_dirty(),
        !m.tabs[i as int].pinned,
        !any_saving(m.tabs),
        spec_update(m, AppEvent::Command(Command::CloseTab(i)), t1, fx1),
        spec_update(t1, AppEvent::Command(Command::PaletteAccept), t2, fx2),
    ensures
        t1.tabs == m.tabs,
        t1.overlay == Some(Overlay::ConfirmClose { tab: i }),
        t2.tabs == m.tabs.remove(i as int),
        t2.overlay is None,
        fx1.len() == 0,
        fx2.len() == 0,
{
    assert(t1 == AppModel { overlay: Some(Overlay::ConfirmClose { tab: i }), focus: Focus::Overlay, ..m });
}

/// A tab closes cleanly: `t` is `m` without tab `i`, which had no unsaved
/// changes, or whose close the user confirmed.
pub open spec fn closed_cleanly(m: AppModel, t: AppModel, i: int, confirmed: bool) -> bool {
    &&& 0 <= i < m.tabs.len()
    &&& t.tabs == m.tabs.remove(i)
    &&& (!m.tabs[i].buffer.spec_dirty() || confirmed)
}

proof fn lemma_tab_with_path_bound(tabs: Seq<BufferTab>, path: Seq<char>, k: int)
    ensures
        tab_with_path(tabs, path, k) matches Some(i) ==> 0 <= i < k,
    decreases k,
{
    if k > 0 {
        lemma_tab_with_path_bound(tabs, path, k - 1);
    }
}

/// Recovery replaces tabs or adds them, and never removes one.
proof fn lemma_recovery_keeps_tabs(
    start: (Seq<BufferTab>, Option<usize>),
    pending: Seq<RecoveryBuffer>,
    read_only: bool,
    states: Seq<(Seq<BufferTab>, Option<usize>)>,
    k: int,
)
    requires
        recovery_trace(start, pending, read_only, states),
        0 <= k <= pending.len(),
    ensures
        states[k].0.len() >= start.0.len(),
    decreases k,
{
    if k > 0 {
        lemma_recovery_keeps_tabs(start, pending, read_only, states, k - 1);
        let j = k - 1;
        assert(recovery_step(states[j], pending[j], read_only, states[j + 1]));
    }
}

/// `e` accepts the question that asked to close tab `i`.
pub open spec fn close_confirmed(m: AppModel, e: AppEvent, i: int) -> bool {
    e == AppEvent::Command(Command::PaletteAccept) && m.overlay == Some(Overlay::ConfirmClose { tab: i as usize })
}

proof fn lemma_request_close_clean(m: AppModel, i: int)
    requires
        spec_request_close_tab(m, i).tabs.len() < m.tabs.len(),
    ensures
        closed_cleanly(m, spec_request_close_tab(m, i), i, false),
{
}

proof fn lemma_invoke_closes_clean(m: AppModel, i: Seq<char>, t: AppModel, fx: Seq<EffectView>)
    requires
        model_wf(m),
        spec_invoke(m, i, t, fx),
        t.tabs.len() < m.tabs.len(),
    ensures
        exists|j: int| closed_cleanly(m, t, j, false),
{
    if i == id::EDITOR_CLOSE@ {
        let a = m.active_tab.unwrap();
        lemma_request_close_clean(m, a as int);
    } else if i == id::EDITOR_SELECT_ALL@ || i == id::EDITOR_UNDO@ || i == id::EDITOR_REDO@ || i == id::EDITOR_PASTE@ {
        if m.active_tab is Some {
            assert(t.tabs.len() == m.tabs.len());
        }
    }
}

/// No event drops a tab with unsaved changes, but the acceptance of the
/// question that asked to close that very tab.
pub proof fn lemma_unsaved_tab_closes_only_on_confirmation(m: AppModel, e: AppEvent, t: AppModel, fx: Seq<EffectView>)
    requires
        model_wf(m),
        handles(m, e),
        spec_update(m, e, t, fx),
        t.tabs.len() < m.tabs.len(),
    ensures
        exists|i: int| #[trigger] closed_cleanly(m, t, i, close_confirmed(m, e, i)),
{
    match e {
        AppEvent::Command(c) => {
            if m.overlay is Some {
                match c {
                    Command::PaletteAccept => match m.overlay {
                        Some(Overlay::CommandPalette) => {
                            let closed = AppModel { overlay: None, palette_query: Seq::empty(), ..m };
                            let k = palette_choice(m).unwrap();
                            lemma_invoke_closes_clean(closed, k, t, fx);
                            let j = choose|j: int| closed_cleanly(closed, t, j, false);
                            assert(closed_cleanly(m, t, j, close_confirmed(m, e, j)));
                        },
                        Some(Overlay::ConfirmClose { tab }) => {
                            let closing = AppModel { overlay: None, palette_query: Seq::empty(), focus: Focus::Editor, ..m };
                            assert(close_confirmed(m, e, tab as int));
                            assert(closed_cleanly(m, t, tab as int, close_confirmed(m, e, tab as int)));
                        },
                        _ => {},
                    },
                    Command::RecoveryRecover => {
                        if m.overlay == Some(Overlay::RecoveryPrompt) {
                            let states = choose|states: Seq<(Seq<BufferTab>, Option<usize>)>| {
                                &&& #[trigger] recovery_trace((m.tabs, m.active_tab), m.pending_recovery, m.force_read_only, states)
                                &&& t == AppModel {
                                    tabs: states.last().0,
                                    active_tab: states.last().1,
                                    pending_recovery: Seq::empty(),
                                    recovery_journals: Seq::empty(),
                                    overlay: None,
                                    focus: Focus::Editor,
                                    notification: Some("Recovered unsaved buffers after abnormal exit"@),
                                    ..m
                                }
                            };
                            lemma_recovery_keeps_tabs((m.tabs, m.active_tab), m.pending_recovery, m.force_read_only, states, m.pending_recovery.len() as int);
                        }
                    },
                    _ => {},
                }
            } else {
                match c {
                    Command::Invoke(k) => {
                        lemma_invoke_closes_clean(m, k@, t, fx);
                        let j = choose|j: int| closed_cleanly(m, t, j, false);
                        assert(closed_cleanly(m, t, j, close_confirmed(m, e, j)));
                    },
                    Command::CloseTab(i) => {
                        lemma_request_close_clean(m, i as int);
                        assert(closed_cleanly(m, t, i as int, close_confirmed(m, e, i as int)));
                    },
                    Command::InsertText(_) | Command::InsertNewline | Command::DeleteBackward
                    | Command::MoveLeft { .. } | Command::MoveRight { .. } | Command::SetCursor { .. } => {
                        if m.active_tab is Some {
                            assert(t.tabs.len() == m.tabs.len());
                        }
                    },
                    _ => {},
                }
            }
        },
        AppEvent::FileOpened { path, line, column, result } => {
            if result is Ok {
                let existing = tab_with_path(m.tabs, path@, m.tabs.len() as int);
                lemma_tab_with_path_bound(m.tabs, path@, m.tabs.len() as int);
                if existing is Some {
                    assert(t.tabs.len() == m.tabs.len());
                } else {
                    assert(t.tabs.len() == m.tabs.len() + 1);
                }
            }
        },
        AppEvent::SaveCompleted { tab, snapshot, result } => {},
        AppEvent::LspResponse { request, result } => {},
    }
}

} // verus!

verus! {

/// Closing tab `i` keeps the tab the editor shows where that is another
/// tab; closing the shown tab shows the tab after it, or the new last tab,
/// and nothing once no tab is left.
pub proof fn lemma_close_keeps_shown_tab(m: AppModel, i: int)
    requires
        model_wf(m),
        m.tabs.len() <= usize::MAX,
        0 <= i < m.tabs.len(),
        m.active_tab is Some,
    ensures
        ({
            let t = closed_tab(m, i);
            let a = m.active_tab->0 as int;
            &&& t.tabs == m.tabs.remove(i)
            &&& (a != i ==> (t.active_tab matches Some(b) && b < t.tabs.len() && t.tabs[b as int] == m.tabs[a]))
            &&& (a == i && i + 1 < m.tabs.len() ==> t.active_tab == Some(i as usize) && t.tabs[i] == m.tabs[i + 1])
            &&& (a == i && i + 1 == m.tabs.len() && m.tabs.len() > 1 ==> t.active_tab == Some((i - 1) as usize)
                && t.tabs[i - 1] == m.tabs[i - 1])
            &&& (m.tabs.len() == 1 ==> t.active_tab is None)
        }),
{
    let r = m.tabs.remove(i);
    let a = m.active_tab->0 as int;
    assert(r.len() == m.tabs.len() - 1);
    if a < i {
        assert(r[a] == m.tabs[a]);
    } else if a > i {
        assert(r[a - 1] == m.tabs[a]);
    } else if i + 1 < m.tabs.len() {
        assert(r[i] == m.tabs[i + 1]);
    } else if m.tabs.len() > 1 {
        assert(r[i - 1] == m.tabs[i - 1]);
    }
}

/// Closing a tab in the background, by its close button or its index, leaves
/// the editor on the tab it showed.
pub proof fn lemma_closing_background_tab_keeps_editor(
    m: AppModel,
    i: usize,
    t: AppModel,
    fx: Seq<EffectView>,
)
    requires
        model_wf(m),
        m.tabs.len() <= usize::MAX,
        m.overlay is None,
        spec_update(m, AppEvent::Command(Command::CloseTab(i)), t, fx),
        t.tabs.len() < m.tabs.len(),
        m.active_tab matches Some(a) && a != i,
    ensures
        t.active_tab matches Some(b) && b < t.tabs.len() && t.tabs[b as int] == m.tabs[m.active_tab->0 as int],
{
    lemma_close_keeps_shown_tab(m, i as int);
}

} // verus!

verus! {

/// Asking to close a tab: nothing closes while a save is in flight or when
/// the tab is pinned; a tab with unsaved changes waits for a confirmation;
/// a clean one closes at once.
pub proof fn lemma_request_close_outcomes(m: AppModel, i: int)
    requires
        model_wf(m),
        0 <= i < m.tabs.len(),
    ensures
        ({
            let t = spec_request_close_tab(m, i);
            &&& (any_saving(m.tabs) ==> t.tabs == m.tabs && t.overlay == m.overlay)
            &&& (m.tabs[i].pinned ==> t.tabs == m.tabs && t.overlay == m.overlay)
            &&& (!any_saving(m.tabs) && !m.tabs[i].pinned && m.tabs[i].buffer.spec_dirty() ==> t.tabs == m.tabs
                && t.overlay == Some(Overlay::ConfirmClose { tab: i as usize }) && t.focus == Focus::Overlay)
            &&& (!any_saving(m.tabs) && !m.tabs[i].pinned && !m.tabs[i].buffer.spec_dirty() ==> t.tabs
                == m.tabs.remove(i))
        }),
{
}

/// Selecting an existing tab shows it and focuses the editor, with the tabs
/// as they were; selecting past the last tab changes nothing.
pub proof fn lemma_select_tab(m: AppModel, i: usize, t: AppModel, fx: Seq<EffectView>)
    requires
        model_wf(m),
        m.overlay is None,
        spec_update(m, AppEvent::Command(Command::SelectTab(i)), t, fx),
    ensures
        t.tabs == m.tabs,
        fx.len() == 0,
        i < m.tabs.len() ==> t.active_tab == Some(i) && t.focus == Focus::Editor,
        i >= m.tabs.len() ==> t == m,
{
}

/// Quitting is refused while any tab has unsaved changes, and granted
/// otherwise.
pub proof fn lemma_quit_needs_saved_tabs(m: AppModel, quit: String, t: AppModel, fx: Seq<EffectView>)
    requires
        model_wf(m),
        m.overlay is None,
        quit@ == id::APP_QUIT@,
        spec_update(m, AppEvent::Command(Command::Invoke(quit)), t, fx),
    ensures
        any_dirty(m.tabs) ==> t.should_quit == m.should_quit && t.tabs == m.tabs,
        !any_dirty(m.tabs) ==> t.should_quit,
        fx.len() == 0,
{
}

} // verus!
