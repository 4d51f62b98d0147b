//! The registry of commands the palette and key bindings can invoke.

use vstd::prelude::*;

use crate::chars::{chars_eq, str_to_chars};
use crate::command::id::{FILE_NEW, FILE_NEW_DIRECTORY, FILE_RENAME, FILE_MOVE, FILE_DELETE, EDITOR_SAVE, EDITOR_SAVE_AS, EDITOR_SAVE_ALL, EDITOR_CLOSE, EDITOR_TOGGLE_PIN, EDITOR_MOVE_TAB_LEFT, EDITOR_MOVE_TAB_RIGHT, EDITOR_COPY, EDITOR_CUT, EDITOR_PASTE, EDITOR_FIND, EDITOR_REPLACE, EDITOR_REPLACE_NEXT, EDITOR_REPLACE_ALL, EDITOR_UNDO, EDITOR_REDO, EDITOR_INDENT, EDITOR_OUTDENT, EDITOR_TOGGLE_LINE_COMMENT, EDITOR_TOGGLE_LINE_NUMBERS, EDITOR_TOGGLE_WORD_WRAP, EDITOR_SELECT_ALL, EDITOR_DUPLICATE_LINE, EDITOR_MOVE_LINE_UP, EDITOR_MOVE_LINE_DOWN, EDITOR_DELETE_LINE, EDITOR_GOTO_LINE, EDITOR_NAVIGATE_BACK, EDITOR_NAVIGATE_FORWARD, WORKSPACE_OPEN_FILE, WORKSPACE_REFRESH, CONFIG_RELOAD, CONFIG_OPEN, HELP_KEYBINDINGS, NOTIFICATIONS_HISTORY, VIEW_TOGGLE_SIDEBAR, VIEW_TOGGLE_BOTTOM_PANEL, VIEW_EXPLORER, VIEW_SOURCE_CONTROL, VIEW_SEARCH, GIT_REFRESH, GIT_STAGE, GIT_UNSTAGE, GIT_RESTORE, GIT_COMMIT, GIT_BRANCH_SWITCH, GIT_BRANCH_CREATE, GIT_FETCH, GIT_PULL, GIT_PUSH, GIT_DIFF_PREVIOUS, GIT_DIFF_NEXT, EDITOR_SPLIT, EDITOR_FOCUS_NEXT_GROUP, EDITOR_CLOSE_SPLIT, EDITOR_SCROLL_UP, EDITOR_SCROLL_DOWN, SEARCH_INCLUDE_GLOBS, SEARCH_EXCLUDE_GLOBS, TERMINAL_TOGGLE, TERMINAL_NEW_SESSION, TERMINAL_OPEN_REFERENCE, TERMINAL_SEARCH, VIEW_OUTPUT, VIEW_TERMINAL, DIAGNOSTICS_OPEN_PROBLEMS, DIAGNOSTICS_REFRESH, DIAGNOSTICS_NEXT, DIAGNOSTICS_PREVIOUS, DIAGNOSTICS_FILTER_SEVERITY, DIAGNOSTICS_FILTER_SOURCE, DIAGNOSTICS_FILTER_CURRENT_FILE, LSP_HOVER, LSP_DEFINITION, LSP_COMPLETION, LSP_REFERENCES, LSP_FORMAT, LSP_SIGNATURE_HELP, LSP_CODE_ACTION, COMMAND_PALETTE_OPEN, APP_QUIT};

verus! {

/// A command: its identifier and the title shown for it.
#[derive(Debug, Clone, Copy)]
pub struct CommandMeta {
    pub id: &'static str,
    pub title: &'static str,
}

/// The built-in commands as (identifier, title), in palette order.
pub open spec fn built_in_table() -> Seq<(Seq<char>, Seq<char>)> {
    seq![
        (crate::command::id::FILE_NEW@, "New File"@),
        (crate::command::id::FILE_NEW_DIRECTORY@, "New Directory"@),
        (crate::command::id::FILE_RENAME@, "Rename File"@),
        (crate::command::id::FILE_MOVE@, "Move File"@),
        (crate::command::id::FILE_DELETE@, "Delete File"@),
        (crate::command::id::EDITOR_SAVE@, "Save File"@),
        (crate::command::id::EDITOR_SAVE_AS@, "Save As"@),
        (crate::command::id::EDITOR_SAVE_ALL@, "Save All"@),
        (crate::command::id::EDITOR_CLOSE@, "Close Editor"@),
        (crate::command::id::EDITOR_TOGGLE_PIN@, "Editor: Toggle Pin Active Tab"@),
        (crate::command::id::EDITOR_MOVE_TAB_LEFT@, "Editor: Move Tab Left"@),
        (crate::command::id::EDITOR_MOVE_TAB_RIGHT@, "Editor: Move Tab Right"@),
        (crate::command::id::EDITOR_COPY@, "Copy"@),
        (crate::command::id::EDITOR_CUT@, "Cut"@),
        (crate::command::id::EDITOR_PASTE@, "Paste"@),
        (crate::command::id::EDITOR_FIND@, "Find in Buffer"@),
        (crate::command::id::EDITOR_REPLACE@, "Replace in Buffer"@),
        (crate::command::id::EDITOR_REPLACE_NEXT@, "Replace Current Match"@),
        (crate::command::id::EDITOR_REPLACE_ALL@, "Replace All Matches"@),
        (crate::command::id::EDITOR_UNDO@, "Undo"@),
        (crate::command::id::EDITOR_REDO@, "Redo"@),
        (crate::command::id::EDITOR_INDENT@, "Indent Selected Lines"@),
        (crate::command::id::EDITOR_OUTDENT@, "Outdent Selected Lines"@),
        (crate::command::id::EDITOR_TOGGLE_LINE_COMMENT@, "Toggle Line Comment"@),
        (crate::command::id::EDITOR_TOGGLE_LINE_NUMBERS@, "Editor: Toggle Line Numbers"@),
        (crate::command::id::EDITOR_TOGGLE_WORD_WRAP@, "Editor: Toggle Word Wrap"@),
        (crate::command::id::EDITOR_SELECT_ALL@, "Select All"@),
        (crate::command::id::EDITOR_DUPLICATE_LINE@, "Duplicate Selected Lines"@),
        (crate::command::id::EDITOR_MOVE_LINE_UP@, "Move Selected Lines Up"@),
        (crate::command::id::EDITOR_MOVE_LINE_DOWN@, "Move Selected Lines Down"@),
        (crate::command::id::EDITOR_DELETE_LINE@, "Delete Selected Lines"@),
        (crate::command::id::EDITOR_GOTO_LINE@, "Go to Line"@),
        (crate::command::id::EDITOR_NAVIGATE_BACK@, "Navigate Back"@),
        (crate::command::id::EDITOR_NAVIGATE_FORWARD@, "Navigate Forward"@),
        (crate::command::id::WORKSPACE_OPEN_FILE@, "Open File"@),
        (crate::command::id::WORKSPACE_REFRESH@, "Refresh Workspace"@),
        (crate::command::id::CONFIG_RELOAD@, "Configuration: Reload"@),
        (crate::command::id::CONFIG_OPEN@, "Configuration: Open Workspace Settings"@),
        (crate::command::id::HELP_KEYBINDINGS@, "Help: Active Keyboard Shortcuts"@),
        (crate::command::id::NOTIFICATIONS_HISTORY@, "Notifications: Show History"@),
        (crate::command::id::VIEW_TOGGLE_SIDEBAR@, "Toggle Sidebar"@),
        (crate::command::id::VIEW_TOGGLE_BOTTOM_PANEL@, "Toggle Bottom Panel"@),
        (crate::command::id::VIEW_EXPLORER@, "Show Explorer"@),
        (crate::command::id::VIEW_SOURCE_CONTROL@, "Show Source Control"@),
        (crate::command::id::VIEW_SEARCH@, "Show Search"@),
        (crate::command::id::GIT_REFRESH@, "Git: Refresh"@),
        (crate::command::id::GIT_STAGE@, "Git: Stage Selected File"@),
        (crate::command::id::GIT_UNSTAGE@, "Git: Unstage Selected File"@),
        (crate::command::id::GIT_RESTORE@, "Git: Restore Selected File"@),
        (crate::command::id::GIT_COMMIT@, "Git: Commit Staged Changes"@),
        (crate::command::id::GIT_BRANCH_SWITCH@, "Git: Switch Branch"@),
        (crate::command::id::GIT_BRANCH_CREATE@, "Git: Create Branch"@),
        (crate::command::id::GIT_FETCH@, "Git: Fetch"@),
        (crate::command::id::GIT_PULL@, "Git: Pull (Fast-forward Only)"@),
        (crate::command::id::GIT_PUSH@, "Git: Push"@),
        (crate::command::id::GIT_DIFF_PREVIOUS@, "Git Diff: Previous Change"@),
        (crate::command::id::GIT_DIFF_NEXT@, "Git Diff: Next Change"@),
        (crate::command::id::EDITOR_SPLIT@, "Editor: Split Right"@),
        (crate::command::id::EDITOR_FOCUS_NEXT_GROUP@, "Editor: Focus Next Group"@),
        (crate::command::id::EDITOR_CLOSE_SPLIT@, "Editor: Close Split"@),
        (crate::command::id::EDITOR_SCROLL_UP@, "Editor: Scroll Up"@),
        (crate::command::id::EDITOR_SCROLL_DOWN@, "Editor: Scroll Down"@),
        (crate::command::id::SEARCH_INCLUDE_GLOBS@, "Search: Set Include Globs"@),
        (crate::command::id::SEARCH_EXCLUDE_GLOBS@, "Search: Set Exclude Globs"@),
        (crate::command::id::TERMINAL_TOGGLE@, "Toggle Integrated Terminal"@),
        (crate::command::id::TERMINAL_NEW_SESSION@, "Terminal: Restart Session"@),
        (crate::command::id::TERMINAL_OPEN_REFERENCE@, "Terminal: Open File Reference at Cursor"@),
        (crate::command::id::TERMINAL_SEARCH@, "Terminal: Find in Scrollback"@),
        (crate::command::id::VIEW_OUTPUT@, "Show Output Panel"@),
        (crate::command::id::VIEW_TERMINAL@, "Show Terminal Panel"@),
        (crate::command::id::DIAGNOSTICS_OPEN_PROBLEMS@, "Show Problems Panel"@),
        (crate::command::id::DIAGNOSTICS_REFRESH@, "Diagnostics: Run Cargo Check"@),
        (crate::command::id::DIAGNOSTICS_NEXT@, "Diagnostics: Go to Next Problem"@),
        (crate::command::id::DIAGNOSTICS_PREVIOUS@, "Diagnostics: Go to Previous Problem"@),
        (crate::command::id::DIAGNOSTICS_FILTER_SEVERITY@, "Diagnostics: Cycle Severity Filter"@),
        (crate::command::id::DIAGNOSTICS_FILTER_SOURCE@, "Diagnostics: Cycle Source Filter"@),
        (crate::command::id::DIAGNOSTICS_FILTER_CURRENT_FILE@, "Diagnostics: Toggle Current File Filter"@),
        (crate::command::id::LSP_HOVER@, "LSP: Hover"@),
        (crate::command::id::LSP_DEFINITION@, "LSP: Go to Definition"@),
        (crate::command::id::LSP_COMPLETION@, "LSP: Completion"@),
        (crate::command::id::LSP_REFERENCES@, "LSP: Find References"@),
        (crate::command::id::LSP_FORMAT@, "LSP: Format Document"@),
        (crate::command::id::LSP_SIGNATURE_HELP@, "LSP: Signature Help"@),
        (crate::command::id::LSP_CODE_ACTION@, "LSP: Code Action"@),
        (crate::command::id::COMMAND_PALETTE_OPEN@, "Show Command Palette"@),
        (crate::command::id::APP_QUIT@, "Quit Mica"@)
    ]
}

pub open spec fn meta_view(m: CommandMeta) -> (Seq<char>, Seq<char>) {
    (m.id@, m.title@)
}

/// The known commands.
#[derive(Debug)]
pub struct CommandRegistry {
    commands: Vec<CommandMeta>,
}

/// Index of the first entry with identifier `id`.
pub open spec fn first_with_id(entries: Seq<(Seq<char>, Seq<char>)>, id: Seq<char>) -> Option<int>
    decreases entries.len(),
{
    if entries.len() == 0 {
        None
    } else if entries[0].0 == id {
        Some(0)
    } else {
        match first_with_id(entries.drop_first(), id) {
            Some(i) => Some(i + 1),
            None => None,
        }
    }
}

pub proof fn lemma_first_with_id(entries: Seq<(Seq<char>, Seq<char>)>, id: Seq<char>)
    ensures
        first_with_id(entries, id) matches Some(i) ==> 0 <= i < entries.len() && entries[i].0 == id,
    decreases entries.len(),
{
    if entries.len() > 0 && entries[0].0 != id {
        lemma_first_with_id(entries.drop_first(), id);
    }
}

impl CommandRegistry {
    /// The commands as (identifier, title).
    pub closed spec fn entries(&self) -> Seq<(Seq<char>, Seq<char>)> {
        self.commands@.map_values(|m: CommandMeta| meta_view(m))
    }

    /// The registry of the editor's own commands.
    pub fn built_in() -> (r: Self)
        ensures
            r.entries() == built_in_table(),
    {
        let mut commands: Vec<CommandMeta> = Vec::new();
        commands.push(CommandMeta { id: FILE_NEW, title: "New File" });
        commands.push(CommandMeta { id: FILE_NEW_DIRECTORY, title: "New Directory" });
        commands.push(CommandMeta { id: FILE_RENAME, title: "Rename File" });
        commands.push(CommandMeta { id: FILE_MOVE, title: "Move File" });
        commands.push(CommandMeta { id: FILE_DELETE, title: "Delete File" });
        commands.push(CommandMeta { id: EDITOR_SAVE, title: "Save File" });
        commands.push(CommandMeta { id: EDITOR_SAVE_AS, title: "Save As" });
        commands.push(CommandMeta { id: EDITOR_SAVE_ALL, title: "Save All" });
        commands.push(CommandMeta { id: EDITOR_CLOSE, title: "Close Editor" });
        commands.push(CommandMeta { id: EDITOR_TOGGLE_PIN, title: "Editor: Toggle Pin Active Tab" });
        commands.push(CommandMeta { id: EDITOR_MOVE_TAB_LEFT, title: "Editor: Move Tab Left" });
        commands.push(CommandMeta { id: EDITOR_MOVE_TAB_RIGHT, title: "Editor: Move Tab Right" });
        commands.push(CommandMeta { id: EDITOR_COPY, title: "Copy" });
        commands.push(CommandMeta { id: EDITOR_CUT, title: "Cut" });
        commands.push(CommandMeta { id: EDITOR_PASTE, title: "Paste" });
        commands.push(CommandMeta { id: EDITOR_FIND, title: "Find in Buffer" });
        commands.push(CommandMeta { id: EDITOR_REPLACE, title: "Replace in Buffer" });
        commands.push(CommandMeta { id: EDITOR_REPLACE_NEXT, title: "Replace Current Match" });
        commands.push(CommandMeta { id: EDITOR_REPLACE_ALL, title: "Replace All Matches" });
        commands.push(CommandMeta { id: EDITOR_UNDO, title: "Undo" });
        commands.push(CommandMeta { id: EDITOR_REDO, title: "Redo" });
        commands.push(CommandMeta { id: EDITOR_INDENT, title: "Indent Selected Lines" });
        commands.push(CommandMeta { id: EDITOR_OUTDENT, title: "Outdent Selected Lines" });
        commands.push(CommandMeta { id: EDITOR_TOGGLE_LINE_COMMENT, title: "Toggle Line Comment" });
        commands.push(CommandMeta { id: EDITOR_TOGGLE_LINE_NUMBERS, title: "Editor: Toggle Line Numbers" });
        commands.push(CommandMeta { id: EDITOR_TOGGLE_WORD_WRAP, title: "Editor: Toggle Word Wrap" });
        commands.push(CommandMeta { id: EDITOR_SELECT_ALL, title: "Select All" });
        commands.push(CommandMeta { id: EDITOR_DUPLICATE_LINE, title: "Duplicate Selected Lines" });
        commands.push(CommandMeta { id: EDITOR_MOVE_LINE_UP, title: "Move Selected Lines Up" });
        commands.push(CommandMeta { id: EDITOR_MOVE_LINE_DOWN, title: "Move Selected Lines Down" });
        commands.push(CommandMeta { id: EDITOR_DELETE_LINE, title: "Delete Selected Lines" });
        commands.push(CommandMeta { id: EDITOR_GOTO_LINE, title: "Go to Line" });
        commands.push(CommandMeta { id: EDITOR_NAVIGATE_BACK, title: "Navigate Back" });
        commands.push(CommandMeta { id: EDITOR_NAVIGATE_FORWARD, title: "Navigate Forward" });
        commands.push(CommandMeta { id: WORKSPACE_OPEN_FILE, title: "Open File" });
        commands.push(CommandMeta { id: WORKSPACE_REFRESH, title: "Refresh Workspace" });
        commands.push(CommandMeta { id: CONFIG_RELOAD, title: "Configuration: Reload" });
        commands.push(CommandMeta { id: CONFIG_OPEN, title: "Configuration: Open Workspace Settings" });
        commands.push(CommandMeta { id: HELP_KEYBINDINGS, title: "Help: Active Keyboard Shortcuts" });
        commands.push(CommandMeta { id: NOTIFICATIONS_HISTORY, title: "Notifications: Show History" });
        commands.push(CommandMeta { id: VIEW_TOGGLE_SIDEBAR, title: "Toggle Sidebar" });
        commands.push(CommandMeta { id: VIEW_TOGGLE_BOTTOM_PANEL, title: "Toggle Bottom Panel" });
        commands.push(CommandMeta { id: VIEW_EXPLORER, title: "Show Explorer" });
        commands.push(CommandMeta { id: VIEW_SOURCE_CONTROL, title: "Show Source Control" });
        commands.push(CommandMeta { id: VIEW_SEARCH, title: "Show Search" });
        commands.push(CommandMeta { id: GIT_REFRESH, title: "Git: Refresh" });
        commands.push(CommandMeta { id: GIT_STAGE, title: "Git: Stage Selected File" });
        commands.push(CommandMeta { id: GIT_UNSTAGE, title: "Git: Unstage Selected File" });
        commands.push(CommandMeta { id: GIT_RESTORE, title: "Git: Restore Selected File" });
        commands.push(CommandMeta { id: GIT_COMMIT, title: "Git: Commit Staged Changes" });
        commands.push(CommandMeta { id: GIT_BRANCH_SWITCH, title: "Git: Switch Branch" });
        commands.push(CommandMeta { id: GIT_BRANCH_CREATE, title: "Git: Create Branch" });
        commands.push(CommandMeta { id: GIT_FETCH, title: "Git: Fetch" });
        commands.push(CommandMeta { id: GIT_PULL, title: "Git: Pull (Fast-forward Only)" });
        commands.push(CommandMeta { id: GIT_PUSH, title: "Git: Push" });
        commands.push(CommandMeta { id: GIT_DIFF_PREVIOUS, title: "Git Diff: Previous Change" });
        commands.push(CommandMeta { id: GIT_DIFF_NEXT, title: "Git Diff: Next Change" });
        commands.push(CommandMeta { id: EDITOR_SPLIT, title: "Editor: Split Right" });
        commands.push(CommandMeta { id: EDITOR_FOCUS_NEXT_GROUP, title: "Editor: Focus Next Group" });
        commands.push(CommandMeta { id: EDITOR_CLOSE_SPLIT, title: "Editor: Close Split" });
        commands.push(CommandMeta { id: EDITOR_SCROLL_UP, title: "Editor: Scroll Up" });
        commands.push(CommandMeta { id: EDITOR_SCROLL_DOWN, title: "Editor: Scroll Down" });
        commands.push(CommandMeta { id: SEARCH_INCLUDE_GLOBS, title: "Search: Set Include Globs" });
        commands.push(CommandMeta { id: SEARCH_EXCLUDE_GLOBS, title: "Search: Set Exclude Globs" });
        commands.push(CommandMeta { id: TERMINAL_TOGGLE, title: "Toggle Integrated Terminal" });
        commands.push(CommandMeta { id: TERMINAL_NEW_SESSION, title: "Terminal: Restart Session" });
        commands.push(CommandMeta { id: TERMINAL_OPEN_REFERENCE, title: "Terminal: Open File Reference at Cursor" });
        commands.push(CommandMeta { id: TERMINAL_SEARCH, title: "Terminal: Find in Scrollback" });
        commands.push(CommandMeta { id: VIEW_OUTPUT, title: "Show Output Panel" });
        commands.push(CommandMeta { id: VIEW_TERMINAL, title: "Show Terminal Panel" });
        commands.push(CommandMeta { id: DIAGNOSTICS_OPEN_PROBLEMS, title: "Show Problems Panel" });
        commands.push(CommandMeta { id: DIAGNOSTICS_REFRESH, title: "Diagnostics: Run Cargo Check" });
        commands.push(CommandMeta { id: DIAGNOSTICS_NEXT, title: "Diagnostics: Go to Next Problem" });
        commands.push(CommandMeta { id: DIAGNOSTICS_PREVIOUS, title: "Diagnostics: Go to Previous Problem" });
        commands.push(CommandMeta { id: DIAGNOSTICS_FILTER_SEVERITY, title: "Diagnostics: Cycle Severity Filter" });
        commands.push(CommandMeta { id: DIAGNOSTICS_FILTER_SOURCE, title: "Diagnostics: Cycle Source Filter" });
        commands.push(CommandMeta { id: DIAGNOSTICS_FILTER_CURRENT_FILE, title: "Diagnostics: Toggle Current File Filter" });
        commands.push(CommandMeta { id: LSP_HOVER, title: "LSP: Hover" });
        commands.push(CommandMeta { id: LSP_DEFINITION, title: "LSP: Go to Definition" });
        commands.push(CommandMeta { id: LSP_COMPLETION, title: "LSP: Completion" });
        commands.push(CommandMeta { id: LSP_REFERENCES, title: "LSP: Find References" });
        commands.push(CommandMeta { id: LSP_FORMAT, title: "LSP: Format Document" });
        commands.push(CommandMeta { id: LSP_SIGNATURE_HELP, title: "LSP: Signature Help" });
        commands.push(CommandMeta { id: LSP_CODE_ACTION, title: "LSP: Code Action" });
        commands.push(CommandMeta { id: COMMAND_PALETTE_OPEN, title: "Show Command Palette" });
        commands.push(CommandMeta { id: APP_QUIT, title: "Quit Mica" });
        let r = CommandRegistry { commands };
        assert(r.entries() =~= built_in_table());
        r
    }

    /// All commands, in order.
    pub fn all(&self) -> (r: &[CommandMeta])
        ensures
            r@.map_values(|m: CommandMeta| meta_view(m)) == self.entries(),
    {
        self.commands.as_slice()
    }

    /// Position of the first command with identifier `id`.
    fn position(&self, id: &str) -> (r: Option<usize>)
        ensures
            match r {
                Some(i) => first_with_id(self.entries(), id@) == Some(i as int) && i < self.commands@.len(),
                None => first_with_id(self.entries(), id@) is None,
            },
    {
        proof { lemma_first_with_id(self.entries(), id@); }
        let key = str_to_chars(id);
        let ghost es = self.entries();
        let mut i: usize = 0;
        assert(es.skip(0) =~= es);
        while i < self.commands.len()
            invariant
                i <= self.commands@.len() == es.len(),
                es == self.entries(),
                key@ == id@,
                first_with_id(es, id@) == match first_with_id(es.skip(i as int), id@) {
                    Some(j) => Some(j + i),
                    None => None::<int>,
                },
            decreases self.commands.len() - i,
        {
            assert(es.skip(i as int).drop_first() =~= es.skip(i + 1));
            assert(es.skip(i as int)[0] == meta_view(self.commands@[i as int]));
            let c = str_to_chars(self.commands[i].id);
            if chars_eq(&c, &key) {
                return Some(i);
            }
            i = i + 1;
        }
        assert(es.skip(i as int) =~= Seq::<(Seq<char>, Seq<char>)>::empty());
        None
    }

    /// Whether a command with identifier `id` is registered.
    pub fn contains(&self, id: &str) -> (b: bool)
        ensures
            b == (first_with_id(self.entries(), id@) is Some),
    {
        self.position(id).is_some()
    }

    /// The title of the first command with identifier `id`.
    pub fn title(&self, id: &str) -> (r: Option<&'static str>)
        ensures
            match r {
                Some(t) => first_with_id(self.entries(), id@) matches Some(i) && t@ == self.entries()[i].1,
                None => first_with_id(self.entries(), id@) is None,
            },
    {
        match self.position(id) {
            Some(i) => {
                assert(self.entries()[i as int] == meta_view(self.commands@[i as int]));
                Some(self.commands[i].title)
            },
            None => None,
        }
    }
}

impl Default for CommandRegistry {
    /// An empty registry.
    fn default() -> (r: Self)
        ensures
            r.entries() == Seq::<(Seq<char>, Seq<char>)>::empty(),
    {
        let r = CommandRegistry { commands: Vec::new() };
        assert(r.entries() =~= Seq::<(Seq<char>, Seq<char>)>::empty());
        r
    }
}


/// With no entry of the identifier, `first_with_id` finds nothing.
proof fn lemma_first_with_id_absent(entries: Seq<(Seq<char>, Seq<char>)>, id: Seq<char>)
    requires
        forall|i: int| 0 <= i < entries.len() ==> (#[trigger] entries[i]).0 != id,
    ensures
        first_with_id(entries, id) is None,
    decreases entries.len(),
{
    if entries.len() > 0 {
        assert(entries[0].0 != id);
        assert forall|i: int| 0 <= i < entries.drop_first().len() implies (#[trigger] entries.drop_first()[i]).0 != id by {
            assert(entries.drop_first()[i] == entries[i + 1]);
        }
        lemma_first_with_id_absent(entries.drop_first(), id);
    }
}

/// An identifier that no built-in command has is not found: no built-in
/// identifier starts as `unknown.command` does.
#[verifier::spinoff_prover]
#[verifier::rlimit(100)]
pub proof fn lemma_unknown_command_not_found()
    ensures
        first_with_id(built_in_table(), "unknown.command"@) is None,
{
    let t = built_in_table();
    reveal_strlit("unknown.command");
    assert(t.len() == 86);
    assert forall|i: int| 0 <= i < t.len() implies (#[trigger] t[i]).0 != "unknown.command"@ by {
        assert("unknown.command"@[0] == 'u');
        if i == 0 { reveal_strlit("file.new"); assert(t[0].0[0] != 'u');
        } else if i == 1 { reveal_strlit("file.new_directory"); assert(t[1].0[0] != 'u');
        } else if i == 2 { reveal_strlit("file.rename"); assert(t[2].0[0] != 'u');
        } else if i == 3 { reveal_strlit("file.move"); assert(t[3].0[0] != 'u');
        } else if i == 4 { reveal_strlit("file.delete"); assert(t[4].0[0] != 'u');
        } else if i == 5 { reveal_strlit("editor.save"); assert(t[5].0[0] != 'u');
        } else if i == 6 { reveal_strlit("editor.save_as"); assert(t[6].0[0] != 'u');
        } else if i == 7 { reveal_strlit("editor.save_all"); assert(t[7].0[0] != 'u');
        } else if i == 8 { reveal_strlit("editor.close"); assert(t[8].0[0] != 'u');
        } else if i == 9 { reveal_strlit("editor.toggle_pin"); assert(t[9].0[0] != 'u');
        } else if i == 10 { reveal_strlit("editor.move_tab_left"); assert(t[10].0[0] != 'u');
        } else if i == 11 { reveal_strlit("editor.move_tab_right"); assert(t[11].0[0] != 'u');
        } else if i == 12 { reveal_strlit("editor.copy"); assert(t[12].0[0] != 'u');
        } else if i == 13 { reveal_strlit("editor.cut"); assert(t[13].0[0] != 'u');
        } else if i == 14 { reveal_strlit("editor.paste"); assert(t[14].0[0] != 'u');
        } else if i == 15 { reveal_strlit("editor.find"); assert(t[15].0[0] != 'u');
        } else if i == 16 { reveal_strlit("editor.replace"); assert(t[16].0[0] != 'u');
        } else if i == 17 { reveal_strlit("editor.replace_next"); assert(t[17].0[0] != 'u');
        } else if i == 18 { reveal_strlit("editor.replace_all"); assert(t[18].0[0] != 'u');
        } else if i == 19 { reveal_strlit("editor.undo"); assert(t[19].0[0] != 'u');
        } else if i == 20 { reveal_strlit("editor.redo"); assert(t[20].0[0] != 'u');
        } else if i == 21 { reveal_strlit("editor.indent"); assert(t[21].0[0] != 'u');
        } else if i == 22 { reveal_strlit("editor.outdent"); assert(t[22].0[0] != 'u');
        } else if i == 23 { reveal_strlit("editor.toggle_line_comment"); assert(t[23].0[0] != 'u');
        } else if i == 24 { reveal_strlit("editor.toggle_line_numbers"); assert(t[24].0[0] != 'u');
        } else if i == 25 { reveal_strlit("editor.toggle_word_wrap"); assert(t[25].0[0] != 'u');
        } else if i == 26 { reveal_strlit("editor.select_all"); assert(t[26].0[0] != 'u');
        } else if i == 27 { reveal_strlit("editor.duplicate_line"); assert(t[27].0[0] != 'u');
        } else if i == 28 { reveal_strlit("editor.move_line_up"); assert(t[28].0[0] != 'u');
        } else if i == 29 { reveal_strlit("editor.move_line_down"); assert(t[29].0[0] != 'u');
        } else if i == 30 { reveal_strlit("editor.delete_line"); assert(t[30].0[0] != 'u');
        } else if i == 31 { reveal_strlit("editor.goto_line"); assert(t[31].0[0] != 'u');
        } else if i == 32 { reveal_strlit("editor.navigate_back"); assert(t[32].0[0] != 'u');
        } else if i == 33 { reveal_strlit("editor.navigate_forward"); assert(t[33].0[0] != 'u');
        } else if i == 34 { reveal_strlit("workspace.open_file"); assert(t[34].0[0] != 'u');
        } else if i == 35 { reveal_strlit("workspace.refresh"); assert(t[35].0[0] != 'u');
        } else if i == 36 { reveal_strlit("config.reload"); assert(t[36].0[0] != 'u');
        } else if i == 37 { reveal_strlit("config.open"); assert(t[37].0[0] != 'u');
        } else if i == 38 { reveal_strlit("help.keybindings"); assert(t[38].0[0] != 'u');
        } else if i == 39 { reveal_strlit("notifications.history"); assert(t[39].0[0] != 'u');
        } else if i == 40 { reveal_strlit("view.toggle_sidebar"); assert(t[40].0[0] != 'u');
        } else if i == 41 { reveal_strlit("view.toggle_bottom_panel"); assert(t[41].0[0] != 'u');
        } else if i == 42 { reveal_strlit("view.explorer"); assert(t[42].0[0] != 'u');
        } else if i == 43 { reveal_strlit("view.source_control"); assert(t[43].0[0] != 'u');
        } else if i == 44 { reveal_strlit("view.search"); assert(t[44].0[0] != 'u');
        } else if i == 45 { reveal_strlit("git.refresh"); assert(t[45].0[0] != 'u');
        } else if i == 46 { reveal_strlit("git.stage"); assert(t[46].0[0] != 'u');
        } else if i == 47 { reveal_strlit("git.unstage"); assert(t[47].0[0] != 'u');
        } else if i == 48 { reveal_strlit("git.restore"); assert(t[48].0[0] != 'u');
        } else if i == 49 { reveal_strlit("git.commit"); assert(t[49].0[0] != 'u');
        } else if i == 50 { reveal_strlit("git.branch_switch"); assert(t[50].0[0] != 'u');
        } else if i == 51 { reveal_strlit("git.branch_create"); assert(t[51].0[0] != 'u');
        } else if i == 52 { reveal_strlit("git.fetch"); assert(t[52].0[0] != 'u');
        } else if i == 53 { reveal_strlit("git.pull"); assert(t[53].0[0] != 'u');
        } else if i == 54 { reveal_strlit("git.push"); assert(t[54].0[0] != 'u');
        } else if i == 55 { reveal_strlit("git.diff_previous"); assert(t[55].0[0] != 'u');
        } else if i == 56 { reveal_strlit("git.diff_next"); assert(t[56].0[0] != 'u');
        } else if i == 57 { reveal_strlit("editor.split"); assert(t[57].0[0] != 'u');
        } else if i == 58 { reveal_strlit("editor.focus_next_group"); assert(t[58].0[0] != 'u');
        } else if i == 59 { reveal_strlit("editor.close_split"); assert(t[59].0[0] != 'u');
        } else if i == 60 { reveal_strlit("editor.scroll_up"); assert(t[60].0[0] != 'u');
        } else if i == 61 { reveal_strlit("editor.scroll_down"); assert(t[61].0[0] != 'u');
        } else if i == 62 { reveal_strlit("search.include_globs"); assert(t[62].0[0] != 'u');
        } else if i == 63 { reveal_strlit("search.exclude_globs"); assert(t[63].0[0] != 'u');
        } else if i == 64 { reveal_strlit("terminal.toggle"); assert(t[64].0[0] != 'u');
        } else if i == 65 { reveal_strlit("terminal.new_session"); assert(t[65].0[0] != 'u');
        } else if i == 66 { reveal_strlit("terminal.open_reference"); assert(t[66].0[0] != 'u');
        } else if i == 67 { reveal_strlit("terminal.search"); assert(t[67].0[0] != 'u');
        } else if i == 68 { reveal_strlit("view.output"); assert(t[68].0[0] != 'u');
        } else if i == 69 { reveal_strlit("view.terminal"); assert(t[69].0[0] != 'u');
        } else if i == 70 { reveal_strlit("diagnostics.open_problems"); assert(t[70].0[0] != 'u');
        } else if i == 71 { reveal_strlit("diagnostics.refresh"); assert(t[71].0[0] != 'u');
        } else if i == 72 { reveal_strlit("diagnostics.next"); assert(t[72].0[0] != 'u');
        } else if i == 73 { reveal_strlit("diagnostics.previous"); assert(t[73].0[0] != 'u');
        } else if i == 74 { reveal_strlit("diagnostics.filter_severity"); assert(t[74].0[0] != 'u');
        } else if i == 75 { reveal_strlit("diagnostics.filter_source"); assert(t[75].0[0] != 'u');
        } else if i == 76 { reveal_strlit("diagnostics.filter_current_file"); assert(t[76].0[0] != 'u');
        } else if i == 77 { reveal_strlit("lsp.hover"); assert(t[77].0[0] != 'u');
        } else if i == 78 { reveal_strlit("lsp.definition"); assert(t[78].0[0] != 'u');
        } else if i == 79 { reveal_strlit("lsp.completion"); assert(t[79].0[0] != 'u');
        } else if i == 80 { reveal_strlit("lsp.references"); assert(t[80].0[0] != 'u');
        } else if i == 81 { reveal_strlit("lsp.format"); assert(t[81].0[0] != 'u');
        } else if i == 82 { reveal_strlit("lsp.signature_help"); assert(t[82].0[0] != 'u');
        } else if i == 83 { reveal_strlit("lsp.code_action"); assert(t[83].0[0] != 'u');
        } else if i == 84 { reveal_strlit("command_palette.open"); assert(t[84].0[0] != 'u');
        } else if i == 85 { reveal_strlit("app.quit"); assert(t[85].0[0] != 'u');
        }
    }
    lemma_first_with_id_absent(t, "unknown.command"@);
}

/// An entry of the identifier makes `first_with_id` find one.
proof fn lemma_first_with_id_present(entries: Seq<(Seq<char>, Seq<char>)>, id: Seq<char>, j: int)
    requires
        0 <= j < entries.len(),
        entries[j].0 == id,
    ensures
        first_with_id(entries, id) is Some,
    decreases entries.len(),
{
    if entries[0].0 != id {
        assert(entries.drop_first()[j - 1] == entries[j]);
        lemma_first_with_id_present(entries.drop_first(), id, j - 1);
    }
}

/// The position of a built-in command identifier in the table, or the
/// table's length for any other text.
pub open spec fn built_in_rank(id: Seq<char>) -> int {
    if id == crate::command::id::FILE_NEW@ {
        0
    } else if id == crate::command::id::FILE_NEW_DIRECTORY@ {
        1
    } else if id == crate::command::id::FILE_RENAME@ {
        2
    } else if id == crate::command::id::FILE_MOVE@ {
        3
    } else if id == crate::command::id::FILE_DELETE@ {
        4
    } else if id == crate::command::id::EDITOR_SAVE@ {
        5
    } else if id == crate::command::id::EDITOR_SAVE_AS@ {
        6
    } else if id == crate::command::id::EDITOR_SAVE_ALL@ {
        7
    } else if id == crate::command::id::EDITOR_CLOSE@ {
        8
    } else if id == crate::command::id::EDITOR_TOGGLE_PIN@ {
        9
    } else if id == crate::command::id::EDITOR_MOVE_TAB_LEFT@ {
        10
    } else if id == crate::command::id::EDITOR_MOVE_TAB_RIGHT@ {
        11
    } else if id == crate::command::id::EDITOR_COPY@ {
        12
    } else if id == crate::command::id::EDITOR_CUT@ {
        13
    } else if id == crate::command::id::EDITOR_PASTE@ {
        14
    } else if id == crate::command::id::EDITOR_FIND@ {
        15
    } else if id == crate::command::id::EDITOR_REPLACE@ {
        16
    } else if id == crate::command::id::EDITOR_REPLACE_NEXT@ {
        17
    } else if id == crate::command::id::EDITOR_REPLACE_ALL@ {
        18
    } else if id == crate::command::id::EDITOR_UNDO@ {
        19
    } else if id == crate::command::id::EDITOR_REDO@ {
        20
    } else if id == crate::command::id::EDITOR_INDENT@ {
        21
    } else if id == crate::command::id::EDITOR_OUTDENT@ {
        22
    } else if id == crate::command::id::EDITOR_TOGGLE_LINE_COMMENT@ {
        23
    } else if id == crate::command::id::EDITOR_TOGGLE_LINE_NUMBERS@ {
        24
    } else if id == crate::command::id::EDITOR_TOGGLE_WORD_WRAP@ {
        25
    } else if id == crate::command::id::EDITOR_SELECT_ALL@ {
        26
    } else if id == crate::command::id::EDITOR_DUPLICATE_LINE@ {
        27
    } else if id == crate::command::id::EDITOR_MOVE_LINE_UP@ {
        28
    } else if id == crate::command::id::EDITOR_MOVE_LINE_DOWN@ {
        29
    } else if id == crate::command::id::EDITOR_DELETE_LINE@ {
        30
    } else if id == crate::command::id::EDITOR_GOTO_LINE@ {
        31
    } else if id == crate::command::id::EDITOR_NAVIGATE_BACK@ {
        32
    } else if id == crate::command::id::EDITOR_NAVIGATE_FORWARD@ {
        33
    } else if id == crate::command::id::WORKSPACE_OPEN_FILE@ {
        34
    } else if id == crate::command::id::WORKSPACE_REFRESH@ {
        35
    } else if id == crate::command::id::CONFIG_RELOAD@ {
        36
    } else if id == crate::command::id::CONFIG_OPEN@ {
        37
    } else if id == crate::command::id::HELP_KEYBINDINGS@ {
        38
    } else if id == crate::command::id::NOTIFICATIONS_HISTORY@ {
        39
    } else if id == crate::command::id::VIEW_TOGGLE_SIDEBAR@ {
        40
    } else if id == crate::command::id::VIEW_TOGGLE_BOTTOM_PANEL@ {
        41
    } else if id == crate::command::id::VIEW_EXPLORER@ {
        42
    } else if id == crate::command::id::VIEW_SOURCE_CONTROL@ {
        43
    } else if id == crate::command::id::VIEW_SEARCH@ {
        44
    } else if id == crate::command::id::GIT_REFRESH@ {
        45
    } else if id == crate::command::id::GIT_STAGE@ {
        46
    } else if id == crate::command::id::GIT_UNSTAGE@ {
        47
    } else if id == crate::command::id::GIT_RESTORE@ {
        48
    } else if id == crate::command::id::GIT_COMMIT@ {
        49
    } else if id == crate::command::id::GIT_BRANCH_SWITCH@ {
        50
    } else if id == crate::command::id::GIT_BRANCH_CREATE@ {
        51
    } else if id == crate::command::id::GIT_FETCH@ {
        52
    } else if id == crate::command::id::GIT_PULL@ {
        53
    } else if id == crate::command::id::GIT_PUSH@ {
        54
    } else if id == crate::command::id::GIT_DIFF_PREVIOUS@ {
        55
    } else if id == crate::command::id::GIT_DIFF_NEXT@ {
        56
    } else if id == crate::command::id::EDITOR_SPLIT@ {
        57
    } else if id == crate::command::id::EDITOR_FOCUS_NEXT_GROUP@ {
        58
    } else if id == crate::command::id::EDITOR_CLOSE_SPLIT@ {
        59
    } else if id == crate::command::id::EDITOR_SCROLL_UP@ {
        60
    } else if id == crate::command::id::EDITOR_SCROLL_DOWN@ {
        61
    } else if id == crate::command::id::SEARCH_INCLUDE_GLOBS@ {
        62
    } else if id == crate::command::id::SEARCH_EXCLUDE_GLOBS@ {
        63
    } else if id == crate::command::id::TERMINAL_TOGGLE@ {
        64
    } else if id == crate::command::id::TERMINAL_NEW_SESSION@ {
        65
    } else if id == crate::command::id::TERMINAL_OPEN_REFERENCE@ {
        66
    } else if id == crate::command::id::TERMINAL_SEARCH@ {
        67
    } else if id == crate::command::id::VIEW_OUTPUT@ {
        68
    } else if id == crate::command::id::VIEW_TERMINAL@ {
        69
    } else if id == crate::command::id::DIAGNOSTICS_OPEN_PROBLEMS@ {
        70
    } else if id == crate::command::id::DIAGNOSTICS_REFRESH@ {
        71
    } else if id == crate::command::id::DIAGNOSTICS_NEXT@ {
        72
    } else if id == crate::command::id::DIAGNOSTICS_PREVIOUS@ {
        73
    } else if id == crate::command::id::DIAGNOSTICS_FILTER_SEVERITY@ {
        74
    } else if id == crate::command::id::DIAGNOSTICS_FILTER_SOURCE@ {
        75
    } else if id == crate::command::id::DIAGNOSTICS_FILTER_CURRENT_FILE@ {
        76
    } else if id == crate::command::id::LSP_HOVER@ {
        77
    } else if id == crate::command::id::LSP_DEFINITION@ {
        78
    } else if id == crate::command::id::LSP_COMPLETION@ {
        79
    } else if id == crate::command::id::LSP_REFERENCES@ {
        80
    } else if id == crate::command::id::LSP_FORMAT@ {
        81
    } else if id == crate::command::id::LSP_SIGNATURE_HELP@ {
        82
    } else if id == crate::command::id::LSP_CODE_ACTION@ {
        83
    } else if id == crate::command::id::COMMAND_PALETTE_OPEN@ {
        84
    } else if id == crate::command::id::APP_QUIT@ {
        85
    } else {
        86
    }
}

/// No two built-in commands share an identifier.
#[verifier::spinoff_prover]
#[verifier::rlimit(100)]
pub proof fn lemma_built_in_ids_distinct()
    ensures
        forall|i: int, j: int|
            0 <= i < j < built_in_table().len() ==> (#[trigger] built_in_table()[i]).0 != (#[trigger] built_in_table()[j]).0,
{
    let t = built_in_table();
    assert(t.len() == 86);
    reveal_strlit("file.new");
    reveal_strlit("file.new_directory");
    reveal_strlit("file.rename");
    reveal_strlit("file.move");
    reveal_strlit("file.delete");
    reveal_strlit("editor.save");
    reveal_strlit("editor.save_as");
    reveal_strlit("editor.save_all");
    reveal_strlit("editor.close");
    reveal_strlit("editor.toggle_pin");
    reveal_strlit("editor.move_tab_left");
    reveal_strlit("editor.move_tab_right");
    reveal_strlit("editor.copy");
    reveal_strlit("editor.cut");
    reveal_strlit("editor.paste");
    reveal_strlit("editor.find");
    reveal_strlit("editor.replace");
    reveal_strlit("editor.replace_next");
    reveal_strlit("editor.replace_all");
    reveal_strlit("editor.undo");
    reveal_strlit("editor.redo");
    reveal_strlit("editor.indent");
    reveal_strlit("editor.outdent");
    reveal_strlit("editor.toggle_line_comment");
    reveal_strlit("editor.toggle_line_numbers");
    reveal_strlit("editor.toggle_word_wrap");
    reveal_strlit("editor.select_all");
    reveal_strlit("editor.duplicate_line");
    reveal_strlit("editor.move_line_up");
    reveal_strlit("editor.move_line_down");
    reveal_strlit("editor.delete_line");
    reveal_strlit("editor.goto_line");
    reveal_strlit("editor.navigate_back");
    reveal_strlit("editor.navigate_forward");
    reveal_strlit("workspace.open_file");
    reveal_strlit("workspace.refresh");
    reveal_strlit("config.reload");
    reveal_strlit("config.open");
    reveal_strlit("help.keybindings");
    reveal_strlit("notifications.history");
    reveal_strlit("view.toggle_sidebar");
    reveal_strlit("view.toggle_bottom_panel");
    reveal_strlit("view.explorer");
    reveal_strlit("view.source_control");
    reveal_strlit("view.search");
    reveal_strlit("git.refresh");
    reveal_strlit("git.stage");
    reveal_strlit("git.unstage");
    reveal_strlit("git.restore");
    reveal_strlit("git.commit");
    reveal_strlit("git.branch_switch");
    reveal_strlit("git.branch_create");
    reveal_strlit("git.fetch");
    reveal_strlit("git.pull");
    reveal_strlit("git.push");
    reveal_strlit("git.diff_previous");
    reveal_strlit("git.diff_next");
    reveal_strlit("editor.split");
    reveal_strlit("editor.focus_next_group");
    reveal_strlit("editor.close_split");
    reveal_strlit("editor.scroll_up");
    reveal_strlit("editor.scroll_down");
    reveal_strlit("search.include_globs");
    reveal_strlit("search.exclude_globs");
    reveal_strlit("terminal.toggle");
    reveal_strlit("terminal.new_session");
    reveal_strlit("terminal.open_reference");
    reveal_strlit("terminal.search");
    reveal_strlit("view.output");
    reveal_strlit("view.terminal");
    reveal_strlit("diagnostics.open_problems");
    reveal_strlit("diagnostics.refresh");
    reveal_strlit("diagnostics.next");
    reveal_strlit("diagnostics.previous");
    reveal_strlit("diagnostics.filter_severity");
    reveal_strlit("diagnostics.filter_source");
    reveal_strlit("diagnostics.filter_current_file");
    reveal_strlit("lsp.hover");
    reveal_strlit("lsp.definition");
    reveal_strlit("lsp.completion");
    reveal_strlit("lsp.references");
    reveal_strlit("lsp.format");
    reveal_strlit("lsp.signature_help");
    reveal_strlit("lsp.code_action");
    reveal_strlit("command_palette.open");
    reveal_strlit("app.quit");
    assert forall|i: int| 0 <= i < t.len() implies built_in_rank((#[trigger] t[i]).0) == i by {
        if i == 0 {
            assert(t[0].0 == crate::command::id::FILE_NEW@);
            assert(built_in_rank(crate::command::id::FILE_NEW@) == 0);
        } else if i == 1 {
            assert(t[1].0 == crate::command::id::FILE_NEW_DIRECTORY@);
            assert(built_in_rank(crate::command::id::FILE_NEW_DIRECTORY@) == 1);
        } else if i == 2 {
            assert(t[2].0 == crate::command::id::FILE_RENAME@);
            assert(built_in_rank(crate::command::id::FILE_RENAME@) == 2);
        } else if i == 3 {
            assert(t[3].0 == crate::command::id::FILE_MOVE@);
            assert(built_in_rank(crate::command::id::FILE_MOVE@) == 3);
        } else if i == 4 {
            assert(t[4].0 == crate::command::id::FILE_DELETE@);
            assert(crate::command::id::FILE_DELETE@[5] != crate::command::id::FILE_RENAME@[5]);
            assert(built_in_rank(crate::command::id::FILE_DELETE@) == 4);
        } else if i == 5 {
            assert(t[5].0 == crate::command::id::EDITOR_SAVE@);
            assert(crate::command::id::EDITOR_SAVE@[0] != crate::command::id::FILE_RENAME@[0]);
            assert(crate::command::id::EDITOR_SAVE@[0] != crate::command::id::FILE_DELETE@[0]);
            assert(built_in_rank(crate::command::id::EDITOR_SAVE@) == 5);
        } else if i == 6 {
            assert(t[6].0 == crate::command::id::EDITOR_SAVE_AS@);
            assert(built_in_rank(crate::command::id::EDITOR_SAVE_AS@) == 6);
        } else if i == 7 {
            assert(t[7].0 == crate::command::id::EDITOR_SAVE_ALL@);
            assert(built_in_rank(crate::command::id::EDITOR_SAVE_ALL@) == 7);
        } else if i == 8 {
            assert(t[8].0 == crate::command::id::EDITOR_CLOSE@);
            assert(built_in_rank(crate::command::id::EDITOR_CLOSE@) == 8);
        } else if i == 9 {
            assert(t[9].0 == crate::command::id::EDITOR_TOGGLE_PIN@);
            assert(built_in_rank(crate::command::id::EDITOR_TOGGLE_PIN@) == 9);
        } else if i == 10 {
            assert(t[10].0 == crate::command::id::EDITOR_MOVE_TAB_LEFT@);
            assert(built_in_rank(crate::command::id::EDITOR_MOVE_TAB_LEFT@) == 10);
        } else if i == 11 {
            assert(t[11].0 == crate::command::id::EDITOR_MOVE_TAB_RIGHT@);
            assert(built_in_rank(crate::command::id::EDITOR_MOVE_TAB_RIGHT@) == 11);
        } else if i == 12 {
            assert(t[12].0 == crate::command::id::EDITOR_COPY@);
            assert(crate::command::id::EDITOR_COPY@[0] != crate::command::id::FILE_RENAME@[0]);
            assert(crate::command::id::EDITOR_COPY@[0] != crate::command::id::FILE_DELETE@[0]);
            assert(crate::command::id::EDITOR_COPY@[7] != crate::command::id::EDITOR_SAVE@[7]);
            assert(built_in_rank(crate::command::id::EDITOR_COPY@) == 12);
        } else if i == 13 {
            assert(t[13].0 == crate::command::id::EDITOR_CUT@);
            assert(built_in_rank(crate::command::id::EDITOR_CUT@) == 13);
        } else if i == 14 {
            assert(t[14].0 == crate::command::id::EDITOR_PASTE@);
            assert(crate::command::id::EDITOR_PASTE@[7] != crate::command::id::EDITOR_CLOSE@[7]);
            assert(built_in_rank(crate::command::id::EDITOR_PASTE@) == 14);
        } else if i == 15 {
            assert(t[15].0 == crate::command::id::EDITOR_FIND@);
            assert(crate::command::id::EDITOR_FIND@[0] != crate::command::id::FILE_RENAME@[0]);
            assert(crate::command::id::EDITOR_FIND@[0] != crate::command::id::FILE_DELETE@[0]);
            assert(crate::command::id::EDITOR_FIND@[7] != crate::command::id::EDITOR_SAVE@[7]);
            assert(crate::command::id::EDITOR_FIND@[7] != crate::command::id::EDITOR_COPY@[7]);
            assert(built_in_rank(crate::command::id::EDITOR_FIND@) == 15);
        } else if i == 16 {
            assert(t[16].0 == crate::command::id::EDITOR_REPLACE@);
            assert(crate::command::id::EDITOR_REPLACE@[7] != crate::command::id::EDITOR_SAVE_AS@[7]);
            assert(built_in_rank(crate::command::id::EDITOR_REPLACE@) == 16);
        } else if i == 17 {
            assert(t[17].0 == crate::command::id::EDITOR_REPLACE_NEXT@);
            assert(built_in_rank(crate::command::id::EDITOR_REPLACE_NEXT@) == 17);
        } else if i == 18 {
            assert(t[18].0 == crate::command::id::EDITOR_REPLACE_ALL@);
            assert(crate::command::id::EDITOR_REPLACE_ALL@[0] != crate::command::id::FILE_NEW_DIRECTORY@[0]);
            assert(built_in_rank(crate::command::id::EDITOR_REPLACE_ALL@) == 18);
        } else if i == 19 {
            assert(t[19].0 == crate::command::id::EDITOR_UNDO@);
            assert(crate::command::id::EDITOR_UNDO@[0] != crate::command::id::FILE_RENAME@[0]);
            assert(crate::command::id::EDITOR_UNDO@[0] != crate::command::id::FILE_DELETE@[0]);
            assert(crate::command::id::EDITOR_UNDO@[7] != crate::command::id::EDITOR_SAVE@[7]);
            assert(crate::command::id::EDITOR_UNDO@[7] != crate::command::id::EDITOR_COPY@[7]);
            assert(crate::command::id::EDITOR_UNDO@[7] != crate::command::id::EDITOR_FIND@[7]);
            assert(built_in_rank(crate::command::id::EDITOR_UNDO@) == 19);
        } else if i == 20 {
            assert(t[20].0 == crate::command::id::EDITOR_REDO@);
            assert(crate::command::id::EDITOR_REDO@[0] != crate::command::id::FILE_RENAME@[0]);
            assert(crate::command::id::EDITOR_REDO@[0] != crate::command::id::FILE_DELETE@[0]);
            assert(crate::command::id::EDITOR_REDO@[7] != crate::command::id::EDITOR_SAVE@[7]);
            assert(crate::command::id::EDITOR_REDO@[7] != crate::command::id::EDITOR_COPY@[7]);
            assert(crate::command::id::EDITOR_REDO@[7] != crate::command::id::EDITOR_FIND@[7]);
            assert(crate::command::id::EDITOR_REDO@[7] != crate::command::id::EDITOR_UNDO@[7]);
            assert(built_in_rank(crate::command::id::EDITOR_REDO@) == 20);
        } else if i == 21 {
            assert(t[21].0 == crate::command::id::EDITOR_INDENT@);
            assert(built_in_rank(crate::command::id::EDITOR_INDENT@) == 21);
        } else if i == 22 {
            assert(t[22].0 == crate::command::id::EDITOR_OUTDENT@);
            assert(crate::command::id::EDITOR_OUTDENT@[7] != crate::command::id::EDITOR_SAVE_AS@[7]);
            assert(crate::command::id::EDITOR_OUTDENT@[7] != crate::command::id::EDITOR_REPLACE@[7]);
            assert(built_in_rank(crate::command::id::EDITOR_OUTDENT@) == 22);
        } else if i == 23 {
            assert(t[23].0 == crate::command::id::EDITOR_TOGGLE_LINE_COMMENT@);
            assert(built_in_rank(crate::command::id::EDITOR_TOGGLE_LINE_COMMENT@) == 23);
        } else if i == 24 {
            assert(t[24].0 == crate::command::id::EDITOR_TOGGLE_LINE_NUMBERS@);
            assert(crate::command::id::EDITOR_TOGGLE_LINE_NUMBERS@[19] != crate::command::id::EDITOR_TOGGLE_LINE_COMMENT@[19]);
            assert(built_in_rank(crate::command::id::EDITOR_TOGGLE_LINE_NUMBERS@) == 24);
        } else if i == 25 {
            assert(t[25].0 == crate::command::id::EDITOR_TOGGLE_WORD_WRAP@);
            assert(built_in_rank(crate::command::id::EDITOR_TOGGLE_WORD_WRAP@) == 25);
        } else if i == 26 {
            assert(t[26].0 == crate::command::id::EDITOR_SELECT_ALL@);
            assert(crate::command::id::EDITOR_SELECT_ALL@[7] != crate::command::id::EDITOR_TOGGLE_PIN@[7]);
            assert(built_in_rank(crate::command::id::EDITOR_SELECT_ALL@) == 26);
        } else if i == 27 {
            assert(t[27].0 == crate::command::id::EDITOR_DUPLICATE_LINE@);
            assert(crate::command::id::EDITOR_DUPLICATE_LINE@[7] != crate::command::id::EDITOR_MOVE_TAB_RIGHT@[7]);
            assert(built_in_rank(crate::command::id::EDITOR_DUPLICATE_LINE@) == 27);
        } else if i == 28 {
            assert(t[28].0 == crate::command::id::EDITOR_MOVE_LINE_UP@);
            assert(crate::command::id::EDITOR_MOVE_LINE_UP@[7] != crate::command::id::EDITOR_REPLACE_NEXT@[7]);
            assert(built_in_rank(crate::command::id::EDITOR_MOVE_LINE_UP@) == 28);
        } else if i == 29 {
            assert(t[29].0 == crate::command::id::EDITOR_MOVE_LINE_DOWN@);
            assert(crate::command::id::EDITOR_MOVE_LINE_DOWN@[12] != crate::command::id::EDITOR_MOVE_TAB_RIGHT@[12]);
            assert(crate::command::id::EDITOR_MOVE_LINE_DOWN@[7] != crate::command::id::EDITOR_DUPLICATE_LINE@[7]);
            assert(built_in_rank(crate::command::id::EDITOR_MOVE_LINE_DOWN@) == 29);
        } else if i == 30 {
            assert(t[30].0 == crate::command::id::EDITOR_DELETE_LINE@);
            assert(crate::command::id::EDITOR_DELETE_LINE@[0] != crate::command::id::FILE_NEW_DIRECTORY@[0]);
            assert(crate::command::id::EDITOR_DELETE_LINE@[7] != crate::command::id::EDITOR_REPLACE_ALL@[7]);
            assert(built_in_rank(crate::command::id::EDITOR_DELETE_LINE@) == 30);
        } else if i == 31 {
            assert(t[31].0 == crate::command::id::EDITOR_GOTO_LINE@);
            assert(built_in_rank(crate::command::id::EDITOR_GOTO_LINE@) == 31);
        } else if i == 32 {
            assert(t[32].0 == crate::command::id::EDITOR_NAVIGATE_BACK@);
            assert(crate::command::id::EDITOR_NAVIGATE_BACK@[7] != crate::command::id::EDITOR_MOVE_TAB_LEFT@[7]);
            assert(built_in_rank(crate::command::id::EDITOR_NAVIGATE_BACK@) == 32);
        } else if i == 33 {
            assert(t[33].0 == crate::command::id::EDITOR_NAVIGATE_FORWARD@);
            assert(crate::command::id::EDITOR_NAVIGATE_FORWARD@[7] != crate::command::id::EDITOR_TOGGLE_WORD_WRAP@[7]);
            assert(built_in_rank(crate::command::id::EDITOR_NAVIGATE_FORWARD@) == 33);
        } else if i == 34 {
            assert(t[34].0 == crate::command::id::WORKSPACE_OPEN_FILE@);
            assert(crate::command::id::WORKSPACE_OPEN_FILE@[0] != crate::command::id::EDITOR_REPLACE_NEXT@[0]);
            assert(crate::command::id::WORKSPACE_OPEN_FILE@[0] != crate::command::id::EDITOR_MOVE_LINE_UP@[0]);
            assert(built_in_rank(crate::command::id::WORKSPACE_OPEN_FILE@) == 34);
        } else if i == 35 {
            assert(t[35].0 == crate::command::id::WORKSPACE_REFRESH@);
            assert(crate::command::id::WORKSPACE_REFRESH@[0] != crate::command::id::EDITOR_TOGGLE_PIN@[0]);
            assert(crate::command::id::WORKSPACE_REFRESH@[0] != crate::command::id::EDITOR_SELECT_ALL@[0]);
            assert(built_in_rank(crate::command::id::WORKSPACE_REFRESH@) == 35);
        } else if i == 36 {
            assert(t[36].0 == crate::command::id::CONFIG_RELOAD@);
            assert(crate::command::id::CONFIG_RELOAD@[0] != crate::command::id::EDITOR_INDENT@[0]);
            assert(built_in_rank(crate::command::id::CONFIG_RELOAD@) == 36);
        } else if i == 37 {
            assert(t[37].0 == crate::command::id::CONFIG_OPEN@);
            assert(crate::command::id::CONFIG_OPEN@[0] != crate::command::id::FILE_RENAME@[0]);
            assert(crate::command::id::CONFIG_OPEN@[0] != crate::command::id::FILE_DELETE@[0]);
            assert(crate::command::id::CONFIG_OPEN@[0] != crate::command::id::EDITOR_SAVE@[0]);
            assert(crate::command::id::CONFIG_OPEN@[0] != crate::command::id::EDITOR_COPY@[0]);
            assert(crate::command::id::CONFIG_OPEN@[0] != crate::command::id::EDITOR_FIND@[0]);
            assert(crate::command::id::CONFIG_OPEN@[0] != crate::command::id::EDITOR_UNDO@[0]);
            assert(crate::command::id::CONFIG_OPEN@[0] != crate::command::id::EDITOR_REDO@[0]);
            assert(built_in_rank(crate::command::id::CONFIG_OPEN@) == 37);
        } else if i == 38 {
            assert(t[38].0 == crate::command::id::HELP_KEYBINDINGS@);
            assert(crate::command::id::HELP_KEYBINDINGS@[0] != crate::command::id::EDITOR_GOTO_LINE@[0]);
            assert(built_in_rank(crate::command::id::HELP_KEYBINDINGS@) == 38);
        } else if i == 39 {
            assert(t[39].0 == crate::command::id::NOTIFICATIONS_HISTORY@);
            assert(crate::command::id::NOTIFICATIONS_HISTORY@[0] != crate::command::id::EDITOR_MOVE_TAB_RIGHT@[0]);
            assert(crate::command::id::NOTIFICATIONS_HISTORY@[0] != crate::command::id::EDITOR_DUPLICATE_LINE@[0]);
            assert(crate::command::id::NOTIFICATIONS_HISTORY@[0] != crate::command::id::EDITOR_MOVE_LINE_DOWN@[0]);
            assert(built_in_rank(crate::command::id::NOTIFICATIONS_HISTORY@) == 39);
        } else if i == 40 {
            assert(t[40].0 == crate::command::id::VIEW_TOGGLE_SIDEBAR@);
            assert(crate::command::id::VIEW_TOGGLE_SIDEBAR@[0] != crate::command::id::EDITOR_REPLACE_NEXT@[0]);
            assert(crate::command::id::VIEW_TOGGLE_SIDEBAR@[0] != crate::command::id::EDITOR_MOVE_LINE_UP@[0]);
            assert(crate::command::id::VIEW_TOGGLE_SIDEBAR@[0] != crate::command::id::WORKSPACE_OPEN_FILE@[0]);
            assert(built_in_rank(crate::command::id::VIEW_TOGGLE_SIDEBAR@) == 40);
        } else if i == 41 {
            assert(t[41].0 == crate::command::id::VIEW_TOGGLE_BOTTOM_PANEL@);
            assert(built_in_rank(crate::command::id::VIEW_TOGGLE_BOTTOM_PANEL@) == 41);
        } else if i == 42 {
            assert(t[42].0 == crate::command::id::VIEW_EXPLORER@);
            assert(crate::command::id::VIEW_EXPLORER@[0] != crate::command::id::EDITOR_INDENT@[0]);
            assert(crate::command::id::VIEW_EXPLORER@[0] != crate::command::id::CONFIG_RELOAD@[0]);
            assert(built_in_rank(crate::command::id::VIEW_EXPLORER@) == 42);
        } else if i == 43 {
            assert(t[43].0 == crate::command::id::VIEW_SOURCE_CONTROL@);
            assert(crate::command::id::VIEW_SOURCE_CONTROL@[0] != crate::command::id::EDITOR_REPLACE_NEXT@[0]);
            assert(crate::command::id::VIEW_SOURCE_CONTROL@[0] != crate::command::id::EDITOR_MOVE_LINE_UP@[0]);
            assert(crate::command::id::VIEW_SOURCE_CONTROL@[0] != crate::command::id::WORKSPACE_OPEN_FILE@[0]);
            assert(crate::command::id::VIEW_SOURCE_CONTROL@[5] != crate::command::id::VIEW_TOGGLE_SIDEBAR@[5]);
            assert(built_in_rank(crate::command::id::VIEW_SOURCE_CONTROL@) == 43);
        } else if i == 44 {
            assert(t[44].0 == crate::command::id::VIEW_SEARCH@);
            assert(crate::command::id::VIEW_SEARCH@[0] != crate::command::id::FILE_RENAME@[0]);
            assert(crate::command::id::VIEW_SEARCH@[0] != crate::command::id::FILE_DELETE@[0]);
            assert(crate::command::id::VIEW_SEARCH@[0] != crate::command::id::EDITOR_SAVE@[0]);
            assert(crate::command::id::VIEW_SEARCH@[0] != crate::command::id::EDITOR_COPY@[0]);
            assert(crate::command::id::VIEW_SEARCH@[0] != crate::command::id::EDITOR_FIND@[0]);
            assert(crate::command::id::VIEW_SEARCH@[0] != crate::command::id::EDITOR_UNDO@[0]);
            assert(crate::command::id::VIEW_SEARCH@[0] != crate::command::id::EDITOR_REDO@[0]);
            assert(crate::command::id::VIEW_SEARCH@[0] != crate::command::id::CONFIG_OPEN@[0]);
            assert(built_in_rank(crate::command::id::VIEW_SEARCH@) == 44);
        } else if i == 45 {
            assert(t[45].0 == crate::command::id::GIT_REFRESH@);
            assert(crate::command::id::GIT_REFRESH@[0] != crate::command::id::FILE_RENAME@[0]);
            assert(crate::command::id::GIT_REFRESH@[0] != crate::command::id::FILE_DELETE@[0]);
            assert(crate::command::id::GIT_REFRESH@[0] != crate::command::id::EDITOR_SAVE@[0]);
            assert(crate::command::id::GIT_REFRESH@[0] != crate::command::id::EDITOR_COPY@[0]);
            assert(crate::command::id::GIT_REFRESH@[0] != crate::command::id::EDITOR_FIND@[0]);
            assert(crate::command::id::GIT_REFRESH@[0] != crate::command::id::EDITOR_UNDO@[0]);
            assert(crate::command::id::GIT_REFRESH@[0] != crate::command::id::EDITOR_REDO@[0]);
            assert(crate::command::id::GIT_REFRESH@[0] != crate::command::id::CONFIG_OPEN@[0]);
            assert(crate::command::id::GIT_REFRESH@[0] != crate::command::id::VIEW_SEARCH@[0]);
            assert(built_in_rank(crate::command::id::GIT_REFRESH@) == 45);
        } else if i == 46 {
            assert(t[46].0 == crate::command::id::GIT_STAGE@);
            assert(crate::command::id::GIT_STAGE@[0] != crate::command::id::FILE_MOVE@[0]);
            assert(built_in_rank(crate::command::id::GIT_STAGE@) == 46);
        } else if i == 47 {
            assert(t[47].0 == crate::command::id::GIT_UNSTAGE@);
            assert(crate::command::id::GIT_UNSTAGE@[0] != crate::command::id::FILE_RENAME@[0]);
            assert(crate::command::id::GIT_UNSTAGE@[0] != crate::command::id::FILE_DELETE@[0]);
            assert(crate::command::id::GIT_UNSTAGE@[0] != crate::command::id::EDITOR_SAVE@[0]);
            assert(crate::command::id::GIT_UNSTAGE@[0] != crate::command::id::EDITOR_COPY@[0]);
            assert(crate::command::id::GIT_UNSTAGE@[0] != crate::command::id::EDITOR_FIND@[0]);
            assert(crate::command::id::GIT_UNSTAGE@[0] != crate::command::id::EDITOR_UNDO@[0]);
            assert(crate::command::id::GIT_UNSTAGE@[0] != crate::command::id::EDITOR_REDO@[0]);
            assert(crate::command::id::GIT_UNSTAGE@[0] != crate::command::id::CONFIG_OPEN@[0]);
            assert(crate::command::id::GIT_UNSTAGE@[0] != crate::command::id::VIEW_SEARCH@[0]);
            assert(crate::command::id::GIT_UNSTAGE@[4] != crate::command::id::GIT_REFRESH@[4]);
            assert(built_in_rank(crate::command::id::GIT_UNSTAGE@) == 47);
        } else if i == 48 {
            assert(t[48].0 == crate::command::id::GIT_RESTORE@);
            assert(crate::command::id::GIT_RESTORE@[0] != crate::command::id::FILE_RENAME@[0]);
            assert(crate::command::id::GIT_RESTORE@[0] != crate::command::id::FILE_DELETE@[0]);
            assert(crate::command::id::GIT_RESTORE@[0] != crate::command::id::EDITOR_SAVE@[0]);
            assert(crate::command::id::GIT_RESTORE@[0] != crate::command::id::EDITOR_COPY@[0]);
            assert(crate::command::id::GIT_RESTORE@[0] != crate::command::id::EDITOR_FIND@[0]);
            assert(crate::command::id::GIT_RESTORE@[0] != crate::command::id::EDITOR_UNDO@[0]);
            assert(crate::command::id::GIT_RESTORE@[0] != crate::command::id::EDITOR_REDO@[0]);
            assert(crate::command::id::GIT_RESTORE@[0] != crate::command::id::CONFIG_OPEN@[0]);
            assert(crate::command::id::GIT_RESTORE@[0] != crate::command::id::VIEW_SEARCH@[0]);
            assert(crate::command::id::GIT_RESTORE@[6] != crate::command::id::GIT_REFRESH@[6]);
            assert(crate::command::id::GIT_RESTORE@[4] != crate::command::id::GIT_UNSTAGE@[4]);
            assert(built_in_rank(crate::command::id::GIT_RESTORE@) == 48);
        } else if i == 49 {
            assert(t[49].0 == crate::command::id::GIT_COMMIT@);
            assert(crate::command::id::GIT_COMMIT@[0] != crate::command::id::EDITOR_CUT@[0]);
            assert(built_in_rank(crate::command::id::GIT_COMMIT@) == 49);
        } else if i == 50 {
            assert(t[50].0 == crate::command::id::GIT_BRANCH_SWITCH@);
            assert(crate::command::id::GIT_BRANCH_SWITCH@[0] != crate::command::id::EDITOR_TOGGLE_PIN@[0]);
            assert(crate::command::id::GIT_BRANCH_SWITCH@[0] != crate::command::id::EDITOR_SELECT_ALL@[0]);
            assert(crate::command::id::GIT_BRANCH_SWITCH@[0] != crate::command::id::WORKSPACE_REFRESH@[0]);
            assert(built_in_rank(crate::command::id::GIT_BRANCH_SWITCH@) == 50);
        } else if i == 51 {
            assert(t[51].0 == crate::command::id::GIT_BRANCH_CREATE@);
            assert(crate::command::id::GIT_BRANCH_CREATE@[0] != crate::command::id::EDITOR_TOGGLE_PIN@[0]);
            assert(crate::command::id::GIT_BRANCH_CREATE@[0] != crate::command::id::EDITOR_SELECT_ALL@[0]);
            assert(crate::command::id::GIT_BRANCH_CREATE@[0] != crate::command::id::WORKSPACE_REFRESH@[0]);
            assert(crate::command::id::GIT_BRANCH_CREATE@[11] != crate::command::id::GIT_BRANCH_SWITCH@[11]);
            assert(built_in_rank(crate::command::id::GIT_BRANCH_CREATE@) == 51);
        } else if i == 52 {
            assert(t[52].0 == crate::command::id::GIT_FETCH@);
            assert(crate::command::id::GIT_FETCH@[0] != crate::command::id::FILE_MOVE@[0]);
            assert(crate::command::id::GIT_FETCH@[4] != crate::command::id::GIT_STAGE@[4]);
            assert(built_in_rank(crate::command::id::GIT_FETCH@) == 52);
        } else if i == 53 {
            assert(t[53].0 == crate::command::id::GIT_PULL@);
            assert(crate::command::id::GIT_PULL@[0] != crate::command::id::FILE_NEW@[0]);
            assert(built_in_rank(crate::command::id::GIT_PULL@) == 53);
        } else if i == 54 {
            assert(t[54].0 == crate::command::id::GIT_PUSH@);
            assert(crate::command::id::GIT_PUSH@[0] != crate::command::id::FILE_NEW@[0]);
            assert(crate::command::id::GIT_PUSH@[6] != crate::command::id::GIT_PULL@[6]);
            assert(built_in_rank(crate::command::id::GIT_PUSH@) == 54);
        } else if i == 55 {
            assert(t[55].0 == crate::command::id::GIT_DIFF_PREVIOUS@);
            assert(crate::command::id::GIT_DIFF_PREVIOUS@[0] != crate::command::id::EDITOR_TOGGLE_PIN@[0]);
            assert(crate::command::id::GIT_DIFF_PREVIOUS@[0] != crate::command::id::EDITOR_SELECT_ALL@[0]);
            assert(crate::command::id::GIT_DIFF_PREVIOUS@[0] != crate::command::id::WORKSPACE_REFRESH@[0]);
            assert(crate::command::id::GIT_DIFF_PREVIOUS@[4] != crate::command::id::GIT_BRANCH_SWITCH@[4]);
            assert(crate::command::id::GIT_DIFF_PREVIOUS@[4] != crate::command::id::GIT_BRANCH_CREATE@[4]);
            assert(built_in_rank(crate::command::id::GIT_DIFF_PREVIOUS@) == 55);
        } else if i == 56 {
            assert(t[56].0 == crate::command::id::GIT_DIFF_NEXT@);
            assert(crate::command::id::GIT_DIFF_NEXT@[0] != crate::command::id::EDITOR_INDENT@[0]);
            assert(crate::command::id::GIT_DIFF_NEXT@[0] != crate::command::id::CONFIG_RELOAD@[0]);
            assert(crate::command::id::GIT_DIFF_NEXT@[0] != crate::command::id::VIEW_EXPLORER@[0]);
            assert(built_in_rank(crate::command::id::GIT_DIFF_NEXT@) == 56);
        } else if i == 57 {
            assert(t[57].0 == crate::command::id::EDITOR_SPLIT@);
            assert(crate::command::id::EDITOR_SPLIT@[7] != crate::command::id::EDITOR_CLOSE@[7]);
            assert(crate::command::id::EDITOR_SPLIT@[7] != crate::command::id::EDITOR_PASTE@[7]);
            assert(built_in_rank(crate::command::id::EDITOR_SPLIT@) == 57);
        } else if i == 58 {
            assert(t[58].0 == crate::command::id::EDITOR_FOCUS_NEXT_GROUP@);
            assert(crate::command::id::EDITOR_FOCUS_NEXT_GROUP@[7] != crate::command::id::EDITOR_TOGGLE_WORD_WRAP@[7]);
            assert(crate::command::id::EDITOR_FOCUS_NEXT_GROUP@[7] != crate::command::id::EDITOR_NAVIGATE_FORWARD@[7]);
            assert(built_in_rank(crate::command::id::EDITOR_FOCUS_NEXT_GROUP@) == 58);
        } else if i == 59 {
            assert(t[59].0 == crate::command::id::EDITOR_CLOSE_SPLIT@);
            assert(crate::command::id::EDITOR_CLOSE_SPLIT@[0] != crate::command::id::FILE_NEW_DIRECTORY@[0]);
            assert(crate::command::id::EDITOR_CLOSE_SPLIT@[7] != crate::command::id::EDITOR_REPLACE_ALL@[7]);
            assert(crate::command::id::EDITOR_CLOSE_SPLIT@[7] != crate::command::id::EDITOR_DELETE_LINE@[7]);
            assert(built_in_rank(crate::command::id::EDITOR_CLOSE_SPLIT@) == 59);
        } else if i == 60 {
            assert(t[60].0 == crate::command::id::EDITOR_SCROLL_UP@);
            assert(crate::command::id::EDITOR_SCROLL_UP@[7] != crate::command::id::EDITOR_GOTO_LINE@[7]);
            assert(crate::command::id::EDITOR_SCROLL_UP@[0] != crate::command::id::HELP_KEYBINDINGS@[0]);
            assert(built_in_rank(crate::command::id::EDITOR_SCROLL_UP@) == 60);
        } else if i == 61 {
            assert(t[61].0 == crate::command::id::EDITOR_SCROLL_DOWN@);
            assert(crate::command::id::EDITOR_SCROLL_DOWN@[0] != crate::command::id::FILE_NEW_DIRECTORY@[0]);
            assert(crate::command::id::EDITOR_SCROLL_DOWN@[7] != crate::command::id::EDITOR_REPLACE_ALL@[7]);
            assert(crate::command::id::EDITOR_SCROLL_DOWN@[7] != crate::command::id::EDITOR_DELETE_LINE@[7]);
            assert(crate::command::id::EDITOR_SCROLL_DOWN@[7] != crate::command::id::EDITOR_CLOSE_SPLIT@[7]);
            assert(built_in_rank(crate::command::id::EDITOR_SCROLL_DOWN@) == 61);
        } else if i == 62 {
            assert(t[62].0 == crate::command::id::SEARCH_INCLUDE_GLOBS@);
            assert(crate::command::id::SEARCH_INCLUDE_GLOBS@[0] != crate::command::id::EDITOR_MOVE_TAB_LEFT@[0]);
            assert(crate::command::id::SEARCH_INCLUDE_GLOBS@[0] != crate::command::id::EDITOR_NAVIGATE_BACK@[0]);
            assert(built_in_rank(crate::command::id::SEARCH_INCLUDE_GLOBS@) == 62);
        } else if i == 63 {
            assert(t[63].0 == crate::command::id::SEARCH_EXCLUDE_GLOBS@);
            assert(crate::command::id::SEARCH_EXCLUDE_GLOBS@[0] != crate::command::id::EDITOR_MOVE_TAB_LEFT@[0]);
            assert(crate::command::id::SEARCH_EXCLUDE_GLOBS@[0] != crate::command::id::EDITOR_NAVIGATE_BACK@[0]);
            assert(crate::command::id::SEARCH_EXCLUDE_GLOBS@[7] != crate::command::id::SEARCH_INCLUDE_GLOBS@[7]);
            assert(built_in_rank(crate::command::id::SEARCH_EXCLUDE_GLOBS@) == 63);
        } else if i == 64 {
            assert(t[64].0 == crate::command::id::TERMINAL_TOGGLE@);
            assert(crate::command::id::TERMINAL_TOGGLE@[0] != crate::command::id::EDITOR_SAVE_ALL@[0]);
            assert(built_in_rank(crate::command::id::TERMINAL_TOGGLE@) == 64);
        } else if i == 65 {
            assert(t[65].0 == crate::command::id::TERMINAL_NEW_SESSION@);
            assert(crate::command::id::TERMINAL_NEW_SESSION@[0] != crate::command::id::EDITOR_MOVE_TAB_LEFT@[0]);
            assert(crate::command::id::TERMINAL_NEW_SESSION@[0] != crate::command::id::EDITOR_NAVIGATE_BACK@[0]);
            assert(crate::command::id::TERMINAL_NEW_SESSION@[0] != crate::command::id::SEARCH_INCLUDE_GLOBS@[0]);
            assert(crate::command::id::TERMINAL_NEW_SESSION@[0] != crate::command::id::SEARCH_EXCLUDE_GLOBS@[0]);
            assert(built_in_rank(crate::command::id::TERMINAL_NEW_SESSION@) == 65);
        } else if i == 66 {
            assert(t[66].0 == crate::command::id::TERMINAL_OPEN_REFERENCE@);
            assert(crate::command::id::TERMINAL_OPEN_REFERENCE@[0] != crate::command::id::EDITOR_TOGGLE_WORD_WRAP@[0]);
            assert(crate::command::id::TERMINAL_OPEN_REFERENCE@[0] != crate::command::id::EDITOR_NAVIGATE_FORWARD@[0]);
            assert(crate::command::id::TERMINAL_OPEN_REFERENCE@[0] != crate::command::id::EDITOR_FOCUS_NEXT_GROUP@[0]);
            assert(built_in_rank(crate::command::id::TERMINAL_OPEN_REFERENCE@) == 66);
        } else if i == 67 {
            assert(t[67].0 == crate::command::id::TERMINAL_SEARCH@);
            assert(crate::command::id::TERMINAL_SEARCH@[0] != crate::command::id::EDITOR_SAVE_ALL@[0]);
            assert(crate::command::id::TERMINAL_SEARCH@[9] != crate::command::id::TERMINAL_TOGGLE@[9]);
            assert(built_in_rank(crate::command::id::TERMINAL_SEARCH@) == 67);
        } else if i == 68 {
            assert(t[68].0 == crate::command::id::VIEW_OUTPUT@);
            assert(crate::command::id::VIEW_OUTPUT@[0] != crate::command::id::FILE_RENAME@[0]);
            assert(crate::command::id::VIEW_OUTPUT@[0] != crate::command::id::FILE_DELETE@[0]);
            assert(crate::command::id::VIEW_OUTPUT@[0] != crate::command::id::EDITOR_SAVE@[0]);
            assert(crate::command::id::VIEW_OUTPUT@[0] != crate::command::id::EDITOR_COPY@[0]);
            assert(crate::command::id::VIEW_OUTPUT@[0] != crate::command::id::EDITOR_FIND@[0]);
            assert(crate::command::id::VIEW_OUTPUT@[0] != crate::command::id::EDITOR_UNDO@[0]);
            assert(crate::command::id::VIEW_OUTPUT@[0] != crate::command::id::EDITOR_REDO@[0]);
            assert(crate::command::id::VIEW_OUTPUT@[0] != crate::command::id::CONFIG_OPEN@[0]);
            assert(crate::command::id::VIEW_OUTPUT@[5] != crate::command::id::VIEW_SEARCH@[5]);
            assert(crate::command::id::VIEW_OUTPUT@[0] != crate::command::id::GIT_REFRESH@[0]);
            assert(crate::command::id::VIEW_OUTPUT@[0] != crate::command::id::GIT_UNSTAGE@[0]);
            assert(crate::command::id::VIEW_OUTPUT@[0] != crate::command::id::GIT_RESTORE@[0]);
            assert(built_in_rank(crate::command::id::VIEW_OUTPUT@) == 68);
        } else if i == 69 {
            assert(t[69].0 == crate::command::id::VIEW_TERMINAL@);
            assert(crate::command::id::VIEW_TERMINAL@[0] != crate::command::id::EDITOR_INDENT@[0]);
            assert(crate::command::id::VIEW_TERMINAL@[0] != crate::command::id::CONFIG_RELOAD@[0]);
            assert(crate::command::id::VIEW_TERMINAL@[5] != crate::command::id::VIEW_EXPLORER@[5]);
            assert(crate::command::id::VIEW_TERMINAL@[0] != crate::command::id::GIT_DIFF_NEXT@[0]);
            assert(built_in_rank(crate::command::id::VIEW_TERMINAL@) == 69);
        } else if i == 70 {
            assert(t[70].0 == crate::command::id::DIAGNOSTICS_OPEN_PROBLEMS@);
            assert(built_in_rank(crate::command::id::DIAGNOSTICS_OPEN_PROBLEMS@) == 70);
        } else if i == 71 {
            assert(t[71].0 == crate::command::id::DIAGNOSTICS_REFRESH@);
            assert(crate::command::id::DIAGNOSTICS_REFRESH@[0] != crate::command::id::EDITOR_REPLACE_NEXT@[0]);
            assert(crate::command::id::DIAGNOSTICS_REFRESH@[0] != crate::command::id::EDITOR_MOVE_LINE_UP@[0]);
            assert(crate::command::id::DIAGNOSTICS_REFRESH@[0] != crate::command::id::WORKSPACE_OPEN_FILE@[0]);
            assert(crate::command::id::DIAGNOSTICS_REFRESH@[0] != crate::command::id::VIEW_TOGGLE_SIDEBAR@[0]);
            assert(crate::command::id::DIAGNOSTICS_REFRESH@[0] != crate::command::id::VIEW_SOURCE_CONTROL@[0]);
            assert(built_in_rank(crate::command::id::DIAGNOSTICS_REFRESH@) == 71);
        } else if i == 72 {
            assert(t[72].0 == crate::command::id::DIAGNOSTICS_NEXT@);
            assert(crate::command::id::DIAGNOSTICS_NEXT@[0] != crate::command::id::EDITOR_GOTO_LINE@[0]);
            assert(crate::command::id::DIAGNOSTICS_NEXT@[0] != crate::command::id::HELP_KEYBINDINGS@[0]);
            assert(crate::command::id::DIAGNOSTICS_NEXT@[0] != crate::command::id::EDITOR_SCROLL_UP@[0]);
            assert(built_in_rank(crate::command::id::DIAGNOSTICS_NEXT@) == 72);
        } else if i == 73 {
            assert(t[73].0 == crate::command::id::DIAGNOSTICS_PREVIOUS@);
            assert(crate::command::id::DIAGNOSTICS_PREVIOUS@[0] != crate::command::id::EDITOR_MOVE_TAB_LEFT@[0]);
            assert(crate::command::id::DIAGNOSTICS_PREVIOUS@[0] != crate::command::id::EDITOR_NAVIGATE_BACK@[0]);
            assert(crate::command::id::DIAGNOSTICS_PREVIOUS@[0] != crate::command::id::SEARCH_INCLUDE_GLOBS@[0]);
            assert(crate::command::id::DIAGNOSTICS_PREVIOUS@[0] != crate::command::id::SEARCH_EXCLUDE_GLOBS@[0]);
            assert(crate::command::id::DIAGNOSTICS_PREVIOUS@[0] != crate::command::id::TERMINAL_NEW_SESSION@[0]);
            assert(built_in_rank(crate::command::id::DIAGNOSTICS_PREVIOUS@) == 73);
        } else if i == 74 {
            assert(t[74].0 == crate::command::id::DIAGNOSTICS_FILTER_SEVERITY@);
            assert(built_in_rank(crate::command::id::DIAGNOSTICS_FILTER_SEVERITY@) == 74);
        } else if i == 75 {
            assert(t[75].0 == crate::command::id::DIAGNOSTICS_FILTER_SOURCE@);
            assert(crate::command::id::DIAGNOSTICS_FILTER_SOURCE@[12] != crate::command::id::DIAGNOSTICS_OPEN_PROBLEMS@[12]);
            assert(built_in_rank(crate::command::id::DIAGNOSTICS_FILTER_SOURCE@) == 75);
        } else if i == 76 {
            assert(t[76].0 == crate::command::id::DIAGNOSTICS_FILTER_CURRENT_FILE@);
            assert(built_in_rank(crate::command::id::DIAGNOSTICS_FILTER_CURRENT_FILE@) == 76);
        } else if i == 77 {
            assert(t[77].0 == crate::command::id::LSP_HOVER@);
            assert(crate::command::id::LSP_HOVER@[0] != crate::command::id::FILE_MOVE@[0]);
            assert(crate::command::id::LSP_HOVER@[0] != crate::command::id::GIT_STAGE@[0]);
            assert(crate::command::id::LSP_HOVER@[0] != crate::command::id::GIT_FETCH@[0]);
            assert(built_in_rank(crate::command::id::LSP_HOVER@) == 77);
        } else if i == 78 {
            assert(t[78].0 == crate::command::id::LSP_DEFINITION@);
            assert(crate::command::id::LSP_DEFINITION@[0] != crate::command::id::EDITOR_SAVE_AS@[0]);
            assert(crate::command::id::LSP_DEFINITION@[0] != crate::command::id::EDITOR_REPLACE@[0]);
            assert(crate::command::id::LSP_DEFINITION@[0] != crate::command::id::EDITOR_OUTDENT@[0]);
            assert(built_in_rank(crate::command::id::LSP_DEFINITION@) == 78);
        } else if i == 79 {
            assert(t[79].0 == crate::command::id::LSP_COMPLETION@);
            assert(crate::command::id::LSP_COMPLETION@[0] != crate::command::id::EDITOR_SAVE_AS@[0]);
            assert(crate::command::id::LSP_COMPLETION@[0] != crate::command::id::EDITOR_REPLACE@[0]);
            assert(crate::command::id::LSP_COMPLETION@[0] != crate::command::id::EDITOR_OUTDENT@[0]);
            assert(crate::command::id::LSP_COMPLETION@[4] != crate::command::id::LSP_DEFINITION@[4]);
            assert(built_in_rank(crate::command::id::LSP_COMPLETION@) == 79);
        } else if i == 80 {
            assert(t[80].0 == crate::command::id::LSP_REFERENCES@);
            assert(crate::command::id::LSP_REFERENCES@[0] != crate::command::id::EDITOR_SAVE_AS@[0]);
            assert(crate::command::id::LSP_REFERENCES@[0] != crate::command::id::EDITOR_REPLACE@[0]);
            assert(crate::command::id::LSP_REFERENCES@[0] != crate::command::id::EDITOR_OUTDENT@[0]);
            assert(crate::command::id::LSP_REFERENCES@[4] != crate::command::id::LSP_DEFINITION@[4]);
            assert(crate::command::id::LSP_REFERENCES@[4] != crate::command::id::LSP_COMPLETION@[4]);
            assert(built_in_rank(crate::command::id::LSP_REFERENCES@) == 80);
        } else if i == 81 {
            assert(t[81].0 == crate::command::id::LSP_FORMAT@);
            assert(crate::command::id::LSP_FORMAT@[0] != crate::command::id::EDITOR_CUT@[0]);
            assert(crate::command::id::LSP_FORMAT@[0] != crate::command::id::GIT_COMMIT@[0]);
            assert(built_in_rank(crate::command::id::LSP_FORMAT@) == 81);
        } else if i == 82 {
            assert(t[82].0 == crate::command::id::LSP_SIGNATURE_HELP@);
            assert(crate::command::id::LSP_SIGNATURE_HELP@[0] != crate::command::id::FILE_NEW_DIRECTORY@[0]);
            assert(crate::command::id::LSP_SIGNATURE_HELP@[0] != crate::command::id::EDITOR_REPLACE_ALL@[0]);
            assert(crate::command::id::LSP_SIGNATURE_HELP@[0] != crate::command::id::EDITOR_DELETE_LINE@[0]);
            assert(crate::command::id::LSP_SIGNATURE_HELP@[0] != crate::command::id::EDITOR_CLOSE_SPLIT@[0]);
            assert(crate::command::id::LSP_SIGNATURE_HELP@[0] != crate::command::id::EDITOR_SCROLL_DOWN@[0]);
            assert(built_in_rank(crate::command::id::LSP_SIGNATURE_HELP@) == 82);
        } else if i == 83 {
            assert(t[83].0 == crate::command::id::LSP_CODE_ACTION@);
            assert(crate::command::id::LSP_CODE_ACTION@[0] != crate::command::id::EDITOR_SAVE_ALL@[0]);
            assert(crate::command::id::LSP_CODE_ACTION@[0] != crate::command::id::TERMINAL_TOGGLE@[0]);
            assert(crate::command::id::LSP_CODE_ACTION@[0] != crate::command::id::TERMINAL_SEARCH@[0]);
            assert(built_in_rank(crate::command::id::LSP_CODE_ACTION@) == 83);
        } else if i == 84 {
            assert(t[84].0 == crate::command::id::COMMAND_PALETTE_OPEN@);
            assert(crate::command::id::COMMAND_PALETTE_OPEN@[0] != crate::command::id::EDITOR_MOVE_TAB_LEFT@[0]);
            assert(crate::command::id::COMMAND_PALETTE_OPEN@[0] != crate::command::id::EDITOR_NAVIGATE_BACK@[0]);
            assert(crate::command::id::COMMAND_PALETTE_OPEN@[0] != crate::command::id::SEARCH_INCLUDE_GLOBS@[0]);
            assert(crate::command::id::COMMAND_PALETTE_OPEN@[0] != crate::command::id::SEARCH_EXCLUDE_GLOBS@[0]);
            assert(crate::command::id::COMMAND_PALETTE_OPEN@[0] != crate::command::id::TERMINAL_NEW_SESSION@[0]);
            assert(crate::command::id::COMMAND_PALETTE_OPEN@[0] != crate::command::id::DIAGNOSTICS_PREVIOUS@[0]);
            assert(built_in_rank(crate::command::id::COMMAND_PALETTE_OPEN@) == 84);
        } else if i == 85 {
            assert(t[85].0 == crate::command::id::APP_QUIT@);
            assert(crate::command::id::APP_QUIT@[0] != crate::command::id::FILE_NEW@[0]);
            assert(crate::command::id::APP_QUIT@[0] != crate::command::id::GIT_PULL@[0]);
            assert(crate::command::id::APP_QUIT@[0] != crate::command::id::GIT_PUSH@[0]);
            assert(built_in_rank(crate::command::id::APP_QUIT@) == 85);
        }
    }
}

/// Every command the default key map binds is a built-in command.
#[verifier::spinoff_prover]
#[verifier::rlimit(100)]
pub proof fn lemma_default_bindings_registered()
    ensures
        forall|k: int|
            0 <= k < crate::config::keymap::default_bindings().len() ==> first_with_id(
                built_in_table(),
                (#[trigger] crate::config::keymap::default_bindings()[k]).1,
            ) is Some,
{
    let t = built_in_table();
    let d = crate::config::keymap::default_bindings();
    assert(t.len() == 86);
    assert(d.len() == 18);
    assert forall|k: int| 0 <= k < d.len() implies first_with_id(t, (#[trigger] d[k]).1) is Some by {
        if k == 0 { assert(t[5].0 == d[0].1); lemma_first_with_id_present(t, d[0].1, 5);
        } else if k == 1 { assert(t[6].0 == d[1].1); lemma_first_with_id_present(t, d[1].1, 6);
        } else if k == 2 { assert(t[8].0 == d[2].1); lemma_first_with_id_present(t, d[2].1, 8);
        } else if k == 3 { assert(t[12].0 == d[3].1); lemma_first_with_id_present(t, d[3].1, 12);
        } else if k == 4 { assert(t[13].0 == d[4].1); lemma_first_with_id_present(t, d[4].1, 13);
        } else if k == 5 { assert(t[14].0 == d[5].1); lemma_first_with_id_present(t, d[5].1, 14);
        } else if k == 6 { assert(t[15].0 == d[6].1); lemma_first_with_id_present(t, d[6].1, 15);
        } else if k == 7 { assert(t[19].0 == d[7].1); lemma_first_with_id_present(t, d[7].1, 19);
        } else if k == 8 { assert(t[20].0 == d[8].1); lemma_first_with_id_present(t, d[8].1, 20);
        } else if k == 9 { assert(t[34].0 == d[9].1); lemma_first_with_id_present(t, d[9].1, 34);
        } else if k == 10 { assert(t[84].0 == d[10].1); lemma_first_with_id_present(t, d[10].1, 84);
        } else if k == 11 { assert(t[40].0 == d[11].1); lemma_first_with_id_present(t, d[11].1, 40);
        } else if k == 12 { assert(t[41].0 == d[12].1); lemma_first_with_id_present(t, d[12].1, 41);
        } else if k == 13 { assert(t[64].0 == d[13].1); lemma_first_with_id_present(t, d[13].1, 64);
        } else if k == 14 { assert(t[42].0 == d[14].1); lemma_first_with_id_present(t, d[14].1, 42);
        } else if k == 15 { assert(t[43].0 == d[15].1); lemma_first_with_id_present(t, d[15].1, 43);
        } else if k == 16 { assert(t[44].0 == d[16].1); lemma_first_with_id_present(t, d[16].1, 44);
        } else if k == 17 { assert(t[85].0 == d[17].1); lemma_first_with_id_present(t, d[17].1, 85);
        }
    }
}

} // verus!
