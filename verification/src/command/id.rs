//! Command identifiers: `area.action`.

use vstd::prelude::*;

verus! {

pub const FILE_NEW: &'static str = "file.new";
pub const FILE_NEW_DIRECTORY: &'static str = "file.new_directory";
pub const FILE_RENAME: &'static str = "file.rename";
pub const FILE_MOVE: &'static str = "file.move";
pub const FILE_DELETE: &'static str = "file.delete";
pub const EDITOR_SAVE: &'static str = "editor.save";
pub const EDITOR_SAVE_AS: &'static str = "editor.save_as";
pub const EDITOR_SAVE_ALL: &'static str = "editor.save_all";
pub const EDITOR_CLOSE: &'static str = "editor.close";
pub const EDITOR_TOGGLE_PIN: &'static str = "editor.toggle_pin";
pub const EDITOR_MOVE_TAB_LEFT: &'static str = "editor.move_tab_left";
pub const EDITOR_MOVE_TAB_RIGHT: &'static str = "editor.move_tab_right";
pub const EDITOR_COPY: &'static str = "editor.copy";
pub const EDITOR_CUT: &'static str = "editor.cut";
pub const EDITOR_PASTE: &'static str = "editor.paste";
pub const EDITOR_FIND: &'static str = "editor.find";
pub const EDITOR_REPLACE: &'static str = "editor.replace";
pub const EDITOR_REPLACE_NEXT: &'static str = "editor.replace_next";
pub const EDITOR_REPLACE_ALL: &'static str = "editor.replace_all";
pub const EDITOR_UNDO: &'static str = "editor.undo";
pub const EDITOR_REDO: &'static str = "editor.redo";
pub const EDITOR_INDENT: &'static str = "editor.indent";
pub const EDITOR_OUTDENT: &'static str = "editor.outdent";
pub const EDITOR_TOGGLE_LINE_COMMENT: &'static str = "editor.toggle_line_comment";
pub const EDITOR_TOGGLE_LINE_NUMBERS: &'static str = "editor.toggle_line_numbers";
pub const EDITOR_TOGGLE_WORD_WRAP: &'static str = "editor.toggle_word_wrap";
pub const EDITOR_SELECT_ALL: &'static str = "editor.select_all";
pub const EDITOR_DUPLICATE_LINE: &'static str = "editor.duplicate_line";
pub const EDITOR_MOVE_LINE_UP: &'static str = "editor.move_line_up";
pub const EDITOR_MOVE_LINE_DOWN: &'static str = "editor.move_line_down";
pub const EDITOR_DELETE_LINE: &'static str = "editor.delete_line";
pub const EDITOR_GOTO_LINE: &'static str = "editor.goto_line";
pub const EDITOR_NAVIGATE_BACK: &'static str = "editor.navigate_back";
pub const EDITOR_NAVIGATE_FORWARD: &'static str = "editor.navigate_forward";
pub const WORKSPACE_OPEN_FILE: &'static str = "workspace.open_file";
pub const WORKSPACE_REFRESH: &'static str = "workspace.refresh";
pub const CONFIG_RELOAD: &'static str = "config.reload";
pub const CONFIG_OPEN: &'static str = "config.open";
pub const HELP_KEYBINDINGS: &'static str = "help.keybindings";
pub const NOTIFICATIONS_HISTORY: &'static str = "notifications.history";
pub const VIEW_TOGGLE_SIDEBAR: &'static str = "view.toggle_sidebar";
pub const VIEW_TOGGLE_BOTTOM_PANEL: &'static str = "view.toggle_bottom_panel";
pub const VIEW_EXPLORER: &'static str = "view.explorer";
pub const VIEW_SOURCE_CONTROL: &'static str = "view.source_control";
pub const VIEW_SEARCH: &'static str = "view.search";
pub const GIT_REFRESH: &'static str = "git.refresh";
pub const GIT_STAGE: &'static str = "git.stage";
pub const GIT_UNSTAGE: &'static str = "git.unstage";
pub const GIT_RESTORE: &'static str = "git.restore";
pub const GIT_COMMIT: &'static str = "git.commit";
pub const GIT_BRANCH_SWITCH: &'static str = "git.branch_switch";
pub const GIT_BRANCH_CREATE: &'static str = "git.branch_create";
pub const GIT_FETCH: &'static str = "git.fetch";
pub const GIT_PULL: &'static str = "git.pull";
pub const GIT_PUSH: &'static str = "git.push";
pub const GIT_DIFF_PREVIOUS: &'static str = "git.diff_previous";
pub const GIT_DIFF_NEXT: &'static str = "git.diff_next";
pub const EDITOR_SPLIT: &'static str = "editor.split";
pub const EDITOR_FOCUS_NEXT_GROUP: &'static str = "editor.focus_next_group";
pub const EDITOR_CLOSE_SPLIT: &'static str = "editor.close_split";
pub const EDITOR_SCROLL_UP: &'static str = "editor.scroll_up";
pub const EDITOR_SCROLL_DOWN: &'static str = "editor.scroll_down";
pub const SEARCH_INCLUDE_GLOBS: &'static str = "search.include_globs";
pub const SEARCH_EXCLUDE_GLOBS: &'static str = "search.exclude_globs";
pub const TERMINAL_TOGGLE: &'static str = "terminal.toggle";
pub const TERMINAL_NEW_SESSION: &'static str = "terminal.new_session";
pub const TERMINAL_OPEN_REFERENCE: &'static str = "terminal.open_reference";
pub const TERMINAL_SEARCH: &'static str = "terminal.search";
pub const VIEW_OUTPUT: &'static str = "view.output";
pub const VIEW_TERMINAL: &'static str = "view.terminal";
pub const DIAGNOSTICS_OPEN_PROBLEMS: &'static str = "diagnostics.open_problems";
pub const DIAGNOSTICS_REFRESH: &'static str = "diagnostics.refresh";
pub const DIAGNOSTICS_NEXT: &'static str = "diagnostics.next";
pub const DIAGNOSTICS_PREVIOUS: &'static str = "diagnostics.previous";
pub const DIAGNOSTICS_FILTER_SEVERITY: &'static str = "diagnostics.filter_severity";
pub const DIAGNOSTICS_FILTER_SOURCE: &'static str = "diagnostics.filter_source";
pub const DIAGNOSTICS_FILTER_CURRENT_FILE: &'static str = "diagnostics.filter_current_file";
pub const LSP_HOVER: &'static str = "lsp.hover";
pub const LSP_DEFINITION: &'static str = "lsp.definition";
pub const LSP_COMPLETION: &'static str = "lsp.completion";
pub const LSP_REFERENCES: &'static str = "lsp.references";
pub const LSP_FORMAT: &'static str = "lsp.format";
pub const LSP_SIGNATURE_HELP: &'static str = "lsp.signature_help";
pub const LSP_CODE_ACTION: &'static str = "lsp.code_action";
pub const COMMAND_PALETTE_OPEN: &'static str = "command_palette.open";
pub const APP_QUIT: &'static str = "app.quit";

} // verus!
