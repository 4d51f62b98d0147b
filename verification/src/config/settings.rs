//! Settings: their defaults, and the corrections applied to loaded values.

use vstd::prelude::*;

use std::collections::HashMap;

use crate::chars::{chars_to_string, lit};

verus! {

#[derive(Debug, Clone, Copy, PartialEq, Eq, Structural)]
pub enum Locale {
    Auto,
    En,
    Ja,
}

impl Default for Locale {
    fn default() -> (l: Self)
        ensures
            l == Locale::Auto,
    {
        Locale::Auto
    }
}

#[derive(Debug, Clone, Copy, PartialEq, Eq, Structural)]
pub enum IconMode {
    Ascii,
    Unicode,
    NerdFont,
}

impl Default for IconMode {
    fn default() -> (m: Self)
        ensures
            m == IconMode::Unicode,
    {
        IconMode::Unicode
    }
}

#[derive(Debug, Clone)]
pub struct EditorSettings {
    pub tab_width: u8,
    pub insert_spaces: bool,
    pub line_numbers: bool,
    pub active_line_highlight: bool,
    pub mouse: bool,
    pub auto_reload_unmodified: bool,
    pub large_file_threshold_mb: u64,
    pub word_wrap: bool,
}

impl Default for EditorSettings {
    fn default() -> (s: Self)
        ensures
            s.tab_width == 4,
            s.insert_spaces,
            s.line_numbers,
            s.active_line_highlight,
            s.mouse,
            s.auto_reload_unmodified,
            s.large_file_threshold_mb == 10,
            !s.word_wrap,
    {
        EditorSettings {
            tab_width: 4,
            insert_spaces: true,
            line_numbers: true,
            active_line_highlight: true,
            mouse: true,
            auto_reload_unmodified: true,
            large_file_threshold_mb: 10,
            word_wrap: false,
        }
    }
}

#[derive(Debug, Clone)]
pub struct WorkspaceSettings {
    pub show_hidden: bool,
    pub follow_symlinks: bool,
    pub respect_gitignore: bool,
}

impl Default for WorkspaceSettings {
    fn default() -> (s: Self)
        ensures
            !s.show_hidden,
            !s.follow_symlinks,
            s.respect_gitignore,
    {
        WorkspaceSettings { show_hidden: false, follow_symlinks: false, respect_gitignore: true }
    }
}

#[derive(Debug, Clone)]
pub struct GitSettings {
    pub enabled: bool,
    pub auto_refresh: bool,
    pub confirm_destructive_actions: bool,
}

impl Default for GitSettings {
    fn default() -> (s: Self)
        ensures
            s.enabled,
            s.auto_refresh,
            s.confirm_destructive_actions,
    {
        GitSettings { enabled: true, auto_refresh: true, confirm_destructive_actions: true }
    }
}

#[derive(Debug, Clone)]
pub struct TerminalSettings {
    pub shell: String,
    pub scrollback_lines: usize,
}

impl Default for TerminalSettings {
    fn default() -> (s: Self)
        ensures
            s.shell@ == Seq::<char>::empty(),
            s.scrollback_lines == 10_000,
    {
        TerminalSettings { shell: String::new(), scrollback_lines: 10_000 }
    }
}

#[derive(Debug, Clone)]
pub struct DiagnosticsSettings {
    pub enabled: bool,
}

impl Default for DiagnosticsSettings {
    fn default() -> (s: Self)
        ensures
            s.enabled,
    {
        DiagnosticsSettings { enabled: true }
    }
}

#[derive(Debug, Clone)]
pub struct LspSettings {
    pub enabled: bool,
}

impl Default for LspSettings {
    fn default() -> (s: Self)
        ensures
            s.enabled,
    {
        LspSettings { enabled: true }
    }
}

#[derive(Debug, Clone)]
pub struct UiSettings {
    pub theme: String,
    pub locale: Locale,
    pub icon_mode: IconMode,
    pub sidebar_width: u16,
    pub bottom_panel_height: u16,
    pub high_contrast: bool,
    pub reduced_decoration: bool,
}

impl Default for UiSettings {
    fn default() -> (s: Self)
        ensures
            s.theme@ == "mica-dark"@,
            s.locale == Locale::Auto,
            s.icon_mode == IconMode::Unicode,
            s.sidebar_width == 30,
            s.bottom_panel_height == 12,
            !s.high_contrast,
            !s.reduced_decoration,
    {
        UiSettings {
            theme: chars_to_string(lit("mica-dark").as_slice()),
            locale: Locale::Auto,
            icon_mode: IconMode::Unicode,
            sidebar_width: 30,
            bottom_panel_height: 12,
            high_contrast: false,
            reduced_decoration: false,
        }
    }
}

/// All settings; key bindings map chord texts to command identifiers.
#[derive(Debug)]
pub struct Settings {
    pub editor: EditorSettings,
    pub workspace: WorkspaceSettings,
    pub git: GitSettings,
    pub terminal: TerminalSettings,
    pub diagnostics: DiagnosticsSettings,
    pub lsp: LspSettings,
    pub ui: UiSettings,
    pub keymap: HashMap<String, String>,
}

impl Default for Settings {
    fn default() -> (s: Self)
        ensures
            s.editor.tab_width == 4,
            s.ui.sidebar_width == 30,
            s.ui.bottom_panel_height == 12,
            s.terminal.scrollback_lines == 10_000,
    {
        Settings {
            editor: EditorSettings::default(),
            workspace: WorkspaceSettings::default(),
            git: GitSettings::default(),
            terminal: TerminalSettings::default(),
            diagnostics: DiagnosticsSettings::default(),
            lsp: LspSettings::default(),
            ui: UiSettings::default(),
            keymap: HashMap::new(),
        }
    }
}

/// Settings as loaded: the merged settings, warnings about what could not
/// be used, and the files that were read.
#[derive(Debug)]
pub struct ConfigLoad {
    pub settings: Settings,
    pub warnings: Vec<String>,
    pub paths: Vec<String>,
}

pub open spec fn clamp_u16(v: u16, lo: u16, hi: u16) -> u16 {
    if v < lo { lo } else if v > hi { hi } else { v }
}

pub open spec fn tab_width_warning() -> Seq<char> {
    "editor.tab_width must be between 1 and 16; using 4"@
}

/// Corrects loaded settings: a tab width outside 1..=16 becomes 4 with a
/// warning; the sidebar width is kept within 16..=80 and the bottom panel
/// height within 4..=40.
pub fn validate(settings: &mut Settings, warnings: &mut Vec<String>)
    ensures
        final(settings).editor.tab_width == if 1 <= old(settings).editor.tab_width <= 16 {
            old(settings).editor.tab_width
        } else {
            4
        },
        final(settings).ui.sidebar_width == clamp_u16(old(settings).ui.sidebar_width, 16, 80),
        final(settings).ui.bottom_panel_height == clamp_u16(old(settings).ui.bottom_panel_height, 4, 40),
        final(warnings)@.map_values(|w: String| w@) == if 1 <= old(settings).editor.tab_width <= 16 {
            old(warnings)@.map_values(|w: String| w@)
        } else {
            old(warnings)@.map_values(|w: String| w@).push(tab_width_warning())
        },
        final(settings).editor.insert_spaces == old(settings).editor.insert_spaces,
        final(settings).ui.theme == old(settings).ui.theme,
        final(settings).terminal.scrollback_lines == old(settings).terminal.scrollback_lines,
{
    if settings.editor.tab_width == 0 || settings.editor.tab_width > 16 {
        let w = chars_to_string(lit("editor.tab_width must be between 1 and 16; using 4").as_slice());
        let ghost before = warnings@;
        warnings.push(w);
        assert(warnings@.map_values(|w: String| w@) =~= before.map_values(|w: String| w@).push(tab_width_warning()));
        settings.editor.tab_width = 4;
    }
    let s = settings.ui.sidebar_width;
    settings.ui.sidebar_width = if s < 16 { 16 } else if s > 80 { 80 } else { s };
    let h = settings.ui.bottom_panel_height;
    settings.ui.bottom_panel_height = if h < 4 { 4 } else if h > 40 { 40 } else { h };
}

} // verus!
