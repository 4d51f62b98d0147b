//! The commented configuration template written for a new workspace.

use vstd::prelude::*;

use crate::chars::{chars_to_string, lit, push_all, str_to_chars};

verus! {

/// The template: every setting with its default value, commented.
pub const TEMPLATE: &'static str = r#"# Mica workspace configuration.
# User settings live at ~/.config/mica/config.toml.

[editor]
# Width of a tab in terminal columns (1..16).
tab_width = 4
insert_spaces = true
line_numbers = true
active_line_highlight = true
mouse = true
auto_reload_unmodified = true
large_file_threshold_mb = 10
word_wrap = false
trim_trailing_whitespace = false
insert_final_newline = false
auto_pairs = true
ambiguous_width_wide = false
format_on_save = false

[workspace]
show_hidden = false
follow_symlinks = false
respect_gitignore = true

[git]
enabled = true
auto_refresh = true
confirm_destructive_actions = true

[terminal]
# Empty uses $SHELL, then /bin/bash as fallback.
shell = ""
scrollback_lines = 10000

[diagnostics]
enabled = false
inline_messages = false
check_on_save = false

[lsp]
enabled = false

[ui]
# Built-ins: mica-dark, mica-light. A theme file name is also accepted.
theme = "mica-dark"
locale = "auto"
icon_mode = "unicode"
sidebar_width = 30
bottom_panel_height = 12
high_contrast = false
reduced_decoration = false

[keymap]
# Key chords map to registered command IDs. Examples:
# "ctrl-p" = "workspace.open_file"
# "f1" = "help.keybindings"
"#;

/// The configuration template.
pub fn config_template() -> (t: &'static str)
    ensures
        t@ == TEMPLATE@,
{
    TEMPLATE
}

/// Why the template could not be prepared.
#[derive(Debug)]
pub enum ConfigTemplateError {
    NotRegular(String),
    MissingParent(String),
    Io { path: String, message: String },
}

impl ConfigTemplateError {
    /// The error's message.
    pub fn message(&self) -> (r: String)
        ensures
            r@ == match self {
                ConfigTemplateError::NotRegular(p) => "configuration path is not a regular file: "@ + p@,
                ConfigTemplateError::MissingParent(p) => "cannot determine configuration directory for "@ + p@,
                ConfigTemplateError::Io { path, message } => "failed to prepare configuration at "@ + path@ + ": "@ + message@,
            },
    {
        match self {
            ConfigTemplateError::NotRegular(p) => {
                let mut out = lit("configuration path is not a regular file: ");
                push_all(&mut out, &str_to_chars(p.as_str()));
                chars_to_string(out.as_slice())
            },
            ConfigTemplateError::MissingParent(p) => {
                let mut out = lit("cannot determine configuration directory for ");
                push_all(&mut out, &str_to_chars(p.as_str()));
                chars_to_string(out.as_slice())
            },
            ConfigTemplateError::Io { path, message } => {
                let mut out = lit("failed to prepare configuration at ");
                push_all(&mut out, &str_to_chars(path.as_str()));
                push_all(&mut out, &lit(": "));
                push_all(&mut out, &str_to_chars(message.as_str()));
                chars_to_string(out.as_slice())
            },
        }
    }
}

} // verus!
