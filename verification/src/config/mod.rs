//! Settings, their defaults and validation, the configuration template,
//! and key chords.

pub mod keymap;
pub mod merge;
pub mod settings;
pub mod template;
pub mod watcher;
