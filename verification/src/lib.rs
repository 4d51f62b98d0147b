//! Mica: the verified core of a terminal-native editor.
//!
//! Text is modelled as sequences of Unicode scalar values (`Seq<char>`).
//! Every public operation states its result over that model.

pub mod chars;
pub mod paths;
pub mod pattern;
pub mod unicode;
pub mod app;
pub mod buffer;
pub mod git;
pub mod lsp;
pub mod diagnostics;
pub mod search;
pub mod editor;
pub mod command;
pub mod terminal;
pub mod cli;
pub mod session;
pub mod config;
pub mod navigation;
pub mod panels;
