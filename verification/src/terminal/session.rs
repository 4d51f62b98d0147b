//! What goes between the editor and a terminal session, and the file
//! locations found in terminal output.

use vstd::prelude::*;

use std::ops::Range;

verus! {

/// How to start a terminal: shell and working directory as paths in text,
/// and the size.
#[derive(Debug, Clone)]
pub struct TerminalConfig {
    pub shell: String,
    pub cwd: String,
    pub rows: u16,
    pub cols: u16,
}

/// What a terminal session reports.
#[derive(Debug, Clone, PartialEq, Eq)]
pub enum TerminalEvent {
    Output(Vec<u8>),
    Exited { code: u32, success: bool },
    Error(String),
}

/// What the editor asks of a terminal session.
#[derive(Debug)]
pub enum TerminalCommand {
    Input(Vec<u8>),
    Resize { rows: u16, cols: u16 },
    Shutdown,
}

/// Why a terminal could not start.
#[derive(Debug)]
pub enum TerminalSpawnError {
    Open(String),
    Reader(String),
    Writer(String),
    Shell { shell: String, detail: String },
}

/// A `path:line[:column]` location in terminal output, with the display
/// columns it spans.
#[derive(Debug, Clone, PartialEq, Eq)]
pub struct TerminalFileReference {
    pub path: String,
    pub line: usize,
    pub column: usize,
    pub display_columns: Range<usize>,
}

} // verus!
