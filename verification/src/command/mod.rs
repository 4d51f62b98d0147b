//! Commands: the registry of named commands and the payloads that key and
//! mouse input dispatch.

pub mod id;
pub mod registry;

use vstd::prelude::*;

verus! {

/// A UI-independent command payload. A file to open is a path as text.
#[derive(Debug, Clone)]
pub enum Command {
    Invoke(String),
    InsertText(String),
    InsertNewline,
    DeleteBackward,
    MoveLeft { extend: bool },
    MoveRight { extend: bool },
    MoveUp { extend: bool },
    MoveDown { extend: bool },
    OpenFile(String),
    SelectTree(usize),
    ToggleTree(usize),
    SelectTab(usize),
    CloseTab(usize),
    SetCursor { char_offset: usize, extend: bool },
    SearchNext,
    SearchPrevious,
    RecoveryRecover,
    RecoveryDiscard,
    RecoveryLater,
    PaletteInput(char),
    PaletteBackspace,
    PaletteAccept,
    Cancel,
    Resize(u16, u16),
}

} // verus!
