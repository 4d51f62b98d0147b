//! Text buffers: selections, edit history and the rope-backed text.

pub mod rope;
pub mod history;
pub mod selection;
pub mod persistence;
pub mod text_buffer;
pub mod lines;
