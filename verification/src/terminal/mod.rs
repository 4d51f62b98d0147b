//! The integrated terminal: screen state and key encoding.

pub mod screen;
pub mod input;
pub mod session;
pub mod links;
