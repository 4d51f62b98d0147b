//! Diagnostics from the compiler, language servers and linters, merged into
//! one list per workspace.

pub mod model;
pub mod store;
pub mod cargo;
