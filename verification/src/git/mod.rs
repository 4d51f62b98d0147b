//! Git status, diffs and branches: parsers for git's machine-readable output.

pub mod status;
pub mod diff;
pub mod branch;
pub mod backend;
