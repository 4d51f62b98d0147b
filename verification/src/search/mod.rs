//! Searching an open buffer, and the records of file and workspace search.

pub mod buffer;
pub mod results;
pub mod files;
pub mod workspace;
