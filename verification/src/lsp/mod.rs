//! Language-server plumbing: UTF-16 positions, file URIs and snippets.

pub mod framing;
pub mod json;
pub mod position;
pub mod snippet;
pub mod uri;
pub mod response;
pub mod reply;
pub mod client;
pub mod session;
