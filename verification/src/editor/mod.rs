//! Editor geometry: soft wrapping, view state and syntax languages.

pub mod movement;
pub mod syntax;
pub mod view;
pub mod wrap;
