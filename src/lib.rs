//! A diff filter that classifies the lines of a version-control diff and
//! renders hunk content with syntax colors on an added/removed tint.
pub mod text;
pub mod classify;
pub mod paint;
pub mod compose;
pub mod highlight;
pub mod laws;
pub mod session;
