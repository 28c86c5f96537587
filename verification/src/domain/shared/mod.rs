//! Shared value objects.
pub mod project_path;
pub mod words;

pub use project_path::ProjectPath;
