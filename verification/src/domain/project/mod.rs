//! Projects and project templates.
pub mod project;

pub use project::{Project, ProjectTemplate};
