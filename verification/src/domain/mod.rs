//! Domain objects: agent runs and permissions, configuration, projects,
//! sessions, plugins and skills.
pub mod agent;
pub mod config;
pub mod error;
pub mod plugin;
pub mod project;
pub mod session;
pub mod shared;
pub mod skill;

pub use error::DomainError;
