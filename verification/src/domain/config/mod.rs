//! Configuration: models, MCP servers and permission rules.
pub mod mcp;
pub mod model;
pub mod perm_rule;

pub use mcp::{McpServer, McpStatus, McpTransport};
pub use model::{ModelConfig, ModelStatus};
pub use perm_rule::{PermAction, PermissionRule};
