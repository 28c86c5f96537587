//! Logic behind the adapters: MCP, the model protocol, skill files, the
//! plugin market and process lookup.
pub mod browser;
pub mod browser_drive;
pub mod computer;
pub mod db;
pub mod fs;
pub mod git;
pub mod llm;
pub mod mcp;
pub mod mcp_registry;
pub mod plugin;
pub mod process;
