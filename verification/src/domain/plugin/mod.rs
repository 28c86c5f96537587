//! Plugins.
pub mod plugin;

pub use plugin::{Plugin, PluginManifest, PluginStatus, SidecarInfo, SidecarStatus};
