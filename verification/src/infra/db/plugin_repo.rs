//! Rows of the plugin table.
use vstd::prelude::*;

use crate::domain::plugin::plugin::parse_plugin_status;
use crate::domain::plugin::{Plugin, PluginStatus};
use crate::infra::db::{stored, parse_time, times_read};

verus! {

/// A plugin row.
#[derive(Debug)]
pub struct PluginDO {
    /// Id.
    pub id: i64,
    /// Name (unique).
    pub name: String,
    /// Version.
    pub version: String,
    /// Author.
    pub author: String,
    /// Description.
    pub description: String,
    /// Status text.
    pub status: String,
    /// Skills carried.
    pub skill_count: i64,
    /// MCP servers carried.
    pub mcp_count: i64,
    /// Permission rules carried.
    pub rule_count: i64,
    /// Created by.
    pub created_by: String,
    /// Updated by.
    pub updated_by: String,
    /// Installation time.
    pub created_at: String,
    /// Update time.
    pub updated_at: String,
    /// Soft-deletion time.
    pub deleted_at: Option<String>,
}

impl PluginDO {
    /// The plugin a row holds, given its parsed times.
    pub fn with_times(self, created_at: chrono::NaiveDateTime, updated_at: chrono::NaiveDateTime) -> (p: Plugin)
        ensures
            p == (Plugin {
                id: self.id,
                name: self.name,
                version: self.version,
                author: self.author,
                description: self.description,
                status: parse_plugin_status(self.status@),
                skill_count: self.skill_count,
                mcp_count: self.mcp_count,
                rule_count: self.rule_count,
                created_at,
                updated_at,
            }),
    {
        let status = PluginStatus::parse(self.status.as_str());
        Plugin {
            id: self.id,
            name: self.name,
            version: self.version,
            author: self.author,
            description: self.description,
            status,
            skill_count: self.skill_count,
            mcp_count: self.mcp_count,
            rule_count: self.rule_count,
            created_at,
            updated_at,
        }
    }


    /// The plugin a row holds; fails when a time does not read.
    pub fn into_domain(self) -> (r: Result<Plugin, String>)
        ensures
            r is Ok <==> times_read(self.created_at@, self.updated_at@),
            r matches Ok(p) ==> {
                &&& Some(p.created_at) == stored(self.created_at@)
                &&& Some(p.updated_at) == stored(self.updated_at@)
                &&& p.id == self.id
                &&& p.name == self.name
                &&& p.version == self.version
                &&& p.author == self.author
                &&& p.description == self.description
                &&& p.status == parse_plugin_status(self.status@)
                &&& p.skill_count == self.skill_count
                &&& p.mcp_count == self.mcp_count
                &&& p.rule_count == self.rule_count
            },
    {
        let created_at = match parse_time(self.created_at.as_str()) {
            Ok(t) => t,
            Err(e) => return Err(e),
        };
        let updated_at = match parse_time(self.updated_at.as_str()) {
            Ok(t) => t,
            Err(e) => return Err(e),
        };
        Ok(self.with_times(created_at, updated_at))
    }
}

} // verus!
