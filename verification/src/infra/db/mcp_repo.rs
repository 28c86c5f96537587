//! Rows of the MCP server table.
use vstd::prelude::*;

use crate::domain::config::mcp::parse_mcp_status;
use crate::domain::config::{McpServer, McpStatus, McpTransport};
use crate::infra::db::{opt_stored, stored, opt_time_reads, parse_time, parse_time_opt, times_read};

verus! {

/// An MCP server row.
#[derive(Debug)]
pub struct McpServerDO {
    /// Id.
    pub id: i64,
    /// Name (unique).
    pub name: String,
    /// Transport text (`stdio` / `sse`).
    pub transport: String,
    /// Start command, or the URL of a remote server.
    pub command: String,
    /// Request headers (a JSON object text).
    pub headers: String,
    /// Status text.
    pub status: String,
    /// Tools found at the handshake.
    pub tools: i64,
    /// Last failure.
    pub last_error: Option<String>,
    /// Plugin the server came with.
    pub plugin_origin: Option<String>,
    /// Created by.
    pub created_by: String,
    /// Updated by.
    pub updated_by: String,
    /// Creation time.
    pub created_at: String,
    /// Update time.
    pub updated_at: String,
    /// Soft-deletion time.
    pub deleted_at: Option<String>,
}

impl McpServerDO {
    /// The server a row holds, given its parsed times.
    pub fn with_times(
        self,
        created_at: chrono::NaiveDateTime,
        updated_at: chrono::NaiveDateTime,
        deleted_at: Option<chrono::NaiveDateTime>,
    ) -> (m: McpServer)
        ensures
            m == (McpServer {
                id: self.id,
                name: self.name,
                transport: if self.transport@ == "sse"@ { McpTransport::Sse } else { McpTransport::Stdio },
                command: self.command,
                headers: self.headers,
                status: parse_mcp_status(self.status@),
                tools: self.tools,
                last_error: self.last_error,
                plugin_origin: self.plugin_origin,
                created_at,
                updated_at,
                deleted_at,
            }),
    {
        let transport = McpTransport::parse(self.transport.as_str());
        let status = McpStatus::parse(self.status.as_str());
        McpServer {
            id: self.id,
            name: self.name,
            transport,
            command: self.command,
            headers: self.headers,
            status,
            tools: self.tools,
            last_error: self.last_error,
            plugin_origin: self.plugin_origin,
            created_at,
            updated_at,
            deleted_at,
        }
    }


    /// The server a row holds; fails when a time does not read.
    pub fn into_domain(self) -> (r: Result<McpServer, String>)
        ensures
            r is Ok <==> (times_read(self.created_at@, self.updated_at@) && opt_time_reads(self.deleted_at)),
            r matches Ok(m) ==> {
                &&& Some(m.created_at) == stored(self.created_at@)
                &&& Some(m.updated_at) == stored(self.updated_at@)
                &&& m.deleted_at == opt_stored(self.deleted_at)
                &&& m.id == self.id
                &&& m.name == self.name
                &&& m.transport == (if self.transport@ == "sse"@ { McpTransport::Sse } else { McpTransport::Stdio })
                &&& m.command == self.command
                &&& m.headers == self.headers
                &&& m.status == parse_mcp_status(self.status@)
                &&& m.tools == self.tools
                &&& m.last_error == self.last_error
                &&& m.plugin_origin == self.plugin_origin
                &&& (m.deleted_at is Some <==> self.deleted_at is Some)
            },
    {
        let created_at = match parse_time(self.created_at.as_str()) {
            Ok(t) => t,
            Err(e) => return Err(e),
        };
        let updated_at = match parse_time(self.updated_at.as_str()) {
            Ok(t) => t,
            Err(e) => return Err(e),
        };
        let deleted_at = match parse_time_opt(&self.deleted_at) {
            Ok(t) => t,
            Err(e) => return Err(e),
        };
        Ok(self.with_times(created_at, updated_at, deleted_at))
    }
}

} // verus!
