//! MCP server configuration and its connection state machine
//! (disabled → connecting → connected / error). For `stdio` the command is a
//! launch command line; for `sse` it is the service URL.
use vstd::prelude::*;
use chrono::NaiveDateTime;

use crate::domain::DomainError;
use crate::support::json::{json_parse, json_text, json_to_string, parse_json, Json};
use crate::text::{chars_of, eq_str, has_prefix, is_blank, is_blank_vec, owned, starts_with_str};

verus! {

/// Transport of an MCP server.
#[derive(Debug, Clone, Copy, PartialEq, Eq, Structural)]
pub enum McpTransport {
    /// Local child process.
    Stdio,
    /// Remote SSE service.
    Sse,
}

/// Whether `s` is a remote service address.
pub open spec fn is_remote(s: Seq<char>) -> bool {
    has_prefix(s, "http://"@) || has_prefix(s, "https://"@)
}

impl McpTransport {
    /// Storage string.
    pub fn as_str(&self) -> (s: &'static str)
        ensures
            s@ == (match *self {
                McpTransport::Stdio => "stdio"@,
                McpTransport::Sse => "sse"@,
            }),
    {
        match self {
            McpTransport::Stdio => "stdio",
            McpTransport::Sse => "sse",
        }
    }

    /// Parses a storage string; anything but `sse` is `Stdio` (older rows).
    pub fn parse(s: &str) -> (r: McpTransport)
        ensures
            r == (if s@ == "sse"@ {
                McpTransport::Sse
            } else {
                McpTransport::Stdio
            }),
    {
        if eq_str(&chars_of(s), "sse") {
            McpTransport::Sse
        } else {
            McpTransport::Stdio
        }
    }

    /// Whether `s` is a remote service address (`http://` or `https://`).
    pub fn is_remote_url(s: &str) -> (b: bool)
        ensures
            b == is_remote(s@),
    {
        let v = chars_of(s);
        starts_with_str(&v, "http://") || starts_with_str(&v, "https://")
    }
}

/// A header value: the text of a string, the JSON text of anything else.
pub open spec fn header_value(v: Json) -> Seq<char> {
    match v {
        Json::Str(s) => s@,
        _ => json_text(v),
    }
}

/// The headers a JSON object text holds (`None` unless it is an object).
pub open spec fn headers_of(text: Seq<char>) -> Option<Seq<(Seq<char>, Seq<char>)>> {
    match json_parse(text) {
        Some(Json::Object(m)) => Some(
            m@.map_values(|p: (String, Json)| (p.0@, header_value(p.1))),
        ),
        _ => None,
    }
}

/// The views of header pairs.
pub open spec fn pair_views(v: Seq<(String, String)>) -> Seq<(Seq<char>, Seq<char>)> {
    v.map_values(|p: (String, String)| (p.0@, p.1@))
}

/// Reads the headers of a JSON object text (see [`headers_of`]).
pub fn parse_headers_json(text: &str) -> (r: Option<Vec<(String, String)>>)
    ensures
        match r {
            Some(v) => headers_of(text@) == Some(pair_views(v@)),
            None => headers_of(text@) is None,
        },
{
    let v = match parse_json(text) {
        Ok(v) => v,
        Err(_) => return None,
    };
    match v {
        Json::Object(m) => {
            let mut out: Vec<(String, String)> = Vec::new();
            for i in 0..m.len()
                invariant
                    pair_views(out@) == m@.take(i as int).map_values(
                        |p: (String, Json)| (p.0@, header_value(p.1)),
                    ),
            {
                let k = owned(m[i].0.as_str());
                let s = match &m[i].1 {
                    Json::Str(s) => owned(s.as_str()),
                    other => json_to_string(other),
                };
                let ghost before = out@;
                out.push((k, s));
                assert(pair_views(out@) =~= pair_views(before).push((k@, s@)));
                assert(m@.take(i + 1).map_values(|p: (String, Json)| (p.0@, header_value(p.1)))
                    =~= m@.take(i as int).map_values(
                    |p: (String, Json)| (p.0@, header_value(p.1)),
                ).push((m@[i as int].0@, header_value(m@[i as int].1))));
            }
            assert(m@.take(m.len() as int) =~= m@);
            Some(out)
        },
        _ => None,
    }
}

/// Connection status of an MCP server.
#[derive(Debug, Clone, Copy, PartialEq, Eq, Structural)]
pub enum McpStatus {
    /// Disabled.
    Disabled,
    /// Connecting.
    Connecting,
    /// Connected.
    Connected,
    /// The last connection failed.
    Error,
}

/// Storage string of a status.
pub open spec fn mcp_status_str(s: McpStatus) -> Seq<char> {
    match s {
        McpStatus::Disabled => "disabled"@,
        McpStatus::Connecting => "connecting"@,
        McpStatus::Connected => "connected"@,
        McpStatus::Error => "error"@,
    }
}

/// The status a storage string names (anything unknown is `Disabled`).
pub open spec fn parse_mcp_status(s: Seq<char>) -> McpStatus {
    if s == "connecting"@ {
        McpStatus::Connecting
    } else if s == "connected"@ {
        McpStatus::Connected
    } else if s == "error"@ {
        McpStatus::Error
    } else {
        McpStatus::Disabled
    }
}

impl McpStatus {
    /// Storage string.
    pub fn as_str(&self) -> (s: &'static str)
        ensures
            s@ == mcp_status_str(*self),
    {
        match self {
            McpStatus::Disabled => "disabled",
            McpStatus::Connecting => "connecting",
            McpStatus::Connected => "connected",
            McpStatus::Error => "error",
        }
    }

    /// Parses a storage string.
    pub fn parse(s: &str) -> (r: McpStatus)
        ensures
            r == parse_mcp_status(s@),
    {
        let v = chars_of(s);
        if eq_str(&v, "connecting") {
            McpStatus::Connecting
        } else if eq_str(&v, "connected") {
            McpStatus::Connected
        } else if eq_str(&v, "error") {
            McpStatus::Error
        } else {
            McpStatus::Disabled
        }
    }
}

/// Parsing a status's storage string gives the status back.
pub proof fn lemma_mcp_status_roundtrip(s: McpStatus)
    ensures
        parse_mcp_status(mcp_status_str(s)) == s,
{
    reveal_strlit("disabled");
    reveal_strlit("connecting");
    reveal_strlit("connected");
    reveal_strlit("error");
    assert("connecting"@.len() != "connected"@.len());
    assert("disabled"@.len() != "connecting"@.len() && "disabled"@.len() != "connected"@.len());
    assert("disabled"@[0] != "error"@[0]);
}

/// An MCP server configuration.
#[derive(Debug, Clone)]
pub struct McpServer {
    /// Primary key (filled after insert).
    pub id: i64,
    /// Unique name.
    pub name: String,
    /// Transport.
    pub transport: McpTransport,
    /// `stdio`: launch command; `sse`: service URL.
    pub command: String,
    /// Request headers of a remote service, as JSON object text.
    pub headers: String,
    /// Connection status.
    pub status: McpStatus,
    /// Number of tools found by the handshake.
    pub tools: i64,
    /// Reason of the last failure.
    pub last_error: Option<String>,
    /// Plugin the server came from (`None` when the user added it).
    pub plugin_origin: Option<String>,
    /// Creation time.
    pub created_at: NaiveDateTime,
    /// Last update time.
    pub updated_at: NaiveDateTime,
    /// Soft-delete time.
    pub deleted_at: Option<NaiveDateTime>,
}

/// Why a server configuration is refused, if it is: blank name, blank
/// command, and for `sse` a command that is not an http(s) URL or headers
/// that are not a JSON object (checked in that order). A `stdio` server's
/// headers are not looked at.
pub open spec fn mcp_invalid(s: McpServer) -> Option<Seq<char>> {
    if is_blank(s.name@) {
        Some("MCP 服务器名不能为空"@)
    } else if is_blank(s.command@) {
        Some("MCP 启动命令不能为空"@)
    } else if s.transport == McpTransport::Sse && !is_remote(s.command@) {
        Some("远程服务地址必须以 http:// 或 https:// 开头"@)
    } else if s.transport == McpTransport::Sse && headers_of(s.headers@) is None {
        Some("请求头必须是合法的 JSON 对象（如 {\"Authorization\":\"Bearer x\"}）"@)
    } else {
        None
    }
}

impl McpServer {
    /// A new `stdio` server (not stored yet).
    pub fn new(name: String, command: String, now: NaiveDateTime) -> (s: McpServer)
        ensures
            s.id == 0,
            s.name == name,
            s.transport == McpTransport::Stdio,
            s.command == command,
            s.headers@ == "{}"@,
            s.status == McpStatus::Disabled,
            s.tools == 0,
            s.last_error is None,
            s.plugin_origin is None,
            s.created_at == now,
            s.updated_at == now,
            s.deleted_at is None,
    {
        McpServer::with_transport(name, McpTransport::Stdio, command, now)
    }

    /// A new server with the given transport; headers start as `{}`.
    pub fn with_transport(
        name: String,
        transport: McpTransport,
        command: String,
        now: NaiveDateTime,
    ) -> (s: McpServer)
        ensures
            s.id == 0,
            s.name == name,
            s.transport == transport,
            s.command == command,
            s.headers@ == "{}"@,
            s.status == McpStatus::Disabled,
            s.tools == 0,
            s.last_error is None,
            s.plugin_origin is None,
            s.created_at == now,
            s.updated_at == now,
            s.deleted_at is None,
    {
        McpServer {
            id: 0,
            name,
            transport,
            command,
            headers: owned("{}"),
            status: McpStatus::Disabled,
            tools: 0,
            last_error: None,
            plugin_origin: None,
            created_at: now,
            updated_at: now,
            deleted_at: None,
        }
    }

    /// Request headers of a remote service; text that is not a JSON object
    /// gives none.
    pub fn headers_map(&self) -> (r: Vec<(String, String)>)
        ensures
            pair_views(r@) == (match headers_of(self.headers@) {
                Some(h) => h,
                None => Seq::empty(),
            }),
    {
        match parse_headers_json(self.headers.as_str()) {
            Some(h) => h,
            None => {
                let v: Vec<(String, String)> = Vec::new();
                assert(pair_views(v@) =~= Seq::<(Seq<char>, Seq<char>)>::empty());
                v
            },
        }
    }

    /// Validation (see [`mcp_invalid`]).
    pub fn validate(&self) -> (r: Result<(), DomainError>)
        ensures
            match mcp_invalid(*self) {
                None => r is Ok,
                Some(m) => r matches Err(DomainError::Validation(e)) && e@ == m,
            },
    {
        if is_blank_vec(&chars_of(self.name.as_str())) {
            return Err(DomainError::Validation(owned("MCP 服务器名不能为空")));
        }
        if is_blank_vec(&chars_of(self.command.as_str())) {
            return Err(DomainError::Validation(owned("MCP 启动命令不能为空")));
        }
        if self.transport == McpTransport::Sse && !McpTransport::is_remote_url(self.command.as_str()) {
            return Err(DomainError::Validation(owned("远程服务地址必须以 http:// 或 https:// 开头")));
        }
        if self.transport == McpTransport::Sse && parse_headers_json(self.headers.as_str()).is_none() {
            return Err(
                DomainError::Validation(
                    owned("请求头必须是合法的 JSON 对象（如 {\"Authorization\":\"Bearer x\"}）"),
                ),
            );
        }
        Ok(())
    }

    /// Starts connecting: disabled / error → connecting; already connected
    /// stays so; refused while connecting.
    pub fn connect(&mut self) -> (r: Result<(), DomainError>)
        ensures
            old(self).status == McpStatus::Connecting ==> (r matches Err(DomainError::State(m))
                && m@ == "正在连接中"@ && *final(self) == *old(self)),
            old(self).status == McpStatus::Connected ==> (r is Ok && *final(self) == *old(self)),
            (old(self).status == McpStatus::Disabled || old(self).status == McpStatus::Error) ==> (
            r is Ok && *final(self) == (McpServer { status: McpStatus::Connecting, ..*old(self) })),
    {
        match self.status {
            McpStatus::Disabled | McpStatus::Error => {
                self.status = McpStatus::Connecting;
                Ok(())
            },
            McpStatus::Connecting => Err(DomainError::State(owned("正在连接中"))),
            McpStatus::Connected => Ok(()),
        }
    }

    /// Connected: connecting → connected, recording the tool count and
    /// clearing the last error; refused in any other status.
    pub fn mark_connected(&mut self, tools: i64) -> (r: Result<(), DomainError>)
        ensures
            old(self).status == McpStatus::Connecting ==> (r is Ok && *final(self) == (McpServer {
                status: McpStatus::Connected,
                tools,
                last_error: None,
                ..*old(self)
            })),
            old(self).status != McpStatus::Connecting ==> (r matches Err(DomainError::State(m))
                && m@ == "当前状态不能标记为已连接"@ && *final(self) == *old(self)),
    {
        if self.status != McpStatus::Connecting {
            return Err(DomainError::State(owned("当前状态不能标记为已连接")));
        }
        self.status = McpStatus::Connected;
        self.tools = tools;
        self.last_error = None;
        Ok(())
    }

    /// Failed: any status → error, recording the reason.
    pub fn mark_error(&mut self, reason: String)
        ensures
            *final(self) == (McpServer {
                status: McpStatus::Error,
                last_error: Some(reason),
                ..*old(self)
            }),
    {
        self.status = McpStatus::Error;
        self.last_error = Some(reason);
    }

    /// Disabled: any status → disabled, with no tools.
    pub fn disable(&mut self)
        ensures
            *final(self) == (McpServer { status: McpStatus::Disabled, tools: 0, ..*old(self) }),
    {
        self.status = McpStatus::Disabled;
        self.tools = 0;
    }
}

} // verus!
