//! MCP client logic: tool naming (`mcp__<server>__<tool>`), output limits,
//! errors, the handshake's state changes, the JSON-RPC frames and the SSE
//! event stream. Processes, sockets and the connection pool are the caller's.
use vstd::prelude::*;

use crate::domain::config::mcp::{McpServer, McpStatus};
use crate::domain::DomainError;
use crate::support::json::Json;
use crate::text::{
    chars_of, concat_vec, extend_str, extend_vec, find, first_occurrence, has_infix, has_prefix,
    has_suffix, is_blank, is_blank_vec, occurs_at, owned, slice_vec, starts_with_str, string_of,
};

pub mod jsonrpc;
pub mod sse;

verus! {

/// Prefix of the names of MCP tools.
pub const MCP_TOOL_PREFIX: &'static str = "mcp__";

/// Output limit of an MCP tool, in bytes (50 KB).
pub const MAX_TOOL_OUTPUT: usize = 51200;

/// The name under which a server's tool is offered.
pub open spec fn mcp_tool_name(server: Seq<char>, tool: Seq<char>) -> Seq<char> {
    "mcp__"@ + server + "__"@ + tool
}

/// The (server, tool) an MCP tool name names: after the `mcp__` prefix, the
/// text up to the first `__` and the text after it, both non-empty.
pub open spec fn parsed_tool_name(name: Seq<char>) -> Option<(Seq<char>, Seq<char>)> {
    if !has_prefix(name, "mcp__"@) {
        None
    } else {
        let rest = name.skip(5);
        if exists|i: int| first_occurrence(rest, "__"@, i) {
            let i = choose|i: int| first_occurrence(rest, "__"@, i);
            let server = rest.take(i);
            let tool = rest.skip(i + 2);
            if server.len() == 0 || tool.len() == 0 {
                None
            } else {
                Some((server, tool))
            }
        } else {
            None
        }
    }
}

/// The name of a server's tool (see [`mcp_tool_name`]).
pub fn tool_name(server: &str, tool: &str) -> (r: String)
    ensures
        r@ == mcp_tool_name(server@, tool@),
{
    let mut v = chars_of("mcp__");
    extend_str(&mut v, server);
    extend_str(&mut v, "__");
    extend_str(&mut v, tool);
    string_of(&v)
}

/// Splits an MCP tool name (see [`parsed_tool_name`]).
pub fn parse_tool_name(name: &str) -> (r: Option<(String, String)>)
    ensures
        match r {
            Some(p) => parsed_tool_name(name@) == Some((p.0@, p.1@)),
            None => parsed_tool_name(name@) is None,
        },
{
    proof {
        reveal_strlit("mcp__");
        reveal_strlit("__");
    }
    let v = chars_of(name);
    if !starts_with_str(&v, "mcp__") {
        return None;
    }
    let rest = slice_vec(&v, 5, v.len());
    assert(rest@ =~= name@.skip(5));
    let sep = chars_of("__");
    match find(&rest, &sep) {
        Some(i) => {
            proof {
                assert forall|j: int| first_occurrence(rest@, "__"@, j) implies j == i by {
                    if j < i {
                        assert(!occurs_at(rest@, "__"@, j));
                    } else if j > i {
                        assert(!occurs_at(rest@, "__"@, i as int));
                    }
                }
            }
            let server = slice_vec(&rest, 0, i);
            let tool = slice_vec(&rest, i + 2, rest.len());
            assert(server@ =~= rest@.take(i as int));
            assert(tool@ =~= rest@.skip(i + 2));
            if server.len() == 0 || tool.len() == 0 {
                return None;
            }
            Some((string_of(&server), string_of(&tool)))
        },
        None => {
            proof {
                assert forall|j: int| !first_occurrence(rest@, "__"@, j) by {
                    if first_occurrence(rest@, "__"@, j) {
                        assert(rest@.subrange(j, j + 2) == "__"@);
                    }
                }
            }
            None
        },
    }
}

/// Splitting the name of a server's tool gives the server and the tool back,
/// when neither is empty and the server name holds no `__` and does not end
/// with `_` (else the split point moves).
pub proof fn lemma_tool_name_roundtrip(server: Seq<char>, tool: Seq<char>)
    requires
        server.len() > 0,
        tool.len() > 0,
        !has_infix(server, "__"@),
        !has_suffix(server, "_"@),
    ensures
        parsed_tool_name(mcp_tool_name(server, tool)) == Some((server, tool)),
{
    reveal_strlit("mcp__");
    reveal_strlit("__");
    reveal_strlit("_");
    let name = mcp_tool_name(server, tool);
    assert(name.take(5) =~= "mcp__"@);
    let rest = name.skip(5);
    assert(rest =~= server + "__"@ + tool);
    let n = server.len() as int;
    assert(rest.subrange(n, n + 2) =~= "__"@);
    assert forall|j: int| 0 <= j < n implies !occurs_at(rest, "__"@, j) by {
        if occurs_at(rest, "__"@, j) {
            if j < n - 1 {
                assert(server.subrange(j, j + 2) =~= rest.subrange(j, j + 2));
                assert(occurs_at(server, "__"@, j));
            } else {
                assert(server[n - 1] == rest[n - 1]);
                assert(rest.subrange(j, j + 2)[0] == rest[n - 1]);
                assert("__"@[0] == '_');
                assert(server[n - 1] == '_');
                assert(server.skip(n - 1) =~= "_"@);
            }
        }
    }
    assert(first_occurrence(rest, "__"@, n));
    assert forall|j: int| first_occurrence(rest, "__"@, j) implies j == n by {
        if j > n {
            assert(!occurs_at(rest, "__"@, n));
        }
    }
    assert(rest.take(n) =~= server);
    assert(rest.skip(n + 2) =~= tool);
}

/// A tool found by the handshake (its input schema is handed to the model
/// as the function's parameters).
#[derive(Debug)]
pub struct McpTool {
    /// The server's own name for the tool.
    pub name: String,
    /// Description.
    pub description: String,
    /// JSON Schema of the arguments.
    pub input_schema: Json,
}

/// MCP failures.
#[derive(Debug, Clone)]
pub enum McpError {
    /// The process could not start.
    Spawn(String),
    /// A request or the handshake timed out.
    Timeout(String),
    /// The other side broke the protocol.
    Protocol(String),
    /// HTTP or network failure.
    Http(String),
    /// The server is not connected (or went away).
    NotConnected(String),
    /// The tool reported an error.
    Tool(String),
}

/// The user-facing message of an MCP error.
pub open spec fn mcp_error_text(e: McpError) -> Seq<char> {
    match e {
        McpError::Spawn(m) => "启动 MCP 进程失败："@ + m@,
        McpError::Timeout(m) => "MCP 请求超时（15s）："@ + m@,
        McpError::Protocol(m) => "MCP 协议错误："@ + m@,
        McpError::Http(m) => "MCP 网络错误："@ + m@,
        McpError::NotConnected(m) => "MCP 服务器未连接或已断开："@ + m@,
        McpError::Tool(m) => "MCP 工具执行失败："@ + m@,
    }
}

fn prefixed(prefix: &str, m: &String) -> (r: String)
    ensures
        r@ == prefix@ + m@,
{
    string_of(&concat_vec(&chars_of(prefix), &chars_of(m.as_str())))
}

impl McpError {
    /// The user-facing message (see [`mcp_error_text`]).
    pub fn message(&self) -> (r: String)
        ensures
            r@ == mcp_error_text(*self),
    {
        match self {
            McpError::Spawn(m) => prefixed("启动 MCP 进程失败：", m),
            McpError::Timeout(m) => prefixed("MCP 请求超时（15s）：", m),
            McpError::Protocol(m) => prefixed("MCP 协议错误：", m),
            McpError::Http(m) => prefixed("MCP 网络错误：", m),
            McpError::NotConnected(m) => prefixed("MCP 服务器未连接或已断开：", m),
            McpError::Tool(m) => prefixed("MCP 工具执行失败：", m),
        }
    }
}

/// Bytes of a character in UTF-8.
pub open spec fn utf8_len(c: char) -> nat {
    if (c as u32) < 0x80 {
        1
    } else if (c as u32) < 0x800 {
        2
    } else if (c as u32) < 0x10000 {
        3
    } else {
        4
    }
}

/// Bytes of a text in UTF-8.
pub open spec fn byte_len(s: Seq<char>) -> nat
    decreases s.len(),
{
    if s.len() == 0 {
        0
    } else {
        utf8_len(s[0]) + byte_len(s.drop_first())
    }
}

/// How many leading characters fit in `limit` bytes.
pub open spec fn fitting(s: Seq<char>, limit: int) -> int
    decreases s.len(),
{
    if s.len() == 0 || utf8_len(s[0]) > limit {
        0
    } else {
        1 + fitting(s.drop_first(), limit - utf8_len(s[0]))
    }
}

/// Output cut to `limit` bytes at a character boundary, with a note, when
/// it is longer.
pub open spec fn truncated(s: Seq<char>, limit: int) -> Seq<char> {
    if byte_len(s) <= limit {
        s
    } else {
        s.take(fitting(s, limit)) + "…\n[输出已截断]"@
    }
}

pub(crate) fn char_bytes(c: char) -> (n: usize)
    ensures
        n == utf8_len(c),
{
    let u = c as u32;
    if u < 0x80 {
        1
    } else if u < 0x800 {
        2
    } else if u < 0x10000 {
        3
    } else {
        4
    }
}

/// Cuts output to `limit` bytes (see [`truncated`]).
pub fn truncate_output(s: &str, limit: usize) -> (r: String)
    ensures
        r@ == truncated(s@, limit as int),
{
    let v = chars_of(s);
    // total size, bounded by what can be counted
    let mut total: usize = 0;
    let mut i: usize = 0;
    let mut over = false;
    assert(v@.skip(0) =~= v@);
    while i < v.len()
        invariant
            i <= v.len(),
            !over ==> total <= limit && total + byte_len(v@.skip(i as int)) == byte_len(v@),
            over ==> byte_len(v@) > limit,
        decreases v.len() - i,
    {
        assert(v@.skip(i as int).drop_first() =~= v@.skip(i + 1));
        let n = char_bytes(v[i]);
        if !over {
            if n > limit - total {
                over = true;
                proof {
                    lemma_byte_len_ge(v@.skip(i as int));
                }
            } else {
                total = total + n;
            }
        }
        i = i + 1;
    }
    if !over {
        assert(v@.skip(v.len() as int) =~= Seq::<char>::empty());
        return owned(s);
    }
    let mut k: usize = 0;
    let mut used: usize = 0;
    assert(v@.skip(0) =~= v@);
    while k < v.len() && char_bytes(v[k]) <= limit - used
        invariant
            k <= v.len(),
            used <= limit,
            fitting(v@, limit as int) == k + fitting(v@.skip(k as int), limit - used),
        decreases v.len() - k,
    {
        assert(v@.skip(k as int).drop_first() =~= v@.skip(k + 1));
        used = used + char_bytes(v[k]);
        k = k + 1;
    }
    let mut out = slice_vec(&v, 0, k);
    assert(out@ =~= v@.take(k as int));
    extend_str(&mut out, "…\n[输出已截断]");
    string_of(&out)
}

proof fn lemma_byte_len_ge(s: Seq<char>)
    requires
        s.len() > 0,
    ensures
        byte_len(s) >= utf8_len(s[0]),
{
}

/// First half of the handshake of a server being enabled: the server is
/// taken to disabled and then to connecting; a blank command fails it at
/// once (status error, reason recorded). `Ok` means: now connect.
pub fn handshake_begin(server: &mut McpServer) -> (r: Result<(), McpError>)
    ensures
        is_blank(old(server).command@) ==> (r matches Err(McpError::Spawn(m)) && m@ == "启动命令为空"@
            && *final(server) == (McpServer {
            status: McpStatus::Error,
            tools: 0,
            last_error: Some(final(server).last_error->0),
            ..*old(server)
        }) && final(server).last_error->0@ == "启动命令为空"@),
        !is_blank(old(server).command@) ==> (r is Ok && *final(server) == (McpServer {
            status: McpStatus::Connecting,
            tools: 0,
            ..*old(server)
        })),
{
    server.disable();
    match server.connect() {
        Ok(()) => {},
        Err(e) => return Err(McpError::Protocol(e.message())),
    }
    if is_blank_vec(&chars_of(server.command.as_str())) {
        server.mark_error(owned("启动命令为空"));
        return Err(McpError::Spawn(owned("启动命令为空")));
    }
    Ok(())
}

/// Second half of the handshake, given what connecting gave: the number of
/// tools found (the server becomes connected) or the failure (the server
/// becomes error, with the failure's message as reason).
pub fn handshake_end(server: &mut McpServer, outcome: Result<usize, McpError>) -> (r: Result<(), McpError>)
    requires
        old(server).status == McpStatus::Connecting,
    ensures
        match outcome {
            Ok(n) => n <= i64::MAX ==> (r is Ok && *final(server) == (McpServer {
                status: McpStatus::Connected,
                tools: n as i64,
                last_error: None,
                ..*old(server)
            })),
            Err(e) => r == Err::<(), McpError>(e) && final(server).status == McpStatus::Error
                && (final(server).last_error matches Some(m) && m@ == mcp_error_text(e)),
        },
{
    match outcome {
        Ok(n) => {
            let count: i64 = n as i64;
            match server.mark_connected(count) {
                Ok(()) => Ok(()),
                Err(e) => Err(McpError::Protocol(e.message())),
            }
        },
        Err(e) => {
            server.mark_error(e.message());
            Err(e)
        },
    }
}

} // verus!
