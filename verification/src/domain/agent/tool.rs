//! Tool calls and their outputs.
use vstd::prelude::*;

use crate::support::json::Json;
use crate::text::{chars_of, eq_str, has_prefix, owned, starts_with_str};

verus! {

/// The write tools (asked by default, refused in plan mode) and every tool
/// injected from an MCP server (`mcp__*`).
pub open spec fn is_write(tool: Seq<char>) -> bool {
    ||| tool == "Edit"@
    ||| tool == "Write"@
    ||| tool == "MultiEdit"@
    ||| tool == "Bash"@
    ||| has_prefix(tool, "mcp__"@)
}

/// Whether `tool` is a write tool (see [`is_write`]).
pub fn is_write_tool(tool: &str) -> (b: bool)
    ensures
        b == is_write(tool@),
{
    let t = chars_of(tool);
    eq_str(&t, "Edit") || eq_str(&t, "Write") || eq_str(&t, "MultiEdit") || eq_str(&t, "Bash")
        || starts_with_str(&t, "mcp__")
}

/// The write tools by name (MCP tools, `mcp__*`, count as write tools too).
pub fn write_tools() -> (r: Vec<&'static str>)
    ensures
        r@.len() == 4,
        r@[0]@ == "Edit"@,
        r@[1]@ == "Write"@,
        r@[2]@ == "MultiEdit"@,
        r@[3]@ == "Bash"@,
{
    vec!["Edit", "Write", "MultiEdit", "Bash"]
}

/// One tool call.
#[derive(Debug)]
pub struct ToolCall {
    /// Call id (links approvals and events).
    pub call_id: String,
    /// Tool name.
    pub tool: String,
    /// Main argument, shown and matched by permissions (a relative file path
    /// or a Bash command line).
    pub arg: String,
    /// Raw arguments.
    pub input: Json,
}

/// A tool offered to the model.
#[derive(Debug)]
pub struct ToolSpec {
    /// Name.
    pub name: String,
    /// Description.
    pub description: String,
    /// JSON Schema of the arguments.
    pub parameters: Json,
}

/// Execution status of a tool.
#[derive(Debug, Clone, Copy, PartialEq, Eq, Structural)]
pub enum ToolOutputStatus {
    /// Succeeded.
    Success,
    /// Failed.
    Error,
}

impl ToolOutputStatus {
    /// Event string.
    pub fn as_str(&self) -> (s: &'static str)
        ensures
            s@ == (match *self {
                ToolOutputStatus::Success => "ok"@,
                ToolOutputStatus::Error => "error"@,
            }),
    {
        match self {
            ToolOutputStatus::Success => "ok",
            ToolOutputStatus::Error => "error",
        }
    }
}

/// Checkpoint data produced before a file write (stored by the caller).
#[derive(Debug, Clone)]
pub struct CheckpointPayload {
    /// Changed file (relative to the project).
    pub file_path: String,
    /// Git blob holding the content before the change.
    pub git_ref: String,
    /// Added lines.
    pub add_lines: i64,
    /// Deleted lines.
    pub del_lines: i64,
}

/// Result of a tool execution.
#[derive(Debug, Clone)]
pub struct ToolOutput {
    /// Status.
    pub status: ToolOutputStatus,
    /// Output text (content, diff or error description).
    pub output: String,
    /// Note (such as `+3 / -1`).
    pub note: Option<String>,
    /// Checkpoint of a successful Edit/Write.
    pub checkpoint: Option<CheckpointPayload>,
}

impl ToolOutput {
    /// Successful output without note or checkpoint.
    pub fn ok(output: &str) -> (r: ToolOutput)
        ensures
            r.status == ToolOutputStatus::Success,
            r.output@ == output@,
            r.note is None,
            r.checkpoint is None,
    {
        ToolOutput { status: ToolOutputStatus::Success, output: owned(output), note: None, checkpoint: None }
    }

    /// Failed output without note or checkpoint.
    pub fn error(output: &str) -> (r: ToolOutput)
        ensures
            r.status == ToolOutputStatus::Error,
            r.output@ == output@,
            r.note is None,
            r.checkpoint is None,
    {
        ToolOutput {
            status: ToolOutputStatus::Error,
            output: owned(output),
            note: None,
            checkpoint: None,
        }
    }
}

} // verus!
