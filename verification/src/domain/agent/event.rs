//! Agent events: plain data pushed to the front end.
use vstd::prelude::*;

verus! {

/// Token use.
#[derive(Debug, Clone, Copy, PartialEq, Eq, Structural)]
pub struct TokenUsage {
    /// Input tokens.
    pub input: i64,
    /// Output tokens.
    pub output: i64,
}

impl Default for TokenUsage {
    fn default() -> (u: TokenUsage)
        ensures
            u.input == 0 && u.output == 0,
    {
        TokenUsage { input: 0, output: 0 }
    }
}

/// One item of the agent's to-do list.
#[derive(Debug, Clone, PartialEq, Eq)]
pub struct TodoItem {
    /// Id.
    pub id: i64,
    /// Text.
    pub content: String,
    /// Status (`pending` / `in_progress` / `completed`).
    pub status: String,
}

/// A file change recorded by a checkpoint.
#[derive(Debug, Clone, PartialEq, Eq)]
pub struct ChangeInfo {
    /// Checkpoint id.
    pub change_id: i64,
    /// Changed file.
    pub file_path: String,
    /// Added lines.
    pub add_lines: i64,
    /// Deleted lines.
    pub del_lines: i64,
    /// Whether it was rolled back.
    pub rolled_back: bool,
}

/// How a run ended.
#[derive(Debug, Clone, PartialEq, Eq)]
pub enum RunResult {
    /// Finished.
    Done,
    /// Interrupted.
    Aborted,
    /// Failed.
    Error(String),
}

impl RunResult {
    /// Event string.
    pub fn as_str(&self) -> (s: &'static str)
        ensures
            s@ == (match *self {
                RunResult::Done => "done"@,
                RunResult::Aborted => "aborted"@,
                RunResult::Error(_) => "error"@,
            }),
    {
        match self {
            RunResult::Done => "done",
            RunResult::Aborted => "aborted",
            RunResult::Error(_) => "error",
        }
    }
}

/// An event of a run.
#[derive(Debug, Clone, PartialEq)]
pub enum AgentEvent {
    /// Streamed text.
    TextDelta { session_id: i64, delta: String },
    /// Streamed reasoning.
    ThinkingDelta { session_id: i64, delta: String },
    /// A tool started.
    ToolStart { session_id: i64, call_id: String, tool: String, arg: String },
    /// A tool ended.
    ToolEnd { session_id: i64, call_id: String, status: String, output: String, note: Option<String> },
    /// A call waits for approval.
    ApprovalRequired { session_id: i64, call_id: String, tool: String, arg: String, reason: String },
    /// An approval was decided.
    ApprovalResolved { session_id: i64, call_id: String, decision: String },
    /// The to-do list changed.
    TodoUpdate { session_id: i64, todos: Vec<TodoItem> },
    /// A file change was recorded.
    ChangeAdd { session_id: i64, change: ChangeInfo },
    /// Context use changed.
    CtxUpdate { session_id: i64, ctx_percent: i64, tokens: TokenUsage },
    /// The context was compacted.
    Compacted { session_id: i64, summary: String },
    /// The run ended.
    RunEnd { session_id: i64, result: RunResult, usage: TokenUsage },
}

/// Where a run's events go (the front end).
pub trait RunEventSink: Send + Sync {
    /// Pushes one event.
    fn emit(&self, event: AgentEvent);
}

} // verus!
