//! The agent: permission decisions, tool calls, model chat and the run state
//! machine.
pub mod agent_run;
pub mod bash;
pub mod checkpoint;
pub mod event;
pub mod llm;
pub mod permission;
pub mod tool;

pub use agent_run::{AgentRun, PendingApproval, RunState};
pub use checkpoint::{Checkpoint, CheckpointGateway};
pub use event::{AgentEvent, ChangeInfo, RunEventSink, RunResult, TodoItem, TokenUsage};
pub use llm::{AssistantTurn, ChatMessage, ChatRequest, ChatRole, ChatToolCall, LlmError};
pub use permission::{ApprovalDecision, PermDecision, PermMode, PermissionEngine};
pub use tool::{is_write_tool, CheckpointPayload, ToolCall, ToolOutput, ToolOutputStatus, ToolSpec};
