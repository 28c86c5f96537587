//! The OpenAI-compatible wire objects, as plain values (their JSON form is
//! written and read by the caller).
use vstd::prelude::*;

use crate::support::json::Json;

verus! {

/// A request message.
#[derive(Debug)]
pub struct ReqMessage {
    /// Role.
    pub role: String,
    /// Text (absent for a message that only carries tool calls).
    pub content: Option<String>,
    /// The assistant's tool calls.
    pub tool_calls: Option<Vec<ReqToolCall>>,
    /// The call a tool message answers.
    pub tool_call_id: Option<String>,
}

/// A tool call in a request.
#[derive(Debug)]
pub struct ReqToolCall {
    /// Call id.
    pub id: String,
    /// Type (always `function`).
    pub kind: String,
    /// The function called.
    pub function: ReqFunction,
}

/// The function of a tool call.
#[derive(Debug)]
pub struct ReqFunction {
    /// Tool name.
    pub name: String,
    /// Arguments, as JSON text.
    pub arguments: String,
}

/// A tool offered in a request.
#[derive(Debug)]
pub struct ReqTool {
    /// Type (always `function`).
    pub kind: String,
    /// The function.
    pub function: ReqToolFunction,
}

/// The function of an offered tool.
#[derive(Debug)]
pub struct ReqToolFunction {
    /// Name.
    pub name: String,
    /// Description.
    pub description: String,
    /// JSON Schema of the arguments.
    pub parameters: Json,
}

/// The body of a `chat/completions` request.
#[derive(Debug)]
pub struct ChatCompletionsReq {
    /// Model.
    pub model: String,
    /// Messages.
    pub messages: Vec<ReqMessage>,
    /// Tools (left out of the JSON when empty).
    pub tools: Vec<ReqTool>,
    /// Streaming.
    pub stream: bool,
    /// Streaming options.
    pub stream_options: StreamOptions,
}

/// Streaming options.
#[derive(Debug)]
pub struct StreamOptions {
    /// Whether the last chunk reports token use.
    pub include_usage: bool,
}

/// A streamed chunk.
#[derive(Debug)]
pub struct ChatChunk {
    /// Choices.
    pub choices: Vec<ChunkChoice>,
    /// Token use (last chunk).
    pub usage: Option<ChunkUsage>,
}

/// A choice of a chunk.
#[derive(Debug)]
pub struct ChunkChoice {
    /// The increment.
    pub delta: Option<ChunkDelta>,
}

/// An increment.
#[derive(Debug)]
pub struct ChunkDelta {
    /// Text.
    pub content: Option<String>,
    /// Reasoning (Moonshot / DeepSeek style).
    pub reasoning_content: Option<String>,
    /// Reasoning (other providers).
    pub reasoning: Option<String>,
    /// Tool call pieces.
    pub tool_calls: Option<Vec<ChunkToolCall>>,
}

/// A piece of a tool call.
#[derive(Debug)]
pub struct ChunkToolCall {
    /// Position of the call (the key pieces are joined by).
    pub index: Option<usize>,
    /// Call id (first piece).
    pub id: Option<String>,
    /// Function piece.
    pub function: Option<ChunkFunction>,
}

/// A piece of a tool call's function.
#[derive(Debug)]
pub struct ChunkFunction {
    /// Tool name (first piece).
    pub name: Option<String>,
    /// A piece of the arguments' JSON text.
    pub arguments: Option<String>,
}

/// Token use.
#[derive(Debug)]
pub struct ChunkUsage {
    /// Input tokens.
    pub prompt_tokens: Option<i64>,
    /// Output tokens.
    pub completion_tokens: Option<i64>,
}

/// An error response body.
#[derive(Debug)]
pub struct ErrorBody {
    /// Details.
    pub error: Option<ErrorDetail>,
}

/// Error details.
#[derive(Debug)]
pub struct ErrorDetail {
    /// Message.
    pub message: Option<String>,
}

} // verus!
