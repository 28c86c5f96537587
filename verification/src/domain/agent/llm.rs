//! Chat with a model: messages, requests, the assistant's turn and the errors
//! of a call.
use vstd::prelude::*;

use crate::domain::agent::event::TokenUsage;
use crate::domain::agent::tool::ToolSpec;
use crate::text::{chars_of, concat_vec, string_of};

verus! {

/// Role of a chat message.
#[derive(Debug, Clone, Copy, PartialEq, Eq, Structural)]
pub enum ChatRole {
    /// User.
    User,
    /// Assistant.
    Assistant,
    /// Tool result.
    Tool,
    /// System.
    System,
}

/// A tool call the assistant made.
#[derive(Debug, Clone, PartialEq, Eq)]
pub struct ChatToolCall {
    /// Call id.
    pub id: String,
    /// Tool name.
    pub name: String,
    /// Arguments, as JSON text.
    pub arguments: String,
}

/// A chat message.
#[derive(Debug, Clone, PartialEq, Eq)]
pub struct ChatMessage {
    /// Role.
    pub role: ChatRole,
    /// Text.
    pub content: String,
    /// Tool calls (assistant messages only).
    pub tool_calls: Vec<ChatToolCall>,
    /// The call a tool message answers.
    pub tool_call_id: Option<String>,
}

impl ChatMessage {
    /// A plain text message.
    pub fn text(role: ChatRole, content: &str) -> (m: ChatMessage)
        ensures
            m.role == role,
            m.content@ == content@,
            m.tool_calls@.len() == 0,
            m.tool_call_id is None,
    {
        ChatMessage {
            role,
            content: crate::text::owned(content),
            tool_calls: Vec::new(),
            tool_call_id: None,
        }
    }
}

/// A chat request.
#[derive(Debug)]
pub struct ChatRequest {
    /// Base URL.
    pub base_url: String,
    /// API key.
    pub api_key: String,
    /// Model.
    pub model: String,
    /// Messages.
    pub messages: Vec<ChatMessage>,
    /// Tools offered.
    pub tools: Vec<ToolSpec>,
}

/// One assistant turn, as streamed.
#[derive(Debug, Clone)]
pub struct AssistantTurn {
    /// Text.
    pub text: String,
    /// Reasoning.
    pub thinking: String,
    /// Tool calls.
    pub tool_calls: Vec<ChatToolCall>,
    /// Token use, when reported.
    pub usage: Option<TokenUsage>,
}

impl Default for AssistantTurn {
    fn default() -> (t: AssistantTurn)
        ensures
            t.text@.len() == 0,
            t.thinking@.len() == 0,
            t.tool_calls@.len() == 0,
            t.usage is None,
    {
        AssistantTurn { text: String::new(), thinking: String::new(), tool_calls: Vec::new(), usage: None }
    }
}

/// Failure of a model call.
#[derive(Debug, Clone)]
pub enum LlmError {
    /// Timed out.
    Timeout,
    /// The server failed (5xx).
    Server(String),
    /// The request was refused (4xx, bad response).
    Client(String),
    /// The network failed.
    Network(String),
    /// Interrupted.
    Aborted,
}

/// The user-facing message of an error.
pub open spec fn llm_error_text(e: LlmError) -> Seq<char> {
    match e {
        LlmError::Timeout => "LLM 请求超时"@,
        LlmError::Server(m) => "LLM 服务端错误："@ + m@,
        LlmError::Client(m) => "LLM 客户端错误："@ + m@,
        LlmError::Network(m) => "LLM 网络错误："@ + m@,
        LlmError::Aborted => "LLM 调用已中断"@,
    }
}

impl LlmError {
    /// Whether a retry may succeed: timeouts, server and network failures.
    pub fn retryable(&self) -> (b: bool)
        ensures
            b == (self is Timeout || self is Server || self is Network),
    {
        match self {
            LlmError::Timeout | LlmError::Server(_) | LlmError::Network(_) => true,
            _ => false,
        }
    }

    /// The user-facing message (see [`llm_error_text`]).
    pub fn message(&self) -> (r: String)
        ensures
            r@ == llm_error_text(*self),
    {
        match self {
            LlmError::Timeout => crate::text::owned("LLM 请求超时"),
            LlmError::Server(m) => string_of(&concat_vec(&chars_of("LLM 服务端错误："), &chars_of(m.as_str()))),
            LlmError::Client(m) => string_of(&concat_vec(&chars_of("LLM 客户端错误："), &chars_of(m.as_str()))),
            LlmError::Network(m) => string_of(&concat_vec(&chars_of("LLM 网络错误："), &chars_of(m.as_str()))),
            LlmError::Aborted => crate::text::owned("LLM 调用已中断"),
        }
    }
}

} // verus!
