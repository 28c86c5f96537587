//! The OpenAI-compatible chat protocol.
pub mod client;
pub mod protocol;
