//! Sessions and their messages.
pub mod message;
pub mod session;

pub use message::{Message, MessageImage, MessageKind};
pub use session::{Session, COMPACT_THRESHOLD};
