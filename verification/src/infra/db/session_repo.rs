//! Rows of the session and message tables.
use vstd::prelude::*;

use crate::domain::session::message::parse_kind;
use crate::domain::session::{Message, MessageKind, Session};
use crate::infra::db::{opt_stored, stored, opt_time_reads, parse_time, parse_time_opt, times_read};

verus! {

/// A session row.
#[derive(Debug)]
pub struct SessionDO {
    /// Id.
    pub id: i64,
    /// Project id.
    pub project_id: i64,
    /// Title.
    pub title: String,
    /// Context use in percent.
    pub ctx_percent: i64,
    /// Input tokens so far.
    pub input_tokens: i64,
    /// Output tokens so far.
    pub output_tokens: i64,
    /// The session's preferred model.
    pub preferred_model: Option<String>,
    /// Created by.
    pub created_by: String,
    /// Updated by.
    pub updated_by: String,
    /// Creation time.
    pub created_at: String,
    /// Update time.
    pub updated_at: String,
    /// Soft-deletion time.
    pub deleted_at: Option<String>,
}

impl SessionDO {
    /// The session a row holds, without its messages, given its parsed
    /// times.
    pub fn with_times(
        self,
        created_at: chrono::NaiveDateTime,
        updated_at: chrono::NaiveDateTime,
        deleted_at: Option<chrono::NaiveDateTime>,
    ) -> (s: Session)
        ensures
            s.id == self.id,
            s.project_id == self.project_id,
            s.title == self.title,
            s.ctx_percent == self.ctx_percent,
            s.input_tokens == self.input_tokens,
            s.output_tokens == self.output_tokens,
            s.preferred_model == self.preferred_model,
            s.messages@.len() == 0,
            s.created_at == created_at,
            s.updated_at == updated_at,
            s.deleted_at == deleted_at,
    {
        Session {
            id: self.id,
            project_id: self.project_id,
            title: self.title,
            ctx_percent: self.ctx_percent,
            input_tokens: self.input_tokens,
            output_tokens: self.output_tokens,
            preferred_model: self.preferred_model,
            messages: Vec::new(),
            created_at,
            updated_at,
            deleted_at,
        }
    }

    /// The session a row holds, without its messages; fails when a time does
    /// not read.
    pub fn into_domain(self) -> (r: Result<Session, String>)
        ensures
            r is Ok <==> (times_read(self.created_at@, self.updated_at@) && opt_time_reads(self.deleted_at)),
            r matches Ok(s) ==> {
                &&& Some(s.created_at) == stored(self.created_at@)
                &&& Some(s.updated_at) == stored(self.updated_at@)
                &&& s.deleted_at == opt_stored(self.deleted_at)
                &&& s.id == self.id
                &&& s.project_id == self.project_id
                &&& s.title == self.title
                &&& s.ctx_percent == self.ctx_percent
                &&& s.input_tokens == self.input_tokens
                &&& s.output_tokens == self.output_tokens
                &&& s.preferred_model == self.preferred_model
                &&& s.messages@.len() == 0
                &&& (s.deleted_at is Some <==> self.deleted_at is Some)
            },
    {
        let created_at = match parse_time(self.created_at.as_str()) {
            Ok(t) => t,
            Err(e) => return Err(e),
        };
        let updated_at = match parse_time(self.updated_at.as_str()) {
            Ok(t) => t,
            Err(e) => return Err(e),
        };
        let deleted_at = match parse_time_opt(&self.deleted_at) {
            Ok(t) => t,
            Err(e) => return Err(e),
        };
        Ok(self.with_times(created_at, updated_at, deleted_at))
    }
}

/// A message row.
#[derive(Debug)]
pub struct MessageDO {
    /// Id.
    pub id: i64,
    /// Session id.
    pub session_id: i64,
    /// Sequence number in the session.
    pub seq: i64,
    /// Kind text.
    pub kind: String,
    /// JSON payload.
    pub payload: String,
    /// Created by.
    pub created_by: String,
    /// Updated by.
    pub updated_by: String,
    /// Creation time.
    pub created_at: String,
    /// Update time.
    pub updated_at: String,
    /// Soft-deletion time.
    pub deleted_at: Option<String>,
}

impl MessageDO {
    /// The message a row holds, given its parsed kind and times.
    pub fn with_times(self, kind: MessageKind, created_at: chrono::NaiveDateTime, updated_at: chrono::NaiveDateTime) -> (m: Message)
        ensures
            m == (Message { id: self.id, session_id: self.session_id, seq: self.seq, kind, payload: self.payload, created_at, updated_at }),
    {
        Message { id: self.id, session_id: self.session_id, seq: self.seq, kind, payload: self.payload, created_at, updated_at }
    }

    /// The message a row holds. An unknown kind fails first, with the
    /// validation message; then a time that does not read fails.
    pub fn into_domain(self) -> (r: Result<Message, String>)
        ensures
            parse_kind(self.kind@) is None ==> (r matches Err(m)
                && m@ == "校验失败："@ + "未知消息类型："@ + self.kind@),
            parse_kind(self.kind@) is Some ==> (r is Ok <==> times_read(self.created_at@, self.updated_at@)),
            r matches Ok(msg) ==> {
                &&& Some(msg.created_at) == stored(self.created_at@)
                &&& Some(msg.updated_at) == stored(self.updated_at@)
                &&& Some(msg.kind) == parse_kind(self.kind@)
                &&& msg.id == self.id
                &&& msg.session_id == self.session_id
                &&& msg.seq == self.seq
                &&& msg.payload == self.payload
            },
    {
        let kind = match MessageKind::parse(self.kind.as_str()) {
            Ok(k) => k,
            Err(e) => return Err(e.message()),
        };
        let created_at = match parse_time(self.created_at.as_str()) {
            Ok(t) => t,
            Err(e) => return Err(e),
        };
        let updated_at = match parse_time(self.updated_at.as_str()) {
            Ok(t) => t,
            Err(e) => return Err(e),
        };
        Ok(self.with_times(kind, created_at, updated_at))
    }
}

} // verus!
