//! Sessions: consistent message numbering and context compaction.
use vstd::prelude::*;
use chrono::NaiveDateTime;

use crate::domain::session::message::{Message, MessageKind};
use crate::text::{chars_of, eq_str, owned, string_of, trim, trim_vec};

verus! {

/// Context use (percent) at which compaction is due.
pub const COMPACT_THRESHOLD: i64 = 90;

/// A session.
#[derive(Debug, Clone)]
pub struct Session {
    /// Primary key (filled after insert).
    pub id: i64,
    /// Project the session belongs to.
    pub project_id: i64,
    /// Title (derived from the first task).
    pub title: String,
    /// Context use in percent (0 to 100).
    pub ctx_percent: i64,
    /// Input tokens so far.
    pub input_tokens: i64,
    /// Output tokens so far.
    pub output_tokens: i64,
    /// Model chosen for this session, if any.
    pub preferred_model: Option<String>,
    /// Messages, in ascending `seq`.
    pub messages: Vec<Message>,
    /// Creation time.
    pub created_at: NaiveDateTime,
    /// Last update time.
    pub updated_at: NaiveDateTime,
    /// Soft-delete time.
    pub deleted_at: Option<NaiveDateTime>,
}

/// Messages numbered 1, 2, ... in order.
pub open spec fn seqs_contiguous(msgs: Seq<Message>) -> bool {
    forall|i: int| 0 <= i < msgs.len() ==> #[trigger] msgs[i].seq == i + 1
}

/// `text` trimmed, with line feeds turned into spaces.
pub open spec fn title_source(text: Seq<char>) -> Seq<char> {
    trim(text).map_values(|c: char| if c == '\n' { ' ' } else { c })
}

/// The title a first task gives: its first twenty characters.
pub open spec fn first_task_title(text: Seq<char>) -> Seq<char> {
    let t = title_source(text);
    if t.len() <= 20 {
        t
    } else {
        t.take(20)
    }
}

/// The messages compaction keeps: every user message and every message at
/// index `tail_start` or later, in order.
pub open spec fn kept_messages(msgs: Seq<Message>, tail_start: int) -> Seq<Message>
    decreases msgs.len(),
{
    if msgs.len() == 0 {
        msgs
    } else {
        let k = kept_messages(msgs.drop_last(), tail_start);
        if msgs.last().kind == MessageKind::User || msgs.len() - 1 >= tail_start {
            k.push(msgs.last())
        } else {
            k
        }
    }
}

/// Where the kept tail starts: the last 40% (rounded down) of `n` messages.
pub open spec fn tail_start(n: int) -> int {
    n - n * 40 / 100
}

impl Session {
    /// A new session (not stored yet), titled `新会话`.
    pub fn new(project_id: i64, now: NaiveDateTime) -> (s: Session)
        ensures
            s.id == 0,
            s.project_id == project_id,
            s.title@ == "新会话"@,
            s.ctx_percent == 0,
            s.input_tokens == 0,
            s.output_tokens == 0,
            s.preferred_model is None,
            s.messages@.len() == 0,
            s.created_at == now,
            s.updated_at == now,
            s.deleted_at is None,
    {
        Session {
            id: 0,
            project_id,
            title: owned("新会话"),
            ctx_percent: 0,
            input_tokens: 0,
            output_tokens: 0,
            preferred_model: None,
            messages: Vec::new(),
            created_at: now,
            updated_at: now,
            deleted_at: None,
        }
    }

    /// The first task titles a session still named `新会话` (first twenty
    /// characters, trimmed, line feeds as spaces); a blank task changes
    /// nothing, and so does any later task.
    pub fn apply_first_task_title(&mut self, text: &str)
        ensures
            (old(self).title@ == "新会话"@ && first_task_title(text@).len() > 0) ==> final(self).title@
                == first_task_title(text@),
            !(old(self).title@ == "新会话"@ && first_task_title(text@).len() > 0) ==> final(self).title
                == old(self).title,
            final(self).messages == old(self).messages,
            final(self).id == old(self).id,
            final(self).ctx_percent == old(self).ctx_percent,
    {
        if !eq_str(&chars_of(self.title.as_str()), "新会话") {
            return;
        }
        let t = trim_vec(&chars_of(text));
        let mut title: Vec<char> = Vec::new();
        let mut i: usize = 0;
        while i < t.len() && i < 20
            invariant
                i <= t.len(),
                i <= 20,
                title@ == title_source(text@).take(i as int),
                title_source(text@).len() == t@.len(),
                forall|k: int| 0 <= k < t.len() ==> #[trigger] title_source(text@)[k] == (if t@[k] == '\n' { ' ' } else { t@[k] }),
            decreases t.len() - i,
        {
            let c = if t[i] == '\n' {
                ' '
            } else {
                t[i]
            };
            title.push(c);
            assert(title_source(text@).take(i + 1) =~= title_source(text@).take(i as int).push(c));
            i = i + 1;
        }
        assert(title@ =~= first_task_title(text@));
        if title.len() > 0 {
            self.title = string_of(&title);
        }
    }

    /// Appends a message, numbering it one past the last message (1 for the
    /// first), and returns it.
    pub fn append_message(&mut self, message: Message) -> (r: &Message)
        requires
            old(self).messages@.len() > 0 ==> old(self).messages@.last().seq < i64::MAX,
        ensures
            final(self).messages@ == old(self).messages@.push(
                Message {
                    seq: if old(self).messages@.len() == 0 {
                        1
                    } else {
                        (old(self).messages@.last().seq + 1) as i64
                    },
                    ..message
                },
            ),
            *r == final(self).messages@.last(),
            final(self).id == old(self).id,
            final(self).title == old(self).title,
            final(self).ctx_percent == old(self).ctx_percent,
            final(self).input_tokens == old(self).input_tokens,
            final(self).output_tokens == old(self).output_tokens,
    {
        let mut message = message;
        message.seq = if self.messages.len() == 0 {
            1
        } else {
            self.messages[self.messages.len() - 1].seq + 1
        };
        self.messages.push(message);
        let n = self.messages.len();
        &self.messages[n - 1]
    }

    /// Whether compaction is due: context use at or above `threshold`.
    pub fn should_compact(&self, threshold: i64) -> (b: bool)
        ensures
            b == (self.ctx_percent >= threshold),
    {
        self.ctx_percent >= threshold
    }

    /// Compaction: keeps every user message and the most recent 40% of the
    /// messages, puts a system summary first, renumbers from 1, and returns
    /// how many messages were dropped.
    pub fn compact(&mut self, summary: String, now: NaiveDateTime) -> (removed: usize)
        requires
            old(self).messages@.len() < i64::MAX,
        ensures
            old(self).messages@.len() == 0 ==> (removed == 0 && *final(self) == *old(self)),
            old(self).messages@.len() > 0 ==> ({
                let kept = kept_messages(old(self).messages@, tail_start(old(self).messages@.len() as int));
                let msgs = final(self).messages@;
                &&& removed == old(self).messages@.len() - kept.len()
                &&& seqs_contiguous(msgs)
                &&& msgs.len() == kept.len() + 1
                &&& msgs[0] == (Message {
                    id: 0,
                    session_id: old(self).id,
                    seq: 1,
                    kind: MessageKind::System,
                    payload: summary,
                    created_at: now,
                    updated_at: now,
                })
                &&& forall|i: int| 1 <= i < msgs.len() ==> #[trigger] msgs[i] == (Message { seq: (i + 1) as i64, ..kept[i - 1] })
                &&& *final(self) == (Session { messages: final(self).messages, ..*old(self) })
            }),
    {
        let total = self.messages.len();
        if total == 0 {
            return 0;
        }
        let keep_tail = total / 100 * 40 + (total % 100) * 40 / 100;
        assert(keep_tail == total * 40 / 100) by (nonlinear_arith)
            requires keep_tail == total / 100 * 40 + (total % 100) * 40 / 100;
        let ts = total - keep_tail;
        let ghost old_msgs = self.messages@;
        let mut rest: Vec<Message> = Vec::new();
        std::mem::swap(&mut rest, &mut self.messages);
        let mut out: Vec<Message> = Vec::new();
        out.push(Message {
            id: 0,
            session_id: self.id,
            seq: 1,
            kind: MessageKind::System,
            payload: summary,
            created_at: now,
            updated_at: now,
        });
        let mut idx: usize = 0;
        let mut removed: usize = 0;
        assert(old_msgs.take(0) =~= Seq::<Message>::empty());
        assert(old_msgs.skip(0) =~= old_msgs);
        while rest.len() > 0
            invariant
                idx <= total,
                total == old_msgs.len(),
                total < i64::MAX,
                rest@ == old_msgs.skip(idx as int),
                out@.len() == kept_messages(old_msgs.take(idx as int), ts as int).len() + 1,
                removed == idx - kept_messages(old_msgs.take(idx as int), ts as int).len(),
                kept_messages(old_msgs.take(idx as int), ts as int).len() <= idx,
                out@[0] == (Message {
                    id: 0,
                    session_id: self.id,
                    seq: 1,
                    kind: MessageKind::System,
                    payload: summary,
                    created_at: now,
                    updated_at: now,
                }),
                forall|i: int| 1 <= i < out@.len() ==> #[trigger] out@[i] == (Message {
                    seq: (i + 1) as i64,
                    ..kept_messages(old_msgs.take(idx as int), ts as int)[i - 1]
                }),
            decreases rest.len(),
        {
            let mut m = rest.remove(0);
            let ghost k0 = kept_messages(old_msgs.take(idx as int), ts as int);
            proof {
                assert(old_msgs.take(idx + 1).drop_last() =~= old_msgs.take(idx as int));
                assert(old_msgs.take(idx + 1).last() == m);
                assert(rest@ =~= old_msgs.skip(idx + 1));
            }
            if m.kind == MessageKind::User || idx >= ts {
                let ghost m0 = m;
                assert(out.len() <= idx + 1 && idx < total);
                m.seq = out.len() as i64 + 1;
                out.push(m);
                assert(kept_messages(old_msgs.take(idx + 1), ts as int) == k0.push(m0));
            } else {
                removed = removed + 1;
                assert(kept_messages(old_msgs.take(idx + 1), ts as int) == k0);
            }
            idx = idx + 1;
        }
        assert(old_msgs.take(idx as int) =~= old_msgs);
        self.messages = out;
        removed
    }

    /// Adds token counts and sets the context use, clamped to 0..=100.
    pub fn update_usage(&mut self, input: i64, output: i64, ctx_percent: i64)
        requires
            i64::MIN <= old(self).input_tokens + input <= i64::MAX,
            i64::MIN <= old(self).output_tokens + output <= i64::MAX,
        ensures
            *final(self) == (Session {
                input_tokens: (old(self).input_tokens + input) as i64,
                output_tokens: (old(self).output_tokens + output) as i64,
                ctx_percent: if ctx_percent < 0 {
                    0
                } else if ctx_percent > 100 {
                    100
                } else {
                    ctx_percent
                },
                ..*old(self)
            }),
    {
        self.input_tokens = self.input_tokens + input;
        self.output_tokens = self.output_tokens + output;
        self.ctx_percent = if ctx_percent < 0 {
            0
        } else if ctx_percent > 100 {
            100
        } else {
            ctx_percent
        };
    }
}

/// Appending to messages numbered 1..n numbers the new one n + 1.
pub proof fn lemma_append_keeps_seqs(msgs: Seq<Message>, m: Message)
    requires
        seqs_contiguous(msgs),
        msgs.len() < i64::MAX,
    ensures
        seqs_contiguous(msgs.push(Message {
            seq: if msgs.len() == 0 {
                1
            } else {
                (msgs.last().seq + 1) as i64
            },
            ..m
        })),
{
}

/// Compaction keeps every user message: each one is among the kept
/// messages, whatever the tail.
pub proof fn lemma_compact_keeps_users(msgs: Seq<Message>, ts: int, i: int)
    requires
        0 <= i < msgs.len(),
        msgs[i].kind == MessageKind::User,
    ensures
        kept_messages(msgs, ts).contains(msgs[i]),
    decreases msgs.len(),
{
    if i < msgs.len() - 1 {
        lemma_compact_keeps_users(msgs.drop_last(), ts, i);
        let k = kept_messages(msgs.drop_last(), ts);
        let j = choose|j: int| 0 <= j < k.len() && k[j] == msgs[i];
        if msgs.last().kind == MessageKind::User || msgs.len() - 1 >= ts {
            assert(k.push(msgs.last())[j] == msgs[i]);
        }
    } else {
        let k = kept_messages(msgs.drop_last(), ts);
        assert(k.push(msgs.last())[k.len() as int] == msgs[i]);
    }
}

} // verus!
