//! Messages of a session (user / assistant / tool / approval / system) and the
//! images a user message may carry.
use vstd::prelude::*;
use chrono::NaiveDateTime;

use crate::domain::DomainError;
use crate::support::json::{json_get, json_parse, json_text, json_to_string, parse_json, str_value, Json};
use crate::text::{chars_of, concat_vec, eq_str, is_ascii_alnum, is_alnum, lower_seq, owned, string_of, to_ascii_lower, trim, trim_vec};

verus! {

/// Kind of a message.
#[derive(Debug, Clone, Copy, PartialEq, Eq, Structural)]
pub enum MessageKind {
    /// From the user.
    User,
    /// From the assistant (text or tool calls).
    Assistant,
    /// A tool result.
    Tool,
    /// An approval card.
    Approval,
    /// A system message (such as a compaction summary).
    System,
}

/// Storage string of a kind.
pub open spec fn kind_str(k: MessageKind) -> Seq<char> {
    match k {
        MessageKind::User => "user"@,
        MessageKind::Assistant => "assistant"@,
        MessageKind::Tool => "tool"@,
        MessageKind::Approval => "approval"@,
        MessageKind::System => "system"@,
    }
}

/// The kind a storage string names.
pub open spec fn parse_kind(s: Seq<char>) -> Option<MessageKind> {
    if s == "user"@ {
        Some(MessageKind::User)
    } else if s == "assistant"@ {
        Some(MessageKind::Assistant)
    } else if s == "tool"@ {
        Some(MessageKind::Tool)
    } else if s == "approval"@ {
        Some(MessageKind::Approval)
    } else if s == "system"@ {
        Some(MessageKind::System)
    } else {
        None
    }
}

impl MessageKind {
    /// Storage string.
    pub fn as_str(&self) -> (s: &'static str)
        ensures
            s@ == kind_str(*self),
    {
        match self {
            MessageKind::User => "user",
            MessageKind::Assistant => "assistant",
            MessageKind::Tool => "tool",
            MessageKind::Approval => "approval",
            MessageKind::System => "system",
        }
    }

    /// Parses a storage string; anything else is a validation error naming it.
    pub fn parse(s: &str) -> (r: Result<MessageKind, DomainError>)
        ensures
            match parse_kind(s@) {
                Some(k) => r == Ok::<MessageKind, DomainError>(k),
                None => r matches Err(DomainError::Validation(m)) && m@ == "未知消息类型："@ + s@,
            },
    {
        let v = chars_of(s);
        if eq_str(&v, "user") {
            Ok(MessageKind::User)
        } else if eq_str(&v, "assistant") {
            Ok(MessageKind::Assistant)
        } else if eq_str(&v, "tool") {
            Ok(MessageKind::Tool)
        } else if eq_str(&v, "approval") {
            Ok(MessageKind::Approval)
        } else if eq_str(&v, "system") {
            Ok(MessageKind::System)
        } else {
            let m = concat_vec(&chars_of("未知消息类型："), &v);
            Err(DomainError::Validation(string_of(&m)))
        }
    }
}

/// Parsing a kind's storage string gives the kind back.
pub proof fn lemma_kind_roundtrip(k: MessageKind)
    ensures
        parse_kind(kind_str(k)) == Some(k),
{
    reveal_strlit("user");
    reveal_strlit("assistant");
    reveal_strlit("tool");
    reveal_strlit("approval");
    reveal_strlit("system");
    assert("user"@.len() == 4 && "tool"@.len() == 4 && "user"@[0] != "tool"@[0]);
    assert("assistant"@.len() == 9 && "approval"@.len() == 8 && "system"@.len() == 6);
}

/// A message of a session.
#[derive(Debug, Clone)]
pub struct Message {
    /// Primary key (filled after insert).
    pub id: i64,
    /// Session it belongs to.
    pub session_id: i64,
    /// Sequence number within the session.
    pub seq: i64,
    /// Kind.
    pub kind: MessageKind,
    /// JSON payload (text, or a tool / approval card).
    pub payload: String,
    /// Creation time.
    pub created_at: NaiveDateTime,
    /// Last update time.
    pub updated_at: NaiveDateTime,
}

/// An image embedded in a user message (MIME type and base64 data without a
/// `data:` prefix).
#[derive(Debug, Clone)]
pub struct MessageImage {
    /// MIME type.
    pub mime: String,
    /// Base64 data.
    pub data: String,
}

/// The normalised MIME type: `image/jpg` in any case becomes `image/jpeg`,
/// anything else is trimmed and lower-cased.
pub open spec fn normalized_mime(mime: Seq<char>) -> Seq<char> {
    if lower_seq(mime) == "image/jpg"@ {
        "image/jpeg"@
    } else {
        lower_seq(trim(mime))
    }
}

/// The accepted MIME types.
pub open spec fn allowed_mime(m: Seq<char>) -> bool {
    m == "image/png"@ || m == "image/jpeg"@ || m == "image/webp"@ || m == "image/gif"@
}

/// A base64 alphabet character (or padding).
pub open spec fn is_b64_char(c: char) -> bool {
    is_alnum(c) || c == '+' || c == '/' || c == '='
}

/// Number of trailing `=` characters.
pub open spec fn trailing_pad(s: Seq<char>) -> nat
    decreases s.len(),
{
    if s.len() > 0 && s.last() == '=' {
        1 + trailing_pad(s.drop_last())
    } else {
        0
    }
}

/// Whether `data` passes the base64 shape check: non-empty, at most the
/// limit, a multiple of four long, at most two padding characters at the
/// end, and only base64 characters.
pub open spec fn b64_shape_ok(data: Seq<char>) -> bool {
    &&& 0 < data.len() <= 8_000_000
    &&& data.len() % 4 == 0
    &&& trailing_pad(data) <= 2
    &&& forall|i: int| 0 <= i < data.len() ==> is_b64_char(#[trigger] data[i])
}

impl MessageImage {
    /// Largest accepted base64 length (about 6 MB of image).
    pub const MAX_B64_LEN: usize = 8_000_000;

    /// The accepted MIME types.
    pub fn allowed_mimes() -> (r: Vec<&'static str>)
        ensures
            r@.len() == 4,
            r@[0]@ == "image/png"@,
            r@[1]@ == "image/jpeg"@,
            r@[2]@ == "image/webp"@,
            r@[3]@ == "image/gif"@,
    {
        vec!["image/png", "image/jpeg", "image/webp", "image/gif"]
    }

    /// Validates and builds an image: the MIME type is normalised and must be
    /// accepted, and the data must have the base64 shape. `None` otherwise.
    pub fn parse(mime: &str, data: &str) -> (r: Option<MessageImage>)
        ensures
            match r {
                Some(img) => allowed_mime(normalized_mime(mime@)) && b64_shape_ok(data@)
                    && img.mime@ == normalized_mime(mime@) && img.data@ == data@,
                None => !(allowed_mime(normalized_mime(mime@)) && b64_shape_ok(data@)),
            },
    {
        let mv = chars_of(mime);
        let lowered = to_ascii_lower(&mv);
        let norm = if eq_str(&lowered, "image/jpg") {
            chars_of("image/jpeg")
        } else {
            to_ascii_lower(&trim_vec(&mv))
        };
        if !(eq_str(&norm, "image/png") || eq_str(&norm, "image/jpeg") || eq_str(&norm, "image/webp")
            || eq_str(&norm, "image/gif")) {
            return None;
        }
        let d = chars_of(data);
        if d.len() == 0 || d.len() > Self::MAX_B64_LEN {
            return None;
        }
        let mut n = d.len();
        let mut pad: usize = 0;
        assert(d@.take(n as int) =~= d@);
        while n > 0 && d[n - 1] == '='
            invariant
                n <= d.len(),
                pad + n == d.len(),
                trailing_pad(d@) == pad + trailing_pad(d@.take(n as int)),
            decreases n,
        {
            assert(d@.take(n as int).drop_last() =~= d@.take(n - 1));
            n = n - 1;
            pad = pad + 1;
        }
        if d.len() % 4 != 0 || pad > 2 {
            return None;
        }
        for i in 0..d.len()
            invariant
                d@ == data@,
                forall|k: int| 0 <= k < i ==> is_b64_char(#[trigger] d@[k]),
        {
            let c = d[i];
            if !(is_ascii_alnum(c) || c == '+' || c == '/' || c == '=') {
                return None;
            }
        }
        Some(MessageImage { mime: string_of(&norm), data: owned(data) })
    }
}

/// Whether `j` is the object `{"text": text}`.
pub open spec fn is_text_object(j: Json, text: Seq<char>) -> bool {
    &&& j matches Json::Object(m)
    &&& m@.len() == 1
    &&& m@[0].0@ == "text"@
    &&& str_value(Some(m@[0].1)) == Some(text)
}

/// Whether `j` is the object `{"mime": .., "data": ..}` of `img`.
pub open spec fn is_image_object(j: Json, img: MessageImage) -> bool {
    &&& j matches Json::Object(m)
    &&& m@.len() == 2
    &&& m@[0].0@ == "mime"@
    &&& str_value(Some(m@[0].1)) == Some(img.mime@)
    &&& m@[1].0@ == "data"@
    &&& str_value(Some(m@[1].1)) == Some(img.data@)
}

/// The text of a payload `{"text": ...}`, if it is one.
pub open spec fn payload_text(payload: Seq<char>) -> Option<Seq<char>> {
    match json_parse(payload) {
        Some(j) => str_value(json_get(j, "text"@)),
        None => None,
    }
}

fn text_object(text: &str) -> (j: Json)
    ensures
        is_text_object(j, text@),
{
    let mut m: Vec<(String, Json)> = Vec::new();
    m.push((owned("text"), Json::Str(owned(text))));
    Json::Object(m)
}

impl Message {
    /// A new message (its `seq` is assigned when the session appends it).
    pub fn new(session_id: i64, kind: MessageKind, payload: String, now: NaiveDateTime) -> (m: Message)
        ensures
            m == (Message { id: 0, session_id, seq: 0, kind, payload, created_at: now, updated_at: now }),
    {
        Message { id: 0, session_id, seq: 0, kind, payload, created_at: now, updated_at: now }
    }

    /// The plain text of a `{"text": ...}` payload; `None` for other payloads.
    pub fn text(&self) -> (r: Option<String>)
        ensures
            match r {
                Some(t) => payload_text(self.payload@) == Some(t@),
                None => payload_text(self.payload@) is None,
            },
    {
        let j = match parse_json(self.payload.as_str()) {
            Ok(j) => j,
            Err(_) => return None,
        };
        match j.get("text") {
            Some(t) => match t.as_str() {
                Some(s) => Some(owned(s)),
                None => None,
            },
            None => None,
        }
    }

    /// The payload `{"text": text}`.
    pub fn text_payload(text: &str) -> (r: String)
        ensures
            exists|j: Json| is_text_object(j, text@) && r@ == json_text(j),
    {
        let j = text_object(text);
        json_to_string(&j)
    }

    /// The payload of a user message: as [`Message::text_payload`] without
    /// images; otherwise `{"text": .., "images": [{"mime", "data"}, ..]}`
    /// with the images in order.
    pub fn user_payload(text: &str, images: &[MessageImage]) -> (r: String)
        ensures
            images@.len() == 0 ==> exists|j: Json| is_text_object(j, text@) && r@ == json_text(j),
            images@.len() > 0 ==> exists|j: Json| #[trigger] json_text(j) == r@ && (j matches Json::Object(m) && m@.len() == 2
                && m@[0].0@ == "text"@ && str_value(Some(m@[0].1)) == Some(text@) && m@[1].0@
                == "images"@ && (m@[1].1 matches Json::Array(a) && a@.len() == images@.len() && forall|i: int|
                0 <= i < a@.len() ==> is_image_object(#[trigger] a@[i], images@[i]))),
    {
        if images.len() == 0 {
            return Message::text_payload(text);
        }
        let mut arr: Vec<Json> = Vec::new();
        for i in 0..images.len()
            invariant
                arr@.len() == i,
                forall|k: int| 0 <= k < i ==> is_image_object(#[trigger] arr@[k], images@[k]),
        {
            let mut m: Vec<(String, Json)> = Vec::new();
            m.push((owned("mime"), Json::Str(owned(images[i].mime.as_str()))));
            m.push((owned("data"), Json::Str(owned(images[i].data.as_str()))));
            arr.push(Json::Object(m));
        }
        let mut top: Vec<(String, Json)> = Vec::new();
        top.push((owned("text"), Json::Str(owned(text))));
        top.push((owned("images"), Json::Array(arr)));
        let j = Json::Object(top);
        let r = json_to_string(&j);
        assert(json_text(j) == r@);
        r
    }
}

} // verus!
