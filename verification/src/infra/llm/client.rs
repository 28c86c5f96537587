//! The logic of the streaming chat client: request messages, the line
//! buffer of the event stream, and the assembly of the assistant's turn from
//! streamed chunks. Sending, receiving and JSON text are the caller's.
use vstd::prelude::*;

use crate::domain::agent::event::TokenUsage;
use crate::domain::agent::llm::{AssistantTurn, ChatMessage, ChatRole, ChatToolCall, LlmError};
use crate::infra::llm::protocol::{ErrorBody, ErrorDetail, 
    ChatChunk, ChunkChoice, ChunkDelta, ChunkToolCall, ReqFunction, ReqMessage, ReqToolCall,
};
use crate::support::num::{i64_text, int_text};
use crate::text::{
    chars_of, eq_str, extend_str, extend_vec, first_index_of, has_prefix, is_blank, owned,
    slice_vec, starts_with_str, string_of, trim, trim_vec, lemma_first_index_of,
};

verus! {

/// The wire name of a role.
pub open spec fn role_name(r: ChatRole) -> Seq<char> {
    match r {
        ChatRole::User => "user"@,
        ChatRole::Assistant => "assistant"@,
        ChatRole::Tool => "tool"@,
        ChatRole::System => "system"@,
    }
}

fn copy_opt(s: &Option<String>) -> (r: Option<String>)
    ensures
        r == *s,
{
    match s {
        Some(x) => Some(x.clone()),
        None => None,
    }
}

/// Whether `r` is the wire form of the tool call `tc`.
pub open spec fn is_req_tool_call(r: ReqToolCall, tc: ChatToolCall) -> bool {
    r.id == tc.id && r.kind@ == "function"@ && r.function.name == tc.name && r.function.arguments
        == tc.arguments
}

/// A message in wire form: its role's name; no content for a message that
/// only carries tool calls; its tool calls, if any, as `function` calls.
pub fn to_req_message(m: &ChatMessage) -> (r: ReqMessage)
    ensures
        r.role@ == role_name(m.role),
        r.content == (if m.content@.len() == 0 && m.tool_calls@.len() > 0 {
            None
        } else {
            Some(m.content)
        }),
        m.tool_calls@.len() == 0 ==> r.tool_calls is None,
        m.tool_calls@.len() > 0 ==> (r.tool_calls matches Some(v) && v@.len() == m.tool_calls@.len()
            && forall|i: int| 0 <= i < v@.len() ==> is_req_tool_call(#[trigger] v@[i], m.tool_calls@[i])),
        r.tool_call_id == m.tool_call_id,
{
    let role = match m.role {
        ChatRole::User => "user",
        ChatRole::Assistant => "assistant",
        ChatRole::Tool => "tool",
        ChatRole::System => "system",
    };
    let empty = chars_of(m.content.as_str()).len() == 0;
    let content = if empty && m.tool_calls.len() > 0 {
        None
    } else {
        Some(m.content.clone())
    };
    let tool_calls = if m.tool_calls.len() == 0 {
        None
    } else {
        let mut v: Vec<ReqToolCall> = Vec::new();
        for i in 0..m.tool_calls.len()
            invariant
                v@.len() == i,
                forall|k: int| 0 <= k < i ==> is_req_tool_call(#[trigger] v@[k], m.tool_calls@[k]),
        {
            let tc = &m.tool_calls[i];
            v.push(ReqToolCall {
                id: tc.id.clone(),
                kind: owned("function"),
                function: ReqFunction { name: tc.name.clone(), arguments: tc.arguments.clone() },
            });
        }
        Some(v)
    };
    ReqMessage { role: owned(role), content, tool_calls, tool_call_id: copy_opt(&m.tool_call_id) }
}

/// The `chat/completions` address under a base URL.
pub fn completions_url(base_url: &str) -> (r: String)
    ensures
        r@ == base_url@ + "/chat/completions"@,
{
    let mut v = chars_of(base_url);
    extend_str(&mut v, "/chat/completions");
    string_of(&v)
}

/// The payload of a stream line: for a `data:` line (trimmed, not a
/// comment) the trimmed text after the prefix.
pub open spec fn data_of_line(raw: Seq<char>) -> Option<Seq<char>> {
    let l = trim(raw);
    if l.len() == 0 || has_prefix(l, ":"@) {
        None
    } else if has_prefix(l, "data:"@) {
        Some(trim(l.skip(5)))
    } else {
        None
    }
}

/// The payloads of the complete lines of `text`, in order, stopping after a
/// `[DONE]` payload: the text left over and the payloads.
pub open spec fn data_lines(text: Seq<char>) -> (Seq<char>, Seq<Seq<char>>)
    decreases text.len(),
{
    match first_index_of(text, '\n') {
        None => (text, Seq::empty()),
        Some(p) => if 0 <= p < text.len() {
            let rest = text.skip(p + 1);
            match data_of_line(text.take(p + 1)) {
                Some(d) => if d == "[DONE]"@ {
                    (rest, Seq::empty())
                } else {
                    let x = data_lines(rest);
                    (x.0, seq![d] + x.1)
                },
                None => data_lines(rest),
            }
        } else {
            (text, Seq::empty())
        },
    }
}

/// Line buffer of the event stream of a chat completion.
#[derive(Debug)]
pub struct StreamLines {
    buf: String,
}


impl StreamLines {
    /// Text not yet ended by a line feed.
    pub closed spec fn buffered(&self) -> Seq<char> {
        self.buf@
    }

    /// An empty buffer.
    pub fn new() -> (s: StreamLines)
        ensures
            s.buffered().len() == 0,
    {
        StreamLines { buf: String::new() }
    }

    /// Feeds received text; returns the payloads of the complete `data:`
    /// lines (see [`data_lines`], over the buffered text and the piece).
    pub fn feed(&mut self, chunk: &str) -> (out: Vec<String>)
        ensures
            ({
                let d = data_lines(old(self).buffered() + chunk@);
                &&& out@.map_values(|s: String| s@) == d.1
                &&& final(self).buffered() == d.0
            }),
    {
        let mut text = chars_of(self.buf.as_str());
        extend_str(&mut text, chunk);
        let ghost whole = text@;
        let mut out: Vec<String> = Vec::new();
        let mut start: usize = 0;
        assert(whole.skip(0) =~= whole);
        assert(out@.map_values(|s: String| s@) =~= Seq::<Seq<char>>::empty());
        loop
            invariant_except_break
                data_lines(whole).0 == data_lines(whole.skip(start as int)).0,
                data_lines(whole).1 == out@.map_values(|s: String| s@) + data_lines(whole.skip(start as int)).1,
            invariant
                whole == text@,
                start <= text.len(),
            ensures
                start <= text.len(),
                data_lines(whole).0 == whole.skip(start as int),
                data_lines(whole).1 == out@.map_values(|s: String| s@),
            decreases text.len() - start,
        {
            let pos = match crate::text::find_char_from(&text, '\n', start) {
                Some(p) => p,
                None => {
                    assert(data_lines(whole.skip(start as int)).1 =~= Seq::<Seq<char>>::empty());
                    assert(out@.map_values(|s: String| s@) + Seq::<Seq<char>>::empty() =~= out@.map_values(|s: String| s@));
                    break;
                },
            };
            let ghost t = whole.skip(start as int);
            let raw = slice_vec(&text, start, pos + 1);
            proof {
                assert(raw@ =~= t.take(pos - start + 1));
                assert(t.skip(pos - start + 1) =~= whole.skip(pos + 1));
            }
            let l = trim_vec(&raw);
            let next = pos + 1;
            if l.len() == 0 || starts_with_str(&l, ":") || !starts_with_str(&l, "data:") {
                start = next;
                continue;
            }
            proof {
                reveal_strlit("data:");
            }
            let d0 = slice_vec(&l, 5, l.len());
            assert(d0@ =~= l@.skip(5));
            let d = trim_vec(&d0);
            if eq_str(&d, "[DONE]") {
                proof {
                    assert(data_lines(whole.skip(start as int)).0 == whole.skip(pos + 1));
                }
                start = next;
                assert(out@.map_values(|s: String| s@) + Seq::<Seq<char>>::empty() =~= out@.map_values(|s: String| s@));
                break;
            }
            let ghost before = out@;
            out.push(string_of(&d));
            proof {
                assert(out@.map_values(|s: String| s@) =~= before.map_values(|s: String| s@).push(d@));
                let x = data_lines(whole.skip(pos + 1));
                assert(before.map_values(|s: String| s@) + (seq![d@] + x.1) =~= out@.map_values(|s: String| s@) + x.1);
            }
            start = next;
        }
        let rest = slice_vec(&text, start, text.len());
        assert(rest@ =~= whole.skip(start as int));
        self.buf = string_of(&rest);
        out
    }
}

/// Whether reading the complete lines of `text` stops at a `[DONE]`
/// payload.
pub open spec fn done_in(text: Seq<char>) -> bool
    decreases text.len(),
{
    match first_index_of(text, '\n') {
        None => false,
        Some(p) => if 0 <= p < text.len() {
            match data_of_line(text.take(p + 1)) {
                Some(d) => d == "[DONE]"@ || done_in(text.skip(p + 1)),
                None => done_in(text.skip(p + 1)),
            }
        } else {
            false
        },
    }
}

/// Feeding the stream in two pieces gives the payloads of feeding it at
/// once, and leaves the same text buffered, unless the first piece ends the
/// stream with `[DONE]`: then the second piece is only buffered.
pub proof fn lemma_data_lines_split(t: Seq<char>, b: Seq<char>)
    ensures
        ({
            let first = data_lines(t);
            let second = data_lines(first.0 + b);
            let whole = data_lines(t + b);
            &&& !done_in(t) ==> whole.0 == second.0 && whole.1 == first.1 + second.1
            &&& done_in(t) ==> whole.0 == first.0 + b && whole.1 == first.1
        }),
    decreases t.len(),
{
    lemma_first_index_of(t, '\n');
    lemma_first_index_of(t + b, '\n');
    match first_index_of(t, '\n') {
        None => {
            assert(data_lines(t).0 + b =~= t + b);
            assert(Seq::<Seq<char>>::empty() + data_lines(t + b).1 =~= data_lines(t + b).1);
        },
        Some(p) => {
            assert((t + b)[p] == '\n');
            assert forall|k: int| 0 <= k < p implies (t + b)[k] != '\n' by {
                assert((t + b)[k] == t[k]);
            }
            assert(first_index_of(t + b, '\n') == Some(p));
            assert((t + b).take(p + 1) =~= t.take(p + 1));
            assert((t + b).skip(p + 1) =~= t.skip(p + 1) + b);
            let rest = t.skip(p + 1);
            lemma_data_lines_split(rest, b);
            let ra = data_lines(rest);
            let rb = data_lines(ra.0 + b);
            match data_of_line(t.take(p + 1)) {
                Some(d) => {
                    if d != "[DONE]"@ {
                        assert(seq![d] + ra.1 + rb.1 =~= seq![d] + (ra.1 + rb.1));
                    }
                },
                None => {},
            }
        },
    }
}

/// A piece of streamed output for the caller to show.
#[derive(Debug)]
pub enum StreamDelta {
    /// Text.
    Text(String),
    /// Reasoning.
    Thinking(String),
}

/// A tool call being assembled.
pub struct AccView {
    pub id: Seq<char>,
    pub name: Seq<char>,
    pub arguments: Seq<char>,
}

/// A tool call being assembled from pieces.
#[derive(Debug)]
pub struct ToolCallAcc {
    /// Call id.
    pub id: String,
    /// Tool name.
    pub name: String,
    /// Argument text so far.
    pub arguments: String,
}

/// The views of calls being assembled.
pub open spec fn acc_views(v: Seq<ToolCallAcc>) -> Seq<AccView> {
    v.map_values(|a: ToolCallAcc| AccView { id: a.id@, name: a.name@, arguments: a.arguments@ })
}

/// One piece applied: calls are created up to its index; the id and name
/// replace the call's, the argument text is appended.
pub open spec fn acc_step(accs: Seq<AccView>, tc: ChunkToolCall) -> Seq<AccView> {
    let idx = match tc.index {
        Some(i) => i as int,
        None => 0,
    };
    let ext = if accs.len() <= idx {
        accs + Seq::new((idx + 1 - accs.len()) as nat, |i: int| AccView { id: Seq::empty(), name: Seq::empty(), arguments: Seq::empty() })
    } else {
        accs
    };
    let a = ext[idx];
    let (name, args) = match tc.function {
        Some(f) => (
            match f.name {
                Some(n) => n@,
                None => a.name,
            },
            match f.arguments {
                Some(x) => a.arguments + x@,
                None => a.arguments,
            },
        ),
        None => (a.name, a.arguments),
    };
    ext.update(idx, AccView {
        id: match tc.id {
            Some(x) => x@,
            None => a.id,
        },
        name,
        arguments: args,
    })
}

/// The pieces of tool calls applied in order.
pub open spec fn acc_steps(accs: Seq<AccView>, tcs: Seq<ChunkToolCall>) -> Seq<AccView>
    decreases tcs.len(),
{
    if tcs.len() == 0 {
        accs
    } else {
        acc_step(acc_steps(accs, tcs.drop_last()), tcs.last())
    }
}

/// The non-empty text of an optional piece.
pub open spec fn nonempty(s: Option<String>) -> Option<Seq<char>> {
    match s {
        Some(x) => if x@.len() > 0 {
            Some(x@)
        } else {
            None
        },
        None => None,
    }
}

/// The reasoning piece of an increment: `reasoning_content`, else
/// `reasoning`.
pub open spec fn thinking_of(d: ChunkDelta) -> Option<String> {
    match d.reasoning_content {
        Some(x) => Some(x),
        None => d.reasoning,
    }
}

/// The assembly state: text, reasoning, calls, and the pieces shown so far
/// (`true` for text, `false` for reasoning).
pub struct TurnView {
    pub text: Seq<char>,
    pub thinking: Seq<char>,
    pub accs: Seq<AccView>,
    pub shown: Seq<(bool, Seq<char>)>,
}

/// One choice applied.
pub open spec fn choice_step(t: TurnView, c: ChunkChoice) -> TurnView {
    match c.delta {
        None => t,
        Some(d) => {
            let t1 = match nonempty(d.content) {
                Some(x) => TurnView { text: t.text + x, shown: t.shown.push((true, x)), ..t },
                None => t,
            };
            let t2 = match nonempty(thinking_of(d)) {
                Some(x) => TurnView { thinking: t1.thinking + x, shown: t1.shown.push((false, x)), ..t1 },
                None => t1,
            };
            match d.tool_calls {
                Some(tcs) => TurnView { accs: acc_steps(t2.accs, tcs@), ..t2 },
                None => t2,
            }
        },
    }
}

/// The choices applied in order.
pub open spec fn choice_steps(t: TurnView, cs: Seq<ChunkChoice>) -> TurnView
    decreases cs.len(),
{
    if cs.len() == 0 {
        t
    } else {
        choice_step(choice_steps(t, cs.drop_last()), cs.last())
    }
}

/// Whether every tool call piece of a chunk has an index below the largest
/// `usize` (so that the calls up to it can be counted).
pub open spec fn indices_bounded(c: ChatChunk) -> bool {
    forall|i: int| 0 <= i < c.choices@.len() ==> match (#[trigger] c.choices@[i]).delta {
        Some(d) => match d.tool_calls {
            Some(tcs) => forall|j: int| 0 <= j < tcs@.len() ==> match (#[trigger] tcs@[j]).index {
                Some(n) => n < usize::MAX,
                None => true,
            },
            None => true,
        },
        None => true,
    }
}

/// Assembly of one assistant turn from streamed chunks.
#[derive(Debug)]
pub struct TurnAssembler {
    text: String,
    thinking: String,
    usage: Option<TokenUsage>,
    accs: Vec<ToolCallAcc>,
}

/// The views of shown pieces.
pub open spec fn delta_views(v: Seq<StreamDelta>) -> Seq<(bool, Seq<char>)> {
    v.map_values(|d: StreamDelta| match d {
        StreamDelta::Text(s) => (true, s@),
        StreamDelta::Thinking(s) => (false, s@),
    })
}

impl TurnAssembler {
    /// The assembly state (with nothing shown yet).
    pub closed spec fn view_state(&self) -> TurnView {
        TurnView {
            text: self.text@,
            thinking: self.thinking@,
            accs: acc_views(self.accs@),
            shown: Seq::empty(),
        }
    }

    /// The token use reported so far.
    pub closed spec fn usage_so_far(&self) -> Option<TokenUsage> {
        self.usage
    }

    /// Nothing assembled yet.
    pub fn new() -> (a: TurnAssembler)
        ensures
            a.view_state() == (TurnView {
                text: Seq::empty(),
                thinking: Seq::empty(),
                accs: Seq::empty(),
                shown: Seq::empty(),
            }),
            a.usage_so_far() is None,
    {
        let a = TurnAssembler { text: String::new(), thinking: String::new(), usage: None, accs: Vec::new() };
        assert(acc_views(a.accs@) =~= Seq::<AccView>::empty());
        a
    }

    fn apply_tool_call(&mut self, tc: ChunkToolCall)
        requires
            match tc.index {
                Some(n) => n < usize::MAX,
                None => true,
            },
        ensures
            acc_views(final(self).accs@) == acc_step(acc_views(old(self).accs@), tc),
            final(self).text == old(self).text,
            final(self).thinking == old(self).thinking,
            final(self).usage == old(self).usage,
    {
        let ghost a0 = acc_views(self.accs@);
        let idx: usize = match tc.index {
            Some(i) => i,
            None => 0,
        };
        let ghost ext = if a0.len() <= idx {
            a0 + Seq::new((idx + 1 - a0.len()) as nat, |i: int| AccView { id: Seq::empty(), name: Seq::empty(), arguments: Seq::empty() })
        } else {
            a0
        };
        let ghost n0 = self.accs.len();
        while self.accs.len() <= idx
            invariant
                idx < usize::MAX,
                n0 == a0.len(),
                n0 <= self.accs.len(),
                self.accs.len() <= (if n0 <= idx { idx + 1 } else { n0 as int }),
                acc_views(self.accs@) == ext.take(self.accs.len() as int),
                ext == (if a0.len() <= idx {
                    a0 + Seq::new((idx + 1 - a0.len()) as nat, |i: int| AccView { id: Seq::empty(), name: Seq::empty(), arguments: Seq::empty() })
                } else {
                    a0
                }),
                ext.len() == (if a0.len() <= idx { idx + 1 } else { a0.len() as int }),
                self.text == old(self).text,
                self.thinking == old(self).thinking,
                self.usage == old(self).usage,
            decreases idx + 1 - self.accs.len(),
        {
            let ghost before = acc_views(self.accs@);
            let ghost k = self.accs.len() as int;
            assert(ext[k] == (AccView { id: Seq::empty(), name: Seq::empty(), arguments: Seq::empty() })) by {
                assert(ext[k] == Seq::new((idx + 1 - a0.len()) as nat, |i: int| AccView { id: Seq::empty(), name: Seq::empty(), arguments: Seq::empty() })[k - a0.len()]);
            }
            self.accs.push(ToolCallAcc { id: String::new(), name: String::new(), arguments: String::new() });
            assert(acc_views(self.accs@) =~= before.push(ext[k]));
            assert(ext.take(k + 1) =~= ext.take(k).push(ext[k]));
        }
        assert(acc_views(self.accs@) =~= ext);
        let mut acc = self.accs.remove(idx);
        match tc.id {
            Some(id) => {
                acc.id = id;
            },
            None => {},
        }
        match tc.function {
            Some(f) => {
                match f.name {
                    Some(n) => {
                        acc.name = n;
                    },
                    None => {},
                }
                match f.arguments {
                    Some(x) => {
                        let mut v = chars_of(acc.arguments.as_str());
                        extend_str(&mut v, x.as_str());
                        acc.arguments = string_of(&v);
                    },
                    None => {},
                }
            },
            None => {},
        }
        let ghost removed = acc_views(self.accs@);
        self.accs.insert(idx, acc);
        assert(acc_views(self.accs@) =~= acc_step(a0, tc));
    }

    /// Applies a chunk: its token use (missing counts as 0) replaces the
    /// earlier one; each choice's non-empty text and reasoning are appended
    /// and shown in order, and its tool call pieces are assembled.
    pub fn apply(&mut self, chunk: ChatChunk) -> (shown: Vec<StreamDelta>)
        requires
            indices_bounded(chunk),
        ensures
            ({
                let t = choice_steps(old(self).view_state(), chunk.choices@);
                &&& final(self).view_state() == (TurnView { shown: Seq::empty(), ..t })
                &&& delta_views(shown@) == t.shown
            }),
            final(self).usage_so_far() == (match chunk.usage {
                Some(u) => Some(TokenUsage {
                    input: match u.prompt_tokens {
                        Some(x) => x,
                        None => 0,
                    },
                    output: match u.completion_tokens {
                        Some(x) => x,
                        None => 0,
                    },
                }),
                None => old(self).usage_so_far(),
            }),
    {
        let ChatChunk { choices, usage } = chunk;
        match usage {
            Some(u) => {
                let input = match u.prompt_tokens {
                    Some(x) => x,
                    None => 0,
                };
                let output = match u.completion_tokens {
                    Some(x) => x,
                    None => 0,
                };
                self.usage = Some(TokenUsage { input, output });
            },
            None => {},
        }
        let ghost all = choices@;
        let ghost start = self.view_state();
        let mut shown: Vec<StreamDelta> = Vec::new();
        let mut rest = choices;
        let total = rest.len();
        let mut n: usize = 0;
        assert(all.take(0) =~= Seq::<ChunkChoice>::empty());
        assert(all.skip(0) =~= all);
        while rest.len() > 0
            invariant
                n <= all.len(),
                all.len() == total,
                rest@ == all.skip(n as int),
                forall|i: int| 0 <= i < all.len() ==> match (#[trigger] all[i]).delta {
                    Some(d) => match d.tool_calls {
                        Some(tcs) => forall|j: int| 0 <= j < tcs@.len() ==> match (#[trigger] tcs@[j]).index {
                            Some(k) => k < usize::MAX,
                            None => true,
                        },
                        None => true,
                    },
                    None => true,
                },
                ({
                    let t = choice_steps(start, all.take(n as int));
                    &&& self.view_state() == (TurnView { shown: Seq::empty(), ..t })
                    &&& delta_views(shown@) == t.shown
                }),
                self.usage == (match usage {
                    Some(u) => Some(TokenUsage {
                        input: match u.prompt_tokens {
                            Some(x) => x,
                            None => 0,
                        },
                        output: match u.completion_tokens {
                            Some(x) => x,
                            None => 0,
                        },
                    }),
                    None => old(self).usage,
                }),
            decreases rest.len(),
        {
            let c = rest.remove(0);
            proof {
                assert(all.skip(n as int)[0] == c);
                assert(all.take(n + 1).drop_last() =~= all.take(n as int));
                assert(all.take(n + 1).last() == c);
                assert(rest@ =~= all.skip(n + 1));
            }
            let ghost t0 = choice_steps(start, all.take(n as int));
            match c.delta {
                None => {},
                Some(d) => {
                    let ChunkDelta { content, reasoning_content, reasoning, tool_calls } = d;
                    match content {
                        Some(x) => {
                            if chars_of(x.as_str()).len() > 0 {
                                let mut v = chars_of(self.text.as_str());
                                extend_str(&mut v, x.as_str());
                                self.text = string_of(&v);
                                let ghost before = shown@;
                                shown.push(StreamDelta::Text(x));
                                assert(delta_views(shown@) =~= delta_views(before).push((true, shown@.last()->Text_0@)));
                            }
                        },
                        None => {},
                    }
                    let thinking = match reasoning_content {
                        Some(x) => Some(x),
                        None => reasoning,
                    };
                    match thinking {
                        Some(x) => {
                            if chars_of(x.as_str()).len() > 0 {
                                let mut v = chars_of(self.thinking.as_str());
                                extend_str(&mut v, x.as_str());
                                self.thinking = string_of(&v);
                                let ghost before = shown@;
                                shown.push(StreamDelta::Thinking(x));
                                assert(delta_views(shown@) =~= delta_views(before).push((false, shown@.last()->Thinking_0@)));
                            }
                        },
                        None => {},
                    }
                    match tool_calls {
                        Some(tcs) => {
                            let ghost all_tcs = tcs@;
                            let ghost a_start = acc_views(self.accs@);
                            let ghost text0 = self.text;
                            let ghost thinking0 = self.thinking;
                            let ghost usage0 = self.usage;
                            let mut trest = tcs;
                            let ttotal = trest.len();
                            let mut m: usize = 0;
                            assert(all_tcs.take(0) =~= Seq::<ChunkToolCall>::empty());
                            assert(all_tcs.skip(0) =~= all_tcs);
                            while trest.len() > 0
                                invariant
                                    m <= all_tcs.len(),
                                    all_tcs.len() == ttotal,
                                    trest@ == all_tcs.skip(m as int),
                                    forall|j: int| 0 <= j < all_tcs.len() ==> match (#[trigger] all_tcs[j]).index {
                                        Some(k) => k < usize::MAX,
                                        None => true,
                                    },
                                    acc_views(self.accs@) == acc_steps(a_start, all_tcs.take(m as int)),
                                    self.text == text0,
                                    self.thinking == thinking0,
                                    self.usage == usage0,
                                decreases trest.len(),
                            {
                                let tc = trest.remove(0);
                                proof {
                                    assert(all_tcs.skip(m as int)[0] == tc);
                                    assert(all_tcs.take(m + 1).drop_last() =~= all_tcs.take(m as int));
                                    assert(all_tcs.take(m + 1).last() == tc);
                                    assert(trest@ =~= all_tcs.skip(m + 1));
                                }
                                self.apply_tool_call(tc);
                                m = m + 1;
                            }
                            assert(all_tcs.take(m as int) =~= all_tcs);
                        },
                        None => {},
                    }
                },
            }
            n = n + 1;
        }
        assert(all.take(n as int) =~= all);
        shown
    }

    /// The assembled turn: text, reasoning, the calls in index order, and
    /// the last reported token use.
    pub fn finish(self) -> (t: AssistantTurn)
        ensures
            t.text@ == self.view_state().text,
            t.thinking@ == self.view_state().thinking,
            t.tool_calls@.len() == self.view_state().accs.len(),
            forall|i: int| 0 <= i < t.tool_calls@.len() ==> {
                let a = #[trigger] self.view_state().accs[i];
                &&& t.tool_calls@[i].id@ == a.id
                &&& t.tool_calls@[i].name@ == a.name
                &&& t.tool_calls@[i].arguments@ == a.arguments
            },
            t.usage == self.usage_so_far(),
    {
        let TurnAssembler { text, thinking, usage, accs } = self;
        let ghost all = acc_views(accs@);
        let mut calls: Vec<ChatToolCall> = Vec::new();
        let mut rest = accs;
        let total = rest.len();
        let mut n: usize = 0;
        while rest.len() > 0
            invariant
                n <= all.len(),
                all.len() == total,
                acc_views(rest@) == all.skip(n as int),
                calls@.len() == n,
                forall|i: int| 0 <= i < n ==> {
                    let a = #[trigger] all[i];
                    &&& calls@[i].id@ == a.id
                    &&& calls@[i].name@ == a.name
                    &&& calls@[i].arguments@ == a.arguments
                },
            decreases rest.len(),
        {
            let ghost before = acc_views(rest@);
            let ghost raw = rest@;
            assert(before.len() == raw.len());
            assert(n < all.len());
            let a = rest.remove(0);
            assert(all.skip(n as int)[0] == all[n as int]);
            assert(before[0] == all[n as int]);
            assert(raw[0] == a);
            assert(rest@ =~= raw.drop_first());
            assert(acc_views(rest@) =~= before.drop_first());
            assert(before.drop_first() =~= all.skip(n + 1));
            calls.push(ChatToolCall { id: a.id, name: a.name, arguments: a.arguments });
            n = n + 1;
        }
        AssistantTurn { text, thinking, tool_calls: calls, usage }
    }
}

/// The message of a failed response: the error message of its body when
/// the body parsed as an error body holding one, else the body text.
pub fn failure_message(parsed: Option<ErrorBody>, text: String) -> (r: String)
    ensures
        r == match parsed {
            Some(ErrorBody { error: Some(ErrorDetail { message: Some(m) }) }) => m,
            _ => text,
        },
{
    match parsed {
        Some(ErrorBody { error: Some(ErrorDetail { message: Some(m) }) }) => m,
        _ => text,
    }
}

/// The error of a response with a failure status: a server error for 5xx,
/// a client error otherwise, with `HTTP <status>：<message>`.
pub fn http_error(status: u16, status_text: &str, message: &str) -> (e: LlmError)
    ensures
        ({
            let text = "HTTP "@ + status_text@ + "："@ + message@;
            if 500 <= status < 600 {
                e matches LlmError::Server(m) && m@ == text
            } else {
                e matches LlmError::Client(m) && m@ == text
            }
        }),
{
    let mut v = chars_of("HTTP ");
    extend_str(&mut v, status_text);
    extend_str(&mut v, "：");
    extend_str(&mut v, message);
    if 500 <= status && status < 600 {
        LlmError::Server(string_of(&v))
    } else {
        LlmError::Client(string_of(&v))
    }
}

/// The error of a failed transfer: a timeout, a network error (connection
/// or request), or a client error, with the failure's text.
pub fn transport_error(is_timeout: bool, is_network: bool, text: &str) -> (e: LlmError)
    ensures
        is_timeout ==> e is Timeout,
        !is_timeout && is_network ==> (e matches LlmError::Network(m) && m@ == text@),
        !is_timeout && !is_network ==> (e matches LlmError::Client(m) && m@ == text@),
{
    if is_timeout {
        LlmError::Timeout
    } else if is_network {
        LlmError::Network(owned(text))
    } else {
        LlmError::Client(owned(text))
    }
}

} // verus!
