//! Incremental parsing of a server-sent event stream: text arrives in
//! arbitrary pieces; complete events come out as (event, data).
use vstd::prelude::*;

use crate::infra::mcp::McpError;
use crate::support::url::{url_join, url_joined};
use crate::text::{
    chars_of, extend_str, extend_vec, first_index_of, has_prefix, owned, slice_vec,
    starts_with_str, string_of, lemma_first_index_of,
};

verus! {

/// `s` without its trailing line feeds and carriage returns.
pub open spec fn trim_newline(s: Seq<char>) -> Seq<char>
    decreases s.len(),
{
    if s.len() > 0 && (s.last() == '\n' || s.last() == '\r') {
        trim_newline(s.drop_last())
    } else {
        s
    }
}

/// `s` without one leading space.
pub open spec fn strip_space(s: Seq<char>) -> Seq<char> {
    if has_prefix(s, " "@) {
        s.skip(1)
    } else {
        s
    }
}

/// Parser state: the pending event name and data.
pub struct SseState {
    pub event: Seq<char>,
    pub data: Seq<char>,
}

/// One line (without its line end): a blank line ends the event (emitted
/// when it has data, named `message` when unnamed); `:` lines are comments;
/// `data:` lines add a line of data; `event:` lines name the event; other
/// lines are ignored.
pub open spec fn sse_line(st: SseState, line: Seq<char>) -> (SseState, Option<(Seq<char>, Seq<char>)>) {
    if line.len() == 0 {
        if st.data.len() > 0 {
            (
                SseState { event: Seq::empty(), data: Seq::empty() },
                Some((if st.event.len() == 0 { "message"@ } else { st.event }, st.data)),
            )
        } else {
            (SseState { event: Seq::empty(), data: st.data }, None)
        }
    } else if has_prefix(line, ":"@) {
        (st, None)
    } else if has_prefix(line, "data:"@) {
        let d = strip_space(line.skip(5));
        (SseState { data: if st.data.len() > 0 { st.data + "\n"@ + d } else { d }, ..st }, None)
    } else if has_prefix(line, "event:"@) {
        (SseState { event: strip_space(line.skip(6)), ..st }, None)
    } else {
        (st, None)
    }
}

/// A blank line ends the pending event: afterwards no event name and no
/// data are pending, whatever was pending before.
pub proof fn lemma_blank_line_resets(st: SseState)
    ensures
        sse_line(st, Seq::empty()).0.event == Seq::<char>::empty(),
        sse_line(st, Seq::empty()).0.data == Seq::<char>::empty(),
{
}

/// An event with no `event:` line since the previous blank line is emitted
/// under the name `message`, whatever came before that blank line.
pub proof fn lemma_unnamed_event_is_message(st: SseState, d: Seq<char>)
    requires
        strip_space(d).len() > 0,
    ensures
        ({
            let s1 = sse_line(st, Seq::empty()).0;
            let s2 = sse_line(s1, "data:"@ + d).0;
            sse_line(s2, Seq::empty()).1 == Some(("message"@, strip_space(d)))
        }),
{
    reveal_strlit("data:");
    reveal_strlit(":");
    let l = "data:"@ + d;
    assert(l[0] == 'd');
    assert(!has_prefix(l, ":"@)) by {
        assert(l.take(1)[0] == 'd');
    }
    assert(l.take(5) =~= "data:"@);
    assert(l.skip(5) =~= d);
}

/// Every complete line of `text`, in order: the final state, the text left
/// after the last line feed, and the events emitted.
pub open spec fn sse_feed(st: SseState, text: Seq<char>) -> (SseState, Seq<char>, Seq<(Seq<char>, Seq<char>)>)
    decreases text.len(),
{
    match first_index_of(text, '\n') {
        None => (st, text, Seq::empty()),
        Some(p) => if 0 <= p < text.len() {
            let step = sse_line(st, trim_newline(text.take(p + 1)));
            let rest = sse_feed(step.0, text.skip(p + 1));
            (rest.0, rest.1, match step.1 {
                Some(e) => seq![e] + rest.2,
                None => rest.2,
            })
        } else {
            (st, text, Seq::empty())
        },
    }
}

/// Feeding a text in two pieces emits the same events, and leaves the same
/// state and the same unfinished line, as feeding it at once.
pub proof fn lemma_sse_feed_split(st: SseState, a: Seq<char>, b: Seq<char>)
    ensures
        ({
            let fa = sse_feed(st, a);
            let fb = sse_feed(fa.0, fa.1 + b);
            let f = sse_feed(st, a + b);
            &&& f.0 == fb.0
            &&& f.1 == fb.1
            &&& f.2 == fa.2 + fb.2
        }),
    decreases a.len(),
{
    lemma_first_index_of(a, '\n');
    lemma_first_index_of(a + b, '\n');
    match first_index_of(a, '\n') {
        None => {
            assert(sse_feed(st, a).2 + sse_feed(st, a + b).2 =~= sse_feed(st, a + b).2);
        },
        Some(p) => {
            assert((a + b)[p] == '\n');
            assert forall|k: int| 0 <= k < p implies (a + b)[k] != '\n' by {
                assert((a + b)[k] == a[k]);
            }
            assert(first_index_of(a + b, '\n') == Some(p));
            assert((a + b).take(p + 1) =~= a.take(p + 1));
            assert((a + b).skip(p + 1) =~= a.skip(p + 1) + b);
            let step = sse_line(st, trim_newline(a.take(p + 1)));
            lemma_sse_feed_split(step.0, a.skip(p + 1), b);
            let fa = sse_feed(st, a);
            let fb = sse_feed(fa.0, fa.1 + b);
            let ra = sse_feed(step.0, a.skip(p + 1));
            match step.1 {
                Some(e) => {
                    assert(seq![e] + ra.2 + fb.2 =~= seq![e] + (ra.2 + fb.2));
                },
                None => {},
            }
        },
    }
}

/// What the stream reader does with an event.
#[derive(Debug, Clone, Copy, PartialEq, Eq)]
pub enum SseRoute {
    /// Hand the data over as the address to post requests to.
    Endpoint,
    /// Decode the data as a response and resolve its request.
    Message,
    /// Nothing.
    Ignore,
}

/// Routes an event: the first `endpoint` event gives the post address
/// (later ones are ignored), `message` events carry responses, other
/// events are ignored.
pub fn sse_route(event: &str, endpoint_taken: bool) -> (r: SseRoute)
    ensures
        r == (if event@ == "endpoint"@ {
            if endpoint_taken { SseRoute::Ignore } else { SseRoute::Endpoint }
        } else if event@ == "message"@ {
            SseRoute::Message
        } else {
            SseRoute::Ignore
        }),
{
    let e = chars_of(event);
    if crate::text::eq_str(&e, "endpoint") {
        if endpoint_taken { SseRoute::Ignore } else { SseRoute::Endpoint }
    } else if crate::text::eq_str(&e, "message") {
        SseRoute::Message
    } else {
        SseRoute::Ignore
    }
}

/// The address `endpoint` names relative to the stream's address (URL
/// resolution, see [`url_joined`]); an address that does not resolve is a
/// protocol error naming the endpoint.
pub fn post_url(base: &str, endpoint: &str) -> (r: Result<String, McpError>)
    ensures
        match url_joined(base@, endpoint@) {
            Some(u) => r matches Ok(x) && x@ == u,
            None => r matches Err(McpError::Protocol(m)) && has_prefix(m@, "endpoint 地址非法（"@ + endpoint@ + "）："@),
        },
{
    match url_join(base, endpoint) {
        Ok(u) => Ok(u),
        Err(e) => {
            let mut m = chars_of("endpoint 地址非法（");
            extend_str(&mut m, endpoint);
            extend_str(&mut m, "）：");
            let ghost p = m@;
            extend_str(&mut m, e.as_str());
            proof {
                assert(m@.take(p.len() as int) =~= p);
            }
            Err(McpError::Protocol(string_of(&m)))
        },
    }
}

/// The views of emitted events.
pub open spec fn event_views(v: Seq<(String, String)>) -> Seq<(Seq<char>, Seq<char>)> {
    v.map_values(|e: (String, String)| (e.0@, e.1@))
}

/// Incremental event-stream parser.
#[derive(Debug)]
pub struct SseParser {
    buf: String,
    event: String,
    data: String,
}

impl Default for SseParser {
    fn default() -> (p: SseParser)
        ensures
            p.buffered().len() == 0,
            p.state() == (SseState { event: Seq::empty(), data: Seq::empty() }),
    {
        SseParser { buf: String::new(), event: String::new(), data: String::new() }
    }
}


impl SseParser {
    /// Text received but not yet ended by a line feed.
    pub closed spec fn buffered(&self) -> Seq<char> {
        self.buf@
    }

    /// The pending event name and data.
    pub closed spec fn state(&self) -> SseState {
        SseState { event: self.event@, data: self.data@ }
    }

    /// An empty parser.
    pub fn new() -> (p: SseParser)
        ensures
            p.buffered().len() == 0,
            p.state() == (SseState { event: Seq::empty(), data: Seq::empty() }),
    {
        SseParser { buf: String::new(), event: String::new(), data: String::new() }
    }

    /// Feeds a piece of text and returns the events it completes (see
    /// [`sse_feed`], over the buffered text followed by the piece).
    pub fn feed(&mut self, chunk: &str) -> (out: Vec<(String, String)>)
        ensures
            ({
                let f = sse_feed(old(self).state(), old(self).buffered() + chunk@);
                &&& event_views(out@) == f.2
                &&& final(self).state() == f.0
                &&& final(self).buffered() == f.1
            }),
    {
        let mut text = chars_of(self.buf.as_str());
        extend_str(&mut text, chunk);
        let ghost whole = text@;
        let ghost st0 = self.state();
        assert(whole == old(self).buffered() + chunk@);
        let mut event = chars_of(self.event.as_str());
        let mut data = chars_of(self.data.as_str());
        let mut out: Vec<(String, String)> = Vec::new();
        let mut start: usize = 0;
        assert(whole.skip(0) =~= whole);
        assert(event_views(out@) =~= Seq::<(Seq<char>, Seq<char>)>::empty());
        loop
            invariant
                whole == text@,
                start <= text.len(),
                ({
                    let f = sse_feed(st0, whole);
                    let g = sse_feed(SseState { event: event@, data: data@ }, whole.skip(start as int));
                    &&& f.0 == g.0
                    &&& f.1 == g.1
                    &&& f.2 == event_views(out@) + g.2
                }),
            ensures
                first_index_of(whole.skip(start as int), '\n') is None,
            decreases text.len() - start,
        {
            let pos = match crate::text::find_char_from(&text, '\n', start) {
                Some(p) => p,
                None => break,
            };
            let ghost t = whole.skip(start as int);
            let ghost st = SseState { event: event@, data: data@ };
            // the line, without its line end
            let mut end = pos + 1;
            proof {
                assert(t.take(pos - start + 1) =~= whole.subrange(start as int, pos + 1));
                assert(whole.subrange(start as int, end as int) =~= whole.subrange(start as int, pos + 1));
            }
            while end > start && (text[end - 1] == '\n' || text[end - 1] == '\r')
                invariant
                    start <= end <= pos + 1,
                    pos < text.len(),
                    whole == text@,
                    trim_newline(whole.subrange(start as int, pos + 1)) == trim_newline(whole.subrange(start as int, end as int)),
                decreases end,
            {
                assert(whole.subrange(start as int, end as int).drop_last() =~= whole.subrange(start as int, end - 1));
                end = end - 1;
            }
            let line = slice_vec(&text, start, end);
            proof {
                if end > start {
                    assert(whole.subrange(start as int, end as int).last() == text@[end - 1]);
                }
                assert(trim_newline(whole.subrange(start as int, end as int)) == whole.subrange(start as int, end as int));
                assert(line@ == trim_newline(t.take(pos - start + 1)));
                assert(t.skip(pos - start + 1) =~= whole.skip(pos + 1));
            }
            let ghost step = sse_line(st, line@);
            if line.len() == 0 {
                if data.len() > 0 {
                    let name = if event.len() == 0 {
                        owned("message")
                    } else {
                        string_of(&event)
                    };
                    let ghost before = out@;
                    out.push((name, string_of(&data)));
                    proof {
                        assert(event_views(out@) =~= event_views(before).push((name@, data@)));
                    }
                    event = Vec::new();
                    data = Vec::new();
                    proof {
                        assert(event_views(before) + (seq![step.1->0] + sse_feed(step.0, whole.skip(pos + 1)).2)
                            =~= event_views(out@) + sse_feed(step.0, whole.skip(pos + 1)).2);
                    }
                } else {
                    event = Vec::new();
                }
            } else if starts_with_str(&line, ":") {
            } else if starts_with_str(&line, "data:") {
                proof {
                    reveal_strlit("data:");
                }
                let mut d0 = slice_vec(&line, 5, line.len());
                assert(d0@ =~= line@.skip(5));
                let d = if starts_with_str(&d0, " ") {
                    proof {
                        reveal_strlit(" ");
                    }
                    let x = slice_vec(&d0, 1, d0.len());
                    assert(x@ =~= d0@.skip(1));
                    x
                } else {
                    d0
                };
                if data.len() > 0 {
                    extend_str(&mut data, "\n");
                }
                extend_vec(&mut data, &d);
            } else if starts_with_str(&line, "event:") {
                proof {
                    reveal_strlit("event:");
                }
                let e0 = slice_vec(&line, 6, line.len());
                assert(e0@ =~= line@.skip(6));
                event = if starts_with_str(&e0, " ") {
                    proof {
                        reveal_strlit(" ");
                    }
                    let x = slice_vec(&e0, 1, e0.len());
                    assert(x@ =~= e0@.skip(1));
                    x
                } else {
                    e0
                };
            }
            proof {
                assert(SseState { event: event@, data: data@ } == step.0);
                if step.1 is None {
                    assert(event_views(out@) + sse_feed(step.0, whole.skip(pos + 1)).2 =~= event_views(out@)
                        + sse_feed(step.0, whole.skip(pos + 1)).2);
                }
            }
            start = pos + 1;
        }
        let rest = slice_vec(&text, start, text.len());
        proof {
            assert(rest@ =~= whole.skip(start as int));
            assert(event_views(out@) + Seq::<(Seq<char>, Seq<char>)>::empty() =~= event_views(out@));
        }
        self.buf = string_of(&rest);
        self.event = string_of(&event);
        self.data = string_of(&data);
        out
    }
}

} // verus!
