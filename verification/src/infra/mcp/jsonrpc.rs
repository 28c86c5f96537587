//! JSON-RPC 2.0 frames (one line of JSON each), the results of `tools/list`
//! and `tools/call`, command-line splitting, and the bookkeeping of the
//! requests that wait for an answer.
use vstd::prelude::*;

use crate::domain::shared::words::{split_words, vec_views, words_of};
use crate::infra::mcp::{McpError, McpTool};
use crate::infra::process::{probed, program_pick, resolve_program, searched_name};
use crate::support::path::joined;
use crate::support::json::{
    field, array_value, bool_value, int_value, json_get, json_parse, json_text, json_to_string,
    parse_json, str_value, Json,
};
use crate::support::num::{i64_text, int_text, parse_i64, parsed_i64};
use crate::text::{chars_of, concat_vec, eq_str, extend_str, extend_vec, owned, str_eq, string_of};

verus! {

fn member(key: &str, value: Json) -> (r: (String, Json))
    ensures
        r.0@ == key@,
        r.1 == value,
{
    (owned(key), value)
}

/// Whether `j` is the request frame `{"jsonrpc":"2.0","id":id,"method":..,"params":..}`.
pub open spec fn is_request_frame(j: Json, id: i64, method: Seq<char>, params: Json) -> bool {
    &&& j matches Json::Object(m)
    &&& m@.len() == 4
    &&& m@[0].0@ == "jsonrpc"@ && str_value(Some(m@[0].1)) == Some("2.0"@)
    &&& m@[1].0@ == "id"@ && m@[1].1 == Json::Int(id)
    &&& m@[2].0@ == "method"@ && str_value(Some(m@[2].1)) == Some(method)
    &&& m@[3].0@ == "params"@ && m@[3].1 == params
}

/// Whether `j` is the notification frame `{"jsonrpc":"2.0","method":..,"params":..}`.
pub open spec fn is_notification_frame(j: Json, method: Seq<char>, params: Json) -> bool {
    &&& j matches Json::Object(m)
    &&& m@.len() == 3
    &&& m@[0].0@ == "jsonrpc"@ && str_value(Some(m@[0].1)) == Some("2.0"@)
    &&& m@[1].0@ == "method"@ && str_value(Some(m@[1].1)) == Some(method)
    &&& m@[2].0@ == "params"@ && m@[2].1 == params
}

/// A request frame for `method` with `params`.
pub fn request_frame(id: i64, method: &str, params: Json) -> (j: Json)
    ensures
        is_request_frame(j, id, method@, params),
{
    let mut m: Vec<(String, Json)> = Vec::new();
    m.push(member("jsonrpc", Json::Str(owned("2.0"))));
    m.push(member("id", Json::Int(id)));
    m.push(member("method", Json::Str(owned(method))));
    m.push(member("params", params));
    Json::Object(m)
}

/// A notification frame (no id) for `method` with `params`.
pub fn notification_frame(method: &str, params: Json) -> (j: Json)
    ensures
        is_notification_frame(j, method@, params),
{
    let mut m: Vec<(String, Json)> = Vec::new();
    m.push(member("jsonrpc", Json::Str(owned("2.0"))));
    m.push(member("method", Json::Str(owned(method))));
    m.push(member("params", params));
    Json::Object(m)
}

/// The text of a request frame.
pub fn encode_request(id: i64, method: &str, params: Json) -> (r: String)
    ensures
        exists|j: Json| is_request_frame(j, id, method@, params) && r@ == json_text(j),
{
    let j = request_frame(id, method, params);
    json_to_string(&j)
}

/// The text of a notification frame.
pub fn encode_notification(method: &str, params: Json) -> (r: String)
    ensures
        exists|j: Json| is_notification_frame(j, method@, params) && r@ == json_text(j),
{
    let j = notification_frame(method, params);
    json_to_string(&j)
}

/// A response matched to its request by id.
#[derive(Debug)]
pub struct RpcResponse {
    /// Request id.
    pub id: i64,
    /// The result, or the RPC error.
    pub result: Result<Json, McpError>,
}

/// The id of a response: an integer, or a string holding one.
pub open spec fn response_id(i: Json) -> Option<i64> {
    match i {
        Json::Int(n) => Some(n),
        Json::Str(s) => parsed_i64(s@),
        _ => None,
    }
}

/// The message of an RPC error object: its code (0 when missing) and its
/// message (`未知错误` when missing).
pub open spec fn rpc_error_text(err: Json) -> Seq<char> {
    let code = match int_value(json_get(err, "code"@)) {
        Some(c) => c,
        None => 0,
    };
    let msg = match str_value(json_get(err, "message"@)) {
        Some(m) => m,
        None => "未知错误"@,
    };
    "RPC 错误 "@ + int_text(code as int) + "："@ + msg
}

/// What a parsed frame decodes to: `Ok(None)` for a server notification or
/// request (it has a `method`) and for a frame without id; a protocol error
/// for a bad id, a missing `jsonrpc: "2.0"`, or neither result nor error;
/// otherwise the id with the result or the RPC error's message.
pub open spec fn decoded(v: Json) -> Result<Option<(i64, Result<Json, Seq<char>>)>, Seq<char>> {
    if json_get(v, "method"@) is Some {
        Ok(None)
    } else {
        match json_get(v, "id"@) {
            None => Ok(None),
            Some(Json::Null) => Ok(None),
            Some(i) => match response_id(i) {
                None => Err("响应 id 非法"@),
                Some(id) => if str_value(json_get(v, "jsonrpc"@)) != Some("2.0"@) {
                    Err("响应缺少 jsonrpc=2.0"@)
                } else {
                    match json_get(v, "error"@) {
                        Some(err) => Ok(Some((id, Err(rpc_error_text(err))))),
                        None => match json_get(v, "result"@) {
                            Some(r) => Ok(Some((id, Ok(r)))),
                            None => Err("响应既无 result 也无 error"@),
                        },
                    }
                },
            },
        }
    }
}

/// Whether a decode outcome matches the frame's spec (protocol errors as
/// their messages).
pub open spec fn decode_matches(
    r: Result<Option<RpcResponse>, McpError>,
    d: Result<Option<(i64, Result<Json, Seq<char>>)>, Seq<char>>,
) -> bool {
    match (r, d) {
        (Ok(None), Ok(None)) => true,
        (Ok(Some(resp)), Ok(Some((id, res)))) => resp.id == id && match (resp.result, res) {
            (Ok(a), Ok(b)) => a == b,
            (Err(McpError::Protocol(m)), Err(t)) => m@ == t,
            _ => false,
        },
        (Err(McpError::Protocol(m)), Err(t)) => m@ == t,
        _ => false,
    }
}

/// Member `key` of an object, moved out of it.
fn into_member(j: Json, key: &str) -> (r: Option<Json>)
    ensures
        r == json_get(j, key@),
{
    match j {
        Json::Object(m) => {
            let ghost orig = m@;
            let mut rest = m;
            let mut n: usize = 0;
            let total = rest.len();
            assert(orig.skip(0) =~= orig);
            while rest.len() > 0
                invariant
                    rest@ == orig.skip(n as int),
                    n <= orig.len(),
                    orig.len() == total,
                    json_get(j, key@) == field(orig, key@),
                    field(orig, key@) == field(orig.skip(n as int), key@),
                decreases rest.len(),
            {
                let (k, v) = rest.remove(0);
                assert(orig.skip(n as int)[0] == (k, v));
                if str_eq(k.as_str(), key) {
                    return Some(v);
                }
                assert(orig.skip(n as int).drop_first() =~= orig.skip(n + 1));
                n = n + 1;
            }
            None
        },
        _ => None,
    }
}

/// Decodes a frame (see [`decoded`]); text that is not JSON is a protocol
/// error.
pub fn decode_response(line: &str) -> (r: Result<Option<RpcResponse>, McpError>)
    ensures
        match json_parse(line@) {
            Some(v) => decode_matches(r, decoded(v)),
            None => r matches Err(McpError::Protocol(m)) && crate::text::has_prefix(m@, "响应不是合法 JSON："@),
        },
{
    let v = match parse_json(line) {
        Ok(v) => v,
        Err(e) => {
            let m = concat_vec(&chars_of("响应不是合法 JSON："), &chars_of(e.as_str()));
            assert(m@.take("响应不是合法 JSON："@.len() as int) =~= "响应不是合法 JSON："@);
            return Err(McpError::Protocol(string_of(&m)));
        },
    };
    if v.get("method").is_some() {
        return Ok(None);
    }
    let id = match v.get("id") {
        None => return Ok(None),
        Some(Json::Null) => return Ok(None),
        Some(i) => {
            let parsed = match i {
                Json::Int(n) => Some(*n),
                Json::Str(s) => parse_i64(s.as_str()),
                _ => None,
            };
            match parsed {
                Some(n) => n,
                None => return Err(McpError::Protocol(owned("响应 id 非法"))),
            }
        },
    };
    let version_ok = match v.get("jsonrpc") {
        Some(j) => match j.as_str() {
            Some(s) => str_eq(s, "2.0"),
            None => false,
        },
        None => false,
    };
    if !version_ok {
        return Err(McpError::Protocol(owned("响应缺少 jsonrpc=2.0")));
    }
    if let Some(err) = v.get("error") {
        let code = match err.get("code") {
            Some(c) => match c.as_i64() {
                Some(n) => n,
                None => 0,
            },
            None => 0,
        };
        let mut msg = chars_of("RPC 错误 ");
        let code_text = i64_text(code);
        extend_vec(&mut msg, &code_text);
        extend_str(&mut msg, "：");
        match err.get("message") {
            Some(mj) => match mj.as_str() {
                Some(s) => extend_str(&mut msg, s),
                None => extend_str(&mut msg, "未知错误"),
            },
            None => extend_str(&mut msg, "未知错误"),
        }
        return Ok(Some(RpcResponse { id, result: Err(McpError::Protocol(string_of(&msg))) }));
    }
    match into_member(v, "result") {
        Some(r) => Ok(Some(RpcResponse { id, result: Ok(r) })),
        None => Err(McpError::Protocol(owned("响应既无 result 也无 error"))),
    }
}

/// Whether `j` is `{"protocolVersion":"2024-11-05","capabilities":{},
/// "clientInfo":{"name":"cyan","version":"0.1.0"}}`.
pub open spec fn is_initialize_params(j: Json) -> bool {
    &&& j matches Json::Object(m)
    &&& m@.len() == 3
    &&& m@[0].0@ == "protocolVersion"@
    &&& str_value(Some(m@[0].1)) == Some("2024-11-05"@)
    &&& m@[1].0@ == "capabilities"@
    &&& m@[1].1 matches Json::Object(c)
    &&& c@.len() == 0
    &&& m@[2].0@ == "clientInfo"@
    &&& m@[2].1 matches Json::Object(ci)
    &&& ci@.len() == 2
    &&& ci@[0].0@ == "name"@
    &&& str_value(Some(ci@[0].1)) == Some("cyan"@)
    &&& ci@[1].0@ == "version"@
    &&& str_value(Some(ci@[1].1)) == Some("0.1.0"@)
}

/// The parameters of `initialize` (see [`is_initialize_params`]).
pub fn initialize_params() -> (j: Json)
    ensures
        is_initialize_params(j),
{
    let mut info: Vec<(String, Json)> = Vec::new();
    info.push(member("name", Json::Str(owned("cyan"))));
    info.push(member("version", Json::Str(owned("0.1.0"))));
    let mut m: Vec<(String, Json)> = Vec::new();
    m.push(member("protocolVersion", Json::Str(owned("2024-11-05"))));
    m.push(member("capabilities", Json::Object(Vec::new())));
    m.push(member("clientInfo", Json::Object(info)));
    Json::Object(m)
}

/// Whether `j` is the schema `{"type": "object"}`.
pub open spec fn is_object_schema(j: Json) -> bool {
    j matches Json::Object(m) && m@.len() == 1 && m@[0].0@ == "type"@ && str_value(Some(m@[0].1))
        == Some("object"@)
}

/// The items of a `tools/list` result that have a string `name`, in order.
pub open spec fn named_items(items: Seq<Json>) -> Seq<Json>
    decreases items.len(),
{
    if items.len() == 0 {
        items
    } else {
        let k = named_items(items.drop_last());
        if str_value(json_get(items.last(), "name"@)) is Some {
            k.push(items.last())
        } else {
            k
        }
    }
}

/// Whether `t` is the tool listed by item `item`: its name, its description
/// (empty when missing), its input schema (`{"type": "object"}` when
/// missing).
pub open spec fn tool_from_item(t: McpTool, item: Json) -> bool {
    &&& str_value(json_get(item, "name"@)) == Some(t.name@)
    &&& t.description@ == (match str_value(json_get(item, "description"@)) {
        Some(d) => d,
        None => Seq::empty(),
    })
    &&& match json_get(item, "inputSchema"@) {
        Some(s) => t.input_schema == s,
        None => is_object_schema(t.input_schema),
    }
}

fn object_schema() -> (j: Json)
    ensures
        is_object_schema(j),
{
    let mut m: Vec<(String, Json)> = Vec::new();
    m.push(member("type", Json::Str(owned("object"))));
    Json::Object(m)
}

/// The tools of a `tools/list` result: one per item with a name, in order;
/// a result without a `tools` array is a protocol error.
pub fn parse_tools(result: Json) -> (r: Result<Vec<McpTool>, McpError>)
    ensures
        match array_value(json_get(result, "tools"@)) {
            None => r matches Err(McpError::Protocol(m)) && m@ == "tools/list 响应缺少 tools 数组"@,
            Some(items) => r matches Ok(v) && v@.len() == named_items(items).len() && forall|i: int|
                0 <= i < v@.len() ==> tool_from_item(#[trigger] v@[i], named_items(items)[i]),
        },
{
    let mut items = match into_member(result, "tools") {
        Some(Json::Array(a)) => a,
        _ => return Err(McpError::Protocol(owned("tools/list 响应缺少 tools 数组"))),
    };
    let ghost all = items@;
    let total = items.len();
    let mut out: Vec<McpTool> = Vec::new();
    let mut n: usize = 0;
    assert(all.take(0) =~= Seq::<Json>::empty());
    assert(all.skip(0) =~= all);
    while items.len() > 0
        invariant
            n <= all.len(),
            all.len() == total,
            items@ == all.skip(n as int),
            out@.len() == named_items(all.take(n as int)).len(),
            forall|k: int| 0 <= k < out@.len() ==> tool_from_item(#[trigger] out@[k], named_items(all.take(n as int))[k]),
        decreases items.len(),
    {
        let item = items.remove(0);
        proof {
            assert(all.skip(n as int)[0] == item);
            assert(all.take(n + 1).drop_last() =~= all.take(n as int));
            assert(all.take(n + 1).last() == item);
            assert(items@ =~= all.skip(n + 1));
        }
        let name = match item.get("name") {
            Some(x) => match x.as_str() {
                Some(s) => Some(owned(s)),
                None => None,
            },
            None => None,
        };
        match name {
            Some(name) => {
                let description = match item.get("description") {
                    Some(d) => match d.as_str() {
                        Some(s) => owned(s),
                        None => String::new(),
                    },
                    None => String::new(),
                };
                let input_schema = match into_member(item, "inputSchema") {
                    Some(s) => s,
                    None => object_schema(),
                };
                out.push(McpTool { name, description, input_schema });
            },
            None => {},
        }
        n = n + 1;
    }
    assert(all.take(n as int) =~= all);
    Ok(out)
}

/// One content item of a `tools/call` result.
#[derive(Debug)]
pub enum CallContent {
    /// Text.
    Text(String),
    /// An image to be saved (base64 data and MIME type).
    Image { data: String, mime: String },
    /// An image block without data.
    EmptyImage,
    /// A block of another type.
    Unsupported(String),
}

/// Whether a block gives a content item: every block with a type, except
/// text blocks without text.
pub open spec fn gives_content(block: Json) -> bool {
    match str_value(json_get(block, "type"@)) {
        None => false,
        Some(t) => t != "text"@ || str_value(json_get(block, "text"@)) is Some,
    }
}

/// Whether `c` is the content item of `block` (see [`content_of`]).
pub open spec fn content_from_block(c: CallContent, block: Json) -> bool {
    match str_value(json_get(block, "type"@)) {
        None => false,
        Some(t) => if t == "text"@ {
            c matches CallContent::Text(s) && str_value(json_get(block, "text"@)) == Some(s@)
        } else if t == "image"@ {
            let data = match str_value(json_get(block, "data"@)) {
                Some(d) => d,
                None => Seq::empty(),
            };
            let mime = match str_value(json_get(block, "mimeType"@)) {
                Some(m) => m,
                None => "image/png"@,
            };
            if data.len() == 0 {
                c is EmptyImage
            } else {
                c matches CallContent::Image { data: d, mime: m } && d@ == data && m@ == mime
            }
        } else {
            c matches CallContent::Unsupported(u) && u@ == t
        },
    }
}

/// The blocks of a result that give a content item, in order.
pub open spec fn contentful(blocks: Seq<Json>) -> Seq<Json>
    decreases blocks.len(),
{
    if blocks.len() == 0 {
        blocks
    } else {
        let k = contentful(blocks.drop_last());
        if gives_content(blocks.last()) {
            k.push(blocks.last())
        } else {
            k
        }
    }
}

fn str_member(j: &Json, key: &str) -> (r: Option<String>)
    ensures
        match r {
            Some(s) => str_value(json_get(*j, key@)) == Some(s@),
            None => str_value(json_get(*j, key@)) is None,
        },
{
    match j.get(key) {
        Some(x) => match x.as_str() {
            Some(s) => Some(owned(s)),
            None => None,
        },
        None => None,
    }
}

/// Reads a `tools/call` result: whether it flags an error (`isError`, false
/// when missing) and its content items, in order (none when there is no
/// `content` array).
pub fn call_result_content(result: &Json) -> (r: (bool, Vec<CallContent>))
    ensures
        r.0 == (bool_value(json_get(*result, "isError"@)) == Some(true)),
        match array_value(json_get(*result, "content"@)) {
            None => r.1@.len() == 0,
            Some(blocks) => r.1@.len() == contentful(blocks).len() && forall|i: int|
                0 <= i < r.1@.len() ==> content_from_block(#[trigger] r.1@[i], contentful(blocks)[i]),
        },
{
    let is_error = match result.get("isError") {
        Some(b) => match b.as_bool() {
            Some(x) => x,
            None => false,
        },
        None => false,
    };
    let mut out: Vec<CallContent> = Vec::new();
    let blocks = match result.get("content") {
        Some(c) => match c.as_array() {
            Some(a) => a,
            None => return (is_error, out),
        },
        None => return (is_error, out),
    };
    for i in 0..blocks.len()
        invariant
            out@.len() == contentful(blocks@.take(i as int)).len(),
            forall|k: int| 0 <= k < out@.len() ==> content_from_block(#[trigger] out@[k], contentful(blocks@.take(i as int))[k]),
    {
        let b = &blocks[i];
        proof {
            assert(blocks@.take(i + 1).drop_last() =~= blocks@.take(i as int));
            assert(blocks@.take(i + 1).last() == *b);
        }
        match str_member(b, "type") {
            None => {},
            Some(t) => {
                if str_eq(t.as_str(), "text") {
                    match str_member(b, "text") {
                        Some(s) => out.push(CallContent::Text(s)),
                        None => {},
                    }
                } else if str_eq(t.as_str(), "image") {
                    let data = match str_member(b, "data") {
                        Some(d) => d,
                        None => String::new(),
                    };
                    let mime = match str_member(b, "mimeType") {
                        Some(m) => m,
                        None => owned("image/png"),
                    };
                    if chars_of(data.as_str()).len() == 0 {
                        out.push(CallContent::EmptyImage);
                    } else {
                        out.push(CallContent::Image { data, mime });
                    }
                } else {
                    out.push(CallContent::Unsupported(t));
                }
            },
        }
    }
    assert(blocks@.take(blocks.len() as int) =~= blocks@);
    (is_error, out)
}

/// The line a content item contributes, given what saving an image gave
/// (the saved path, or the failure): text as it is, `图片已保存：<path>`,
/// `[图片落盘失败：<reason>]`, `[空图片内容]`, `[不支持的内容类型：<type>]`.
pub open spec fn content_line(c: CallContent, saved: Result<Seq<char>, Seq<char>>) -> Seq<char> {
    match c {
        CallContent::Text(s) => s@,
        CallContent::Image { .. } => match saved {
            Ok(p) => "图片已保存："@ + p,
            Err(e) => "[图片落盘失败："@ + e + "]"@,
        },
        CallContent::EmptyImage => "[空图片内容]"@,
        CallContent::Unsupported(t) => "[不支持的内容类型："@ + t@ + "]"@,
    }
}

/// The line of a content item (see [`content_line`]); `saved` is looked at
/// only for an image.
pub fn content_text(c: &CallContent, saved: &Result<String, String>) -> (r: String)
    ensures
        r@ == content_line(*c, match saved {
            Ok(p) => Ok(p@),
            Err(e) => Err(e@),
        }),
{
    match c {
        CallContent::Text(s) => owned(s.as_str()),
        CallContent::Image { .. } => match saved {
            Ok(p) => string_of(&concat_vec(&chars_of("图片已保存："), &chars_of(p.as_str()))),
            Err(e) => {
                let mut v = chars_of("[图片落盘失败：");
                extend_str(&mut v, e.as_str());
                extend_str(&mut v, "]");
                string_of(&v)
            },
        },
        CallContent::EmptyImage => owned("[空图片内容]"),
        CallContent::Unsupported(t) => {
            let mut v = chars_of("[不支持的内容类型：");
            extend_str(&mut v, t.as_str());
            extend_str(&mut v, "]");
            string_of(&v)
        },
    }
}

/// Lines joined with line feeds.
pub open spec fn joined_lines(lines: Seq<Seq<char>>) -> Seq<char>
    decreases lines.len(),
{
    if lines.len() == 0 {
        Seq::empty()
    } else if lines.len() == 1 {
        lines[0]
    } else {
        joined_lines(lines.drop_last()) + "\n"@ + lines.last()
    }
}

/// The outcome of a call from its lines: the joined text, or, when the
/// result flags an error, a tool error with that text (or
/// `工具返回错误（无详情）` when it is empty).
pub fn finish_call_result(is_error: bool, lines: &Vec<String>) -> (r: Result<String, McpError>)
    ensures
        ({
            let text = joined_lines(lines@.map_values(|s: String| s@));
            if is_error {
                r matches Err(McpError::Tool(m)) && m@ == (if text.len() == 0 {
                    "工具返回错误（无详情）"@
                } else {
                    text
                })
            } else {
                r matches Ok(t) && t@ == text
            }
        }),
{
    let ghost views = lines@.map_values(|s: String| s@);
    let mut text: Vec<char> = Vec::new();
    for i in 0..lines.len()
        invariant
            views == lines@.map_values(|s: String| s@),
            text@ == joined_lines(views.take(i as int)),
    {
        assert(views.take(i + 1).drop_last() =~= views.take(i as int));
        assert(views.take(i + 1).last() == lines@[i as int]@);
        if i > 0 {
            extend_str(&mut text, "\n");
        } else {
            assert(views.take(1).len() == 1);
        }
        extend_str(&mut text, lines[i].as_str());
        assert(i == 0 ==> text@ =~= views.take(1)[0]);
    }
    assert(views.take(lines.len() as int) =~= views);
    if is_error {
        if text.len() == 0 {
            Err(McpError::Tool(owned("工具返回错误（无详情）")))
        } else {
            Err(McpError::Tool(string_of(&text)))
        }
    } else {
        Ok(string_of(&text))
    }
}

/// The file extension an image MIME type is saved with.
pub open spec fn image_ext(mime: Seq<char>) -> Option<Seq<char>> {
    if mime == "image/png"@ {
        Some("png"@)
    } else if mime == "image/jpeg"@ {
        Some("jpg"@)
    } else if mime == "image/webp"@ {
        Some("webp"@)
    } else if mime == "image/gif"@ {
        Some("gif"@)
    } else {
        None
    }
}

/// The extension for an image's MIME type; an unknown type is refused with
/// `未知图片类型：<mime>`.
pub fn image_extension(mime: &str) -> (r: Result<&'static str, String>)
    ensures
        match image_ext(mime@) {
            Some(e) => r matches Ok(x) && x@ == e,
            None => r matches Err(m) && m@ == "未知图片类型："@ + mime@,
        },
{
    let v = chars_of(mime);
    if eq_str(&v, "image/png") {
        Ok("png")
    } else if eq_str(&v, "image/jpeg") {
        Ok("jpg")
    } else if eq_str(&v, "image/webp") {
        Ok("webp")
    } else if eq_str(&v, "image/gif") {
        Ok("gif")
    } else {
        Err(string_of(&concat_vec(&chars_of("未知图片类型："), &v)))
    }
}

/// Splits a launch command into words; quotes group words that hold spaces
/// (see [`words_of`]).
pub fn shell_split(cmd: &str) -> (out: Vec<String>)
    ensures
        out@.map_values(|x: String| x@) == words_of(cmd@),
{
    crate::domain::agent::bash::tokenize(cmd)
}

/// The program and arguments a stdio server is started with: the words of
/// its command, the first resolved in the search directories (see
/// [`resolve_program`]); an empty command cannot start.
pub fn stdio_program(command: &str, dirs: &[String]) -> (r: Result<(String, Vec<String>), McpError>)
    ensures
        words_of(command@).len() == 0 ==> (r matches Err(McpError::Spawn(m)) && m@ == "启动命令为空"@),
        words_of(command@).len() > 0 ==> (r matches Ok((prog, args)) && {
            let w = words_of(command@);
            &&& (prog@ == w[0] || exists|i: int| 0 <= i < dirs@.len() && prog@ == joined(#[trigger] dirs@[i]@, w[0]))
            &&& (!searched_name(w[0]) ==> prog@ == w[0])
            &&& (searched_name(w[0]) ==> exists|found: Seq<bool>| probed(found, dirs@.len() as int)
                && prog@ == #[trigger] program_pick(w[0], dirs@, found, 0))
            &&& args@.map_values(|x: String| x@) == w.drop_first()
        }),
{
    let mut parts = shell_split(command);
    if parts.len() == 0 {
        return Err(McpError::Spawn(owned("启动命令为空")));
    }
    let ghost w = parts@.map_values(|x: String| x@);
    let first = parts.remove(0);
    assert(parts@.map_values(|x: String| x@) =~= w.drop_first());
    let prog = resolve_program(first.as_str(), dirs);
    Ok((prog, parts))
}

/// The error of a server process that would not start.
pub fn spawn_error(prog: &str, reason: &str) -> (e: McpError)
    ensures
        e matches McpError::Spawn(m) && m@ == "`"@ + prog@ + "` 启动失败："@ + reason@,
{
    let mut m = chars_of("`");
    extend_str(&mut m, prog);
    extend_str(&mut m, "` 启动失败：");
    extend_str(&mut m, reason);
    McpError::Spawn(string_of(&m))
}

/// A failed handshake request: a timeout says it was the handshake's
/// `initialize`; other errors stay as they are.
pub fn handshake_error(e: McpError) -> (r: McpError)
    ensures
        match e {
            McpError::Timeout(m) => r matches McpError::Timeout(x) && x@ == "握手 initialize 超时："@ + m@,
            _ => r == e,
        },
{
    match e {
        McpError::Timeout(m) => {
            let mut v = chars_of("握手 initialize 超时：");
            extend_str(&mut v, m.as_str());
            McpError::Timeout(string_of(&v))
        },
        other => other,
    }
}

/// Each answer is delivered once: once an id has been resolved (or its
/// request cancelled) it no longer waits, so a second answer with that id
/// is dropped, while every other waiting id still waits.
pub proof fn lemma_delivered_once(waiting: Seq<i64>, id: i64)
    ensures
        !waiting.filter(|x: i64| x != id).contains(id),
        forall|y: i64| y != id ==> (waiting.filter(|x: i64| x != id).contains(y) <==> waiting.contains(y)),
{
    broadcast use vstd::seq_lib::group_filter_ensures;
    let p = |x: i64| x != id;
    let f = waiting.filter(p);
    if f.contains(id) {
        let i = choose|i: int| 0 <= i < f.len() && f[i] == id;
        waiting.lemma_filter_pred(p, i);
    }
    assert forall|y: i64| y != id implies (f.contains(y) <==> waiting.contains(y)) by {
        if f.contains(y) {
            waiting.lemma_filter_contains_rev(p, y);
        }
        if waiting.contains(y) {
            let i = choose|i: int| 0 <= i < waiting.len() && waiting[i] == y;
            waiting.lemma_filter_contains(p, i);
        }
    }
}

/// Bookkeeping of the requests waiting for an answer: ids are handed out in
/// increasing order (wrapping at the end of `i64`), and each answer is
/// delivered once. The channels themselves are the caller's.
#[derive(Debug)]
pub struct Dispatcher {
    next_id: i64,
    pending: Vec<i64>,
}

impl Dispatcher {
    /// The next id to hand out.
    pub closed spec fn next(&self) -> i64 {
        self.next_id
    }

    /// The ids waiting for an answer, oldest first.
    pub closed spec fn waiting(&self) -> Seq<i64> {
        self.pending@
    }

    /// Nothing waits; the first id is 1.
    pub fn new() -> (d: Dispatcher)
        ensures
            d.next() == 1,
            d.waiting().len() == 0,
    {
        Dispatcher { next_id: 1, pending: Vec::new() }
    }

    /// Hands out the next id and registers it as waiting.
    pub fn register(&mut self) -> (id: i64)
        ensures
            id == old(self).next(),
            final(self).next() == old(self).next().wrapping_add(1),
            final(self).waiting() == old(self).waiting().push(id),
    {
        let id = self.next_id;
        self.next_id = self.next_id.wrapping_add(1);
        self.pending.push(id);
        id
    }

    /// Removes an id from the waiting ones (a request that could not be
    /// sent, or an answer that arrived); returns whether it was waiting.
    pub fn cancel(&mut self, id: i64) -> (was: bool)
        ensures
            was == old(self).waiting().contains(id),
            final(self).waiting() == old(self).waiting().filter(|x: i64| x != id),
            final(self).next() == old(self).next(),
    {
        let ghost old_w = self.pending@;
        let mut kept: Vec<i64> = Vec::new();
        let mut was = false;
        for i in 0..self.pending.len()
            invariant
                old_w == self.pending@,
                kept@ == old_w.take(i as int).filter(|x: i64| x != id),
                was == old_w.take(i as int).contains(id),
        {
            let x = self.pending[i];
            proof {
                assert(old_w.take(i + 1) =~= old_w.take(i as int).push(x));
                old_w.take(i as int).lemma_filter_push(x, |y: i64| y != id);
            }
            proof {
                let t = old_w.take(i as int);
                let t1 = old_w.take(i + 1);
                if t.contains(id) {
                    let k = choose|k: int| 0 <= k < t.len() && t[k] == id;
                    assert(t1[k] == id);
                }
                if x == id {
                    assert(t1[i as int] == id);
                }
                if t1.contains(id) {
                    let k = choose|k: int| 0 <= k < t1.len() && t1[k] == id;
                    if k < i {
                        assert(t[k] == id);
                    }
                }
            }
            if x == id {
                was = true;
            } else {
                kept.push(x);
            }
        }
        assert(old_w.take(old_w.len() as int) =~= old_w);
        self.pending = kept;
        was
    }

    /// Delivers an answer: `true` when its id was waiting (the caller then
    /// hands the result to that request), `false` when it is dropped.
    pub fn resolve(&mut self, resp_id: i64) -> (delivered: bool)
        ensures
            delivered == old(self).waiting().contains(resp_id),
            final(self).waiting() == old(self).waiting().filter(|x: i64| x != resp_id),
            final(self).next() == old(self).next(),
    {
        self.cancel(resp_id)
    }

    /// The connection went away: every waiting id is handed back (the caller
    /// fails each with the same error) and none waits any more.
    pub fn fail_all(&mut self) -> (ids: Vec<i64>)
        ensures
            ids@ == old(self).waiting(),
            final(self).waiting().len() == 0,
            final(self).next() == old(self).next(),
    {
        let mut ids: Vec<i64> = Vec::new();
        std::mem::swap(&mut ids, &mut self.pending);
        ids
    }
}

} // verus!
