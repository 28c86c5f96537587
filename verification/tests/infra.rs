use cyan::domain::skill::skill::SkillSource;
use cyan::infra::fs::skill::{parse_skill, serialize_skill, skill_id_of};
use cyan::infra::llm::client::{StreamLines, TurnAssembler};
use cyan::infra::llm::protocol::{ChatChunk, ChunkChoice, ChunkDelta, ChunkFunction, ChunkToolCall, ChunkUsage};
use cyan::infra::mcp::jsonrpc::{
    call_result_content, content_text, decode_response, encode_notification, encode_request,
    finish_call_result, parse_tools, shell_split, Dispatcher,
};
use cyan::infra::mcp::sse::SseParser;
use cyan::infra::mcp::{parse_tool_name, tool_name, truncate_output, McpError, MAX_TOOL_OUTPUT};
use cyan::support::json::Json;

fn obj(members: Vec<(&str, Json)>) -> Json {
    Json::Object(members.into_iter().map(|(k, v)| (k.to_string(), v)).collect())
}

fn s(x: &str) -> Json {
    Json::Str(x.to_string())
}

fn call_result(result: &Json) -> Result<String, McpError> {
    let (is_error, items) = call_result_content(result);
    let lines: Vec<String> = items.iter().map(|c| content_text(c, &Err("未保存".to_string()))).collect();
    finish_call_result(is_error, &lines)
}

#[test]
fn parse_full_frontmatter() {
    let text = "---\nname: 周报\ndescription: 汇总本周 git 提交\nenabled: true\n---\n正文 $ARGUMENTS 模板\n";
    let s = parse_skill("weekly-report", text, SkillSource::Global).unwrap();
    assert_eq!(s.id, "weekly-report");
    assert_eq!(s.name, "周报");
    assert_eq!(s.description, "汇总本周 git 提交");
    assert!(s.enabled);
    assert_eq!(s.content, "正文 $ARGUMENTS 模板");
    assert_eq!(s.source, SkillSource::Global);
}

#[test]
fn parse_enabled_false_and_unknown_keys() {
    let text = "---\nname: x\nenabled: false\nfoo: bar\n---\nbody";
    let s = parse_skill("a-b", text, SkillSource::Project).unwrap();
    assert!(!s.enabled);
    assert_eq!(s.content, "body");
}

#[test]
fn parse_without_frontmatter_falls_back() {
    let s = parse_skill("plain", "直接就是正文", SkillSource::Global).unwrap();
    assert_eq!(s.name, "plain");
    assert!(s.enabled);
    assert_eq!(s.content, "直接就是正文");
}

#[test]
fn parse_rejects_bad_id() {
    assert!(parse_skill("../evil", "---\nname: x\n---\nb", SkillSource::Global).is_err());
}

#[test]
fn serialize_then_parse_roundtrip() {
    let text = serialize_skill("周报", "描述", false, None, "模板 $ARGUMENTS");
    let s = parse_skill("weekly-report", &text, SkillSource::Global).unwrap();
    assert_eq!(s.name, "周报");
    assert_eq!(s.description, "描述");
    assert!(!s.enabled);
    assert_eq!(s.content, "模板 $ARGUMENTS");
    assert_eq!(s.market_repo, None);
}

#[test]
fn market_key_roundtrip() {
    let text = serialize_skill("周报", "描述", true, Some("cy/weekly-skills"), "正文");
    assert!(text.contains("market: cy/weekly-skills"));
    let s = parse_skill("weekly-report", &text, SkillSource::Global).unwrap();
    assert_eq!(s.market_repo.as_deref(), Some("cy/weekly-skills"));
    let text = serialize_skill("周报", "描述", true, None, "正文");
    assert!(!text.contains("market:"));
    let s = parse_skill("weekly-report", &text, SkillSource::Global).unwrap();
    assert_eq!(s.market_repo, None);
}

#[test]
fn skill_ids_from_paths() {
    assert_eq!(skill_id_of("/tmp/repo/code-review/SKILL.md").as_deref(), Some("code-review"));
    assert_eq!(skill_id_of("/tmp/repo/weekly-report/skill.md").as_deref(), Some("weekly-report"));
    assert_eq!(skill_id_of("/tmp/repo/top-skill.md").as_deref(), Some("top-skill"));
}

#[test]
fn encode_request_frame_shape() {
    let frame = encode_request(7, "tools/list", Json::Object(vec![]));
    let v: serde_json::Value = serde_json::from_str(&frame).unwrap();
    assert_eq!(v["jsonrpc"], "2.0");
    assert_eq!(v["id"], 7);
    assert_eq!(v["method"], "tools/list");
    assert!(v.get("params").is_some());
    assert!(!frame.contains('\n'), "帧必须是单行");
}

#[test]
fn encode_notification_has_no_id() {
    let frame = encode_notification("notifications/initialized", Json::Object(vec![]));
    let v: serde_json::Value = serde_json::from_str(&frame).unwrap();
    assert_eq!(v["method"], "notifications/initialized");
    assert!(v.get("id").is_none());
}

#[test]
fn decode_result_response() {
    let r = decode_response(r#"{"jsonrpc":"2.0","id":3,"result":{"tools":[]}}"#).unwrap().unwrap();
    assert_eq!(r.id, 3);
    match r.result.unwrap() {
        Json::Object(m) => {
            assert_eq!(m.len(), 1);
            assert_eq!(m[0].0, "tools");
            assert!(matches!(&m[0].1, Json::Array(a) if a.is_empty()));
        },
        other => panic!("unexpected {other:?}"),
    }
}

#[test]
fn decode_error_response_maps_rpc_error() {
    let r = decode_response(r#"{"jsonrpc":"2.0","id":4,"error":{"code":-32601,"message":"Method not found"}}"#)
        .unwrap()
        .unwrap();
    assert_eq!(r.id, 4);
    let err = r.result.unwrap_err();
    assert!(err.message().contains("-32601"));
    assert!(err.message().contains("Method not found"));
}

#[test]
fn decode_ignores_server_notifications_and_requests() {
    assert!(decode_response(r#"{"jsonrpc":"2.0","method":"notifications/progress","params":{}}"#).unwrap().is_none());
    assert!(decode_response(r#"{"jsonrpc":"2.0"}"#).unwrap().is_none());
    let r = decode_response(r#"{"jsonrpc":"2.0","id":"9","result":{}}"#).unwrap().unwrap();
    assert_eq!(r.id, 9);
}

#[test]
fn decode_rejects_garbage_and_bad_frames() {
    assert!(decode_response("not json").is_err());
    assert!(decode_response(r#"{"id":1,"result":{}}"#).is_err());
    assert!(decode_response(r#"{"jsonrpc":"2.0","id":1}"#).is_err());
}

#[test]
fn parse_tools_extracts_name_desc_schema() {
    let schema = obj(vec![
        ("type", s("object")),
        ("properties", obj(vec![("text", obj(vec![("type", s("string"))]))])),
    ]);
    let result = obj(vec![(
        "tools",
        Json::Array(vec![
            obj(vec![("name", s("echo")), ("description", s("回显")), ("inputSchema", schema)]),
            obj(vec![("name", s("ping"))]),
            obj(vec![("description", s("缺 name 跳过"))]),
        ]),
    )]);
    let tools = parse_tools(result).unwrap();
    assert_eq!(tools.len(), 2);
    assert_eq!(tools[0].name, "echo");
    assert_eq!(tools[0].description, "回显");
    match &tools[0].input_schema {
        Json::Object(m) => assert_eq!(m[1].0, "properties"),
        other => panic!("unexpected {other:?}"),
    }
    assert_eq!(tools[1].name, "ping");
    match &tools[1].input_schema {
        Json::Object(m) => {
            assert_eq!(m.len(), 1);
            assert_eq!(m[0].0, "type");
            assert!(matches!(&m[0].1, Json::Str(t) if t == "object"));
        },
        other => panic!("unexpected {other:?}"),
    }
    assert!(parse_tools(obj(vec![])).is_err());
}

#[test]
fn parse_call_result_joins_text_and_flags_error() {
    let ok = obj(vec![(
        "content",
        Json::Array(vec![
            obj(vec![("type", s("text")), ("text", s("a"))]),
            obj(vec![("type", s("text")), ("text", s("b"))]),
        ]),
    )]);
    assert_eq!(call_result(&ok).unwrap(), "a\nb");
    let err = obj(vec![
        ("isError", Json::Bool(true)),
        ("content", Json::Array(vec![obj(vec![("type", s("text")), ("text", s("boom"))])])),
    ]);
    let e = call_result(&err).unwrap_err();
    assert!(matches!(e, McpError::Tool(_)));
    assert!(e.message().contains("boom"));
    let other = obj(vec![("content", Json::Array(vec![obj(vec![("type", s("audio")), ("data", s("..."))])]))]);
    assert!(call_result(&other).unwrap().contains("不支持的内容类型"));
}

#[test]
fn parse_call_result_image_empty_data_is_placeholder() {
    let result = obj(vec![(
        "content",
        Json::Array(vec![obj(vec![("type", s("image")), ("data", s("")), ("mimeType", s("image/png"))])]),
    )]);
    let out = call_result(&result).unwrap();
    assert!(out.contains("空图片内容"));
    let result = obj(vec![(
        "content",
        Json::Array(vec![obj(vec![("type", s("image")), ("data", s("aGk=")), ("mimeType", s("video/mp4"))])]),
    )]);
    let out = call_result(&result).unwrap();
    assert!(out.contains("图片落盘失败"));
}

#[test]
fn shell_split_handles_quotes() {
    assert_eq!(shell_split("npx -y @scope/pkg"), vec!["npx", "-y", "@scope/pkg"]);
    assert_eq!(
        shell_split("node server.js --name \"my server\""),
        vec!["node", "server.js", "--name", "my server"]
    );
    assert_eq!(shell_split("echo 'a b'"), vec!["echo", "a b"]);
    assert!(shell_split("   ").is_empty());
}

#[test]
fn dispatcher_resolves_and_fails_all() {
    let mut d = Dispatcher::new();
    let id = d.register();
    assert!(d.resolve(id));
    assert!(!d.resolve(999));
    let id2 = d.register();
    assert_eq!(id2, id + 1);
    assert_eq!(d.fail_all(), vec![id2]);
    assert!(!d.resolve(id2));
}

#[test]
fn dispatcher_delivers_each_answer_once() {
    let mut d = Dispatcher::new();
    let a = d.register();
    let b = d.register();
    assert!(d.resolve(a));
    assert!(!d.resolve(a));
    assert!(d.resolve(b));
}

#[test]
fn tool_name_roundtrip() {
    assert_eq!(tool_name("fs", "read"), "mcp__fs__read");
    assert_eq!(parse_tool_name("mcp__fs__read"), Some(("fs".to_string(), "read".to_string())));
}

#[test]
fn parse_tool_name_rejects_illegal() {
    assert_eq!(parse_tool_name("Read"), None);
    assert_eq!(parse_tool_name("mcp__"), None);
    assert_eq!(parse_tool_name("mcp__fs__"), None);
    assert_eq!(parse_tool_name("mcp____read"), None);
    assert_eq!(parse_tool_name("mcpfsread"), None);
}

#[test]
fn truncate_output_at_50kb() {
    let s = "汉".repeat(MAX_TOOL_OUTPUT);
    let out = truncate_output(&s, MAX_TOOL_OUTPUT);
    assert!(out.contains("[输出已截断]"));
    assert!(out.len() <= MAX_TOOL_OUTPUT + 32);
    let short = "abc";
    assert_eq!(truncate_output(short, MAX_TOOL_OUTPUT), "abc");
}

#[test]
fn sse_parser_endpoint_event() {
    let mut p = SseParser::default();
    assert!(p.feed("event: endpo").is_empty());
    let events = p.feed("int\ndata: /messages?session_id=abc\n\n");
    assert_eq!(events, vec![("endpoint".to_string(), "/messages?session_id=abc".to_string())]);
}

#[test]
fn sse_parser_message_event_and_comments() {
    let mut p = SseParser::default();
    let events = p.feed(": keep-alive\n\nevent: message\ndata: {\"jsonrpc\":\"2.0\",\"id\":1}\n\n");
    assert_eq!(events, vec![("message".to_string(), "{\"jsonrpc\":\"2.0\",\"id\":1}".to_string())]);
}

#[test]
fn sse_parser_default_event_and_multiline_data() {
    let mut p = SseParser::default();
    let events = p.feed("data: line1\ndata: line2\n\n");
    assert_eq!(events, vec![("message".to_string(), "line1\nline2".to_string())]);
    let events = p.feed("event: endpoint\r\ndata: /x\r\n\r\n");
    assert_eq!(events, vec![("endpoint".to_string(), "/x".to_string())]);
}

#[test]
fn stream_lines_stop_at_done() {
    let mut lines = StreamLines::new();
    assert!(lines.feed("data: {\"a\":1}").is_empty());
    let out = lines.feed("\n: ping\n\ndata: [DONE]\ndata: late\n");
    assert_eq!(out, vec!["{\"a\":1}".to_string()]);
    assert_eq!(lines.feed(""), vec!["late".to_string()]);
}

#[test]
fn stream_lines_same_payloads_whatever_the_pieces() {
    let text = "data: one\n: keep-alive\ndata: two\ndata: thr";
    let mut whole = StreamLines::new();
    let all = whole.feed(text);
    for cut in 0..=text.len() {
        let mut split = StreamLines::new();
        let mut got = split.feed(&text[..cut]);
        got.extend(split.feed(&text[cut..]));
        assert_eq!(got, all, "cut at {cut}");
    }
    assert_eq!(all, vec!["one".to_string(), "two".to_string()]);
}

#[test]
fn turn_assembler_joins_pieces() {
    let mut a = TurnAssembler::new();
    let piece = |idx: Option<usize>, id: Option<&str>, name: Option<&str>, args: Option<&str>| ChunkToolCall {
        index: idx,
        id: id.map(String::from),
        function: Some(ChunkFunction { name: name.map(String::from), arguments: args.map(String::from) }),
    };
    let shown = a.apply(ChatChunk {
        choices: vec![ChunkChoice {
            delta: Some(ChunkDelta {
                content: Some("Hel".into()),
                reasoning_content: None,
                reasoning: Some("思".into()),
                tool_calls: Some(vec![piece(Some(1), Some("c1"), Some("Read"), Some("{\"pa"))]),
            }),
        }],
        usage: None,
    });
    assert_eq!(shown.len(), 2);
    a.apply(ChatChunk {
        choices: vec![ChunkChoice {
            delta: Some(ChunkDelta {
                content: Some("lo".into()),
                reasoning_content: None,
                reasoning: None,
                tool_calls: Some(vec![piece(Some(1), None, None, Some("th\":1}"))]),
            }),
        }],
        usage: Some(ChunkUsage { prompt_tokens: Some(12), completion_tokens: None }),
    });
    let turn = a.finish();
    assert_eq!(turn.text, "Hello");
    assert_eq!(turn.thinking, "思");
    assert_eq!(turn.tool_calls.len(), 2);
    assert_eq!(turn.tool_calls[1].id, "c1");
    assert_eq!(turn.tool_calls[1].arguments, "{\"path\":1}");
    assert_eq!(turn.usage.map(|u| (u.input, u.output)), Some((12, 0)));
}

#[test]
fn sse_parser_same_events_whatever_the_pieces() {
    let text = "event: endpoint\ndata: /m?s=1\n\n: c\ndata: a\ndata: b\n\nevent: x\ndata: y\n\n";
    let mut whole = SseParser::default();
    let all = whole.feed(text);
    for cut in 0..text.len() {
        if !text.is_char_boundary(cut) {
            continue;
        }
        let mut p = SseParser::default();
        let mut events = p.feed(&text[..cut]);
        events.extend(p.feed(&text[cut..]));
        assert_eq!(events, all, "cut at {cut}");
    }
    assert_eq!(all.len(), 3);
}

#[test]
fn serialize_then_parse_keeps_every_field() {
    let text = serialize_skill("周报 v2", "汇总: 本周", false, Some("cy/weekly"), "第一行\n第二行 $ARGUMENTS");
    let s = parse_skill("weekly-report", &text, SkillSource::Project).unwrap();
    assert_eq!(s.name, "周报 v2");
    assert_eq!(s.description, "汇总: 本周");
    assert!(!s.enabled);
    assert_eq!(s.market_repo.as_deref(), Some("cy/weekly"));
    assert_eq!(s.content, "第一行\n第二行 $ARGUMENTS");
}
