use cyan::infra::browser_drive::{
    element_exists, page_info_of, snapshot_items,
    action_done, action_step, checks_element, element_selector, exists_script, missing_element, navigate_done,
    snapshot_text, BrowserStep, SnapshotItem,
};
use cyan::infra::llm::client::failure_message;
use cyan::infra::llm::protocol::{ErrorBody, ErrorDetail};
use cyan::infra::mcp::jsonrpc::{handshake_error, spawn_error, stdio_program};
use cyan::infra::mcp::sse::{post_url, sse_route, SseRoute};
use cyan::infra::mcp::McpError;

fn item(k: &str, tag: &str, text: &str, href: &str, kind: &str) -> SnapshotItem {
    SnapshotItem { k: k.into(), tag: tag.into(), text: text.into(), href: href.into(), kind: kind.into() }
}

#[test]
fn element_selector_needs_a_number() {
    assert_eq!(element_selector("12").unwrap(), "[data-cyan-k=\"12\"]");
    assert_eq!(element_selector("1a").unwrap_err(), "k 必须是 BrowserSnapshot 返回的编号");
    assert!(checks_element("click"));
    assert!(!checks_element("real_key"));
    assert_eq!(exists_script(&"[data-cyan-k=\"3\"]".to_string()), "!!document.querySelector(\"[data-cyan-k=\\\"3\\\"]\")");
    assert_eq!(missing_element("3"), "元素 [3] 不存在，页面可能已变化，请先 BrowserSnapshot 重新获取");
}

#[test]
fn action_steps_by_kind() {
    let sel = "[data-cyan-k=\"2\"]".to_string();
    match action_step("click", &sel, None).unwrap() {
        BrowserStep::Fire(s) => assert_eq!(
            s,
            "(function(){var el=document.querySelector(\"[data-cyan-k=\\\"2\\\"]\"); el.click(); return true;})()"
        ),
        other => panic!("unexpected {:?}", other),
    }
    match action_step("clear_and_type", &sel, Some("hi \"x\"".into())).unwrap() {
        BrowserStep::Fire(s) => {
            assert!(s.contains("el.value='';"));
            assert!(s.contains("el.value=\"hi \\\"x\\\"\";"));
        }
        other => panic!("unexpected {:?}", other),
    }
    match action_step("type", &sel, Some("a".into())).unwrap() {
        BrowserStep::Fire(s) => assert!(!s.contains("el.value='';") && s.contains("el.value=\"a\"")),
        other => panic!("unexpected {:?}", other),
    }
    assert!(matches!(action_step("real_click", &sel, None), Ok(BrowserStep::RealClick)));
    assert!(matches!(action_step("real_key", &sel, Some("enter".into())), Ok(BrowserStep::RealKey(k)) if k == "enter"));
    assert_eq!(action_step("type", &sel, None).unwrap_err(), "type 动作需要 text 参数");
    assert_eq!(action_step("real_type", &sel, None).unwrap_err(), "real_type 动作需要 text 参数");
    assert!(action_step("hover", &sel, None).unwrap_err().starts_with("未知动作：hover（支持"));
    assert_eq!(action_done("click", "2", "https://a.dev/"), "已执行 click → [2]；当前页面：https://a.dev/");
    assert!(navigate_done("https://a.dev/", "A").starts_with("已打开：https://a.dev/\n标题：A（"));
}

#[test]
fn snapshot_lists_elements_and_summary() {
    let items = vec![
        item("1", "a", "首页", "https://a.dev/", ""),
        item("2", "input", "", "", "text"),
    ];
    let text = snapshot_text("https://a.dev/", "A", &items, "  正文  \n");
    assert_eq!(
        text,
        "页面：https://a.dev/\n标题：A\n可交互元素（BrowserAction 用 k 定位，共 2 个）：\n[1] <a> 首页 → https://a.dev/\n[2] <input type=text>\n—— 正文摘要 ——\n正文"
    );
    assert_eq!(snapshot_text("u", "t", &[], "   "), "页面：u\n标题：t\n（无可交互元素）");
}

#[test]
fn sse_routes_and_post_address() {
    assert_eq!(sse_route("endpoint", false), SseRoute::Endpoint);
    assert_eq!(sse_route("endpoint", true), SseRoute::Ignore);
    assert_eq!(sse_route("message", true), SseRoute::Message);
    assert_eq!(sse_route("ping", false), SseRoute::Ignore);
    assert_eq!(
        post_url("http://127.0.0.1:8080/sse", "/messages?session_id=abc").unwrap(),
        "http://127.0.0.1:8080/messages?session_id=abc"
    );
    match post_url("not a url", "/m") {
        Err(McpError::Protocol(m)) => assert!(m.starts_with("endpoint 地址非法（/m）：")),
        other => panic!("unexpected {:?}", other),
    }
}

#[test]
fn stdio_program_splits_and_resolves() {
    let dirs = vec!["/usr/bin".to_string(), "/bin".to_string()];
    let (prog, args) = stdio_program("./server --port 1", &dirs).unwrap();
    assert_eq!(prog, "./server");
    assert_eq!(args, vec!["--port".to_string(), "1".to_string()]);
    let (prog, _) = stdio_program("bash -c 'echo hi'", &dirs).unwrap();
    assert!(prog.starts_with('/') && prog.ends_with("bash"));
    match stdio_program("   ", &dirs) {
        Err(McpError::Spawn(m)) => assert_eq!(m, "启动命令为空"),
        other => panic!("unexpected {:?}", other),
    }
    match spawn_error("npx", "No such file") {
        McpError::Spawn(m) => assert_eq!(m, "`npx` 启动失败：No such file"),
        other => panic!("unexpected {:?}", other),
    }
}

#[test]
fn handshake_timeouts_name_initialize() {
    match handshake_error(McpError::Timeout("15s".into())) {
        McpError::Timeout(m) => assert_eq!(m, "握手 initialize 超时：15s"),
        other => panic!("unexpected {:?}", other),
    }
    assert!(matches!(handshake_error(McpError::Http("x".into())), McpError::Http(m) if m == "x"));
}

#[test]
fn failure_message_prefers_error_body() {
    let body = ErrorBody { error: Some(ErrorDetail { message: Some("invalid key".into()) }) };
    assert_eq!(failure_message(Some(body), "{...}".into()), "invalid key");
    assert_eq!(failure_message(None, "gateway down".into()), "gateway down");
    let empty = ErrorBody { error: Some(ErrorDetail { message: None }) };
    assert_eq!(failure_message(Some(empty), "raw".into()), "raw");
}

#[test]
fn snapshot_items_read_the_element_list() {
    let raw = r#"[{"k":"1","tag":"a","text":"Home","href":"/"},{"k":"2","tag":"input","type":"text","text":7}]"#;
    let items = snapshot_items(raw).unwrap();
    assert_eq!(items.len(), 2);
    assert_eq!((items[0].k.as_str(), items[0].tag.as_str(), items[0].href.as_str(), items[0].kind.as_str()), ("1", "a", "/", ""));
    assert_eq!((items[1].kind.as_str(), items[1].text.as_str()), ("text", ""));
    assert!(snapshot_items("not json").unwrap_err().starts_with("快照解析失败："));
    assert!(snapshot_items(r#"{"k":"1"}"#).unwrap_err().starts_with("快照解析失败："));
    assert!(snapshot_items("[]").unwrap().is_empty());
}

#[test]
fn page_info_reads_url_and_title() {
    let (url, title) = page_info_of(r#"{"url":"https://a.b/","title":"T"}"#).unwrap();
    assert_eq!((url.as_str(), title.as_str()), ("https://a.b/", "T"));
    let (url, title) = page_info_of("[1]").unwrap();
    assert_eq!((url.as_str(), title.as_str()), ("", ""));
    assert!(page_info_of("{").unwrap_err().starts_with("页面信息解析失败："));
}

#[test]
fn element_exists_only_on_true() {
    assert!(element_exists(" true\n"));
    assert!(!element_exists("false"));
    assert!(!element_exists("True"));
}
