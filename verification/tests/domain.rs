use chrono::NaiveDateTime;

use cyan::domain::agent::agent_run::{AgentRun, RunState};
use cyan::domain::agent::bash::segment_dangerous;
use cyan::infra::process::first_program;
use cyan::domain::agent::permission::{ApprovalDecision, PermMode, PermissionEngine};
use cyan::domain::agent::tool::{is_write_tool, ToolOutput, ToolOutputStatus};
use cyan::domain::config::mcp::{McpServer, McpStatus, McpTransport};
use cyan::domain::config::model::{ModelConfig, ModelStatus};
use cyan::domain::config::perm_rule::{PermAction, PermissionRule};
use cyan::domain::plugin::plugin::{Plugin, PluginManifest, PluginStatus};
use cyan::domain::project::project::{Project, ProjectTemplate};
use cyan::domain::session::message::{Message, MessageImage, MessageKind};
use cyan::domain::session::session::{Session, COMPACT_THRESHOLD};
use cyan::domain::shared::project_path::{expand_tilde, expand_tilde_with, ProjectPath};
use cyan::domain::skill::skill::{Skill, SkillSource};
use cyan::domain::DomainError;

fn rule(tool: &str, pattern: &str, action: PermAction, sort: i64) -> PermissionRule {
    PermissionRule {
        id: 0,
        project_id: None,
        session_id: None,
        tool: tool.into(),
        pattern: pattern.into(),
        action,
        sort,
        plugin_origin: None,
        created_at: NaiveDateTime::default(),
        updated_at: NaiveDateTime::default(),
        deleted_at: None,
    }
}

#[test]
fn builtin_deny_has_top_priority_over_allow_rule() {
    let rules = vec![rule("Read", "**/.env", PermAction::Allow, 0)];
    let engine = PermissionEngine::new(rules, PermMode::Ask);
    assert_eq!(engine.decide("Read", "config/.env").action, PermAction::Deny);
    assert_eq!(engine.decide("Read", ".env.production").action, PermAction::Deny);
    assert_eq!(engine.decide("Read", "keys/id_rsa").action, PermAction::Deny);
    assert_eq!(engine.decide("Read", "keys/id_rsa.pub").action, PermAction::Deny);
}

#[test]
fn builtin_deny_dangerous_bash() {
    let engine = PermissionEngine::new(vec![], PermMode::Auto);
    for cmd in [
        "rm -rf /",
        "rm -fr /",
        "rm -r -f /",
        "rm --recursive --force /",
        "rm -rf /*",
        "rm -rf ~",
        "rm -rf ~/*",
        "rm -rf $HOME",
        "echo hi; rm -rf /",
        "sudo  rm -rf / --no-preserve-root",
        "FOO=1 rm -rf /",
        "env rm -rf /",
        "nohup rm -rf ~/* &",
    ] {
        assert_eq!(engine.decide("Bash", cmd).action, PermAction::Deny, "应 deny：{cmd}");
    }
    assert_eq!(engine.decide("Bash", "mkfs.ext4 /dev/sda1").action, PermAction::Deny);
    assert_eq!(engine.decide("Bash", ":(){:|:&};:").action, PermAction::Deny);
    assert_eq!(engine.decide("Bash", "echo \"rm -rf /\"").action, PermAction::Ask);
    assert_eq!(engine.decide("Bash", "echo 'mkfs.ext4'").action, PermAction::Ask);
    for cmd in [
        "rm -rf /Users/cy/Documents/workspace/cyan/cyan/temp.txt",
        "rm -rf /Users/cy/Documents/workspace/cyan/cyan/*",
        "rm -rf ./target",
        "rm -rf dist build",
        "rm temp.txt",
    ] {
        assert_ne!(engine.decide("Bash", cmd).action, PermAction::Deny, "不应 deny：{cmd}");
    }
}

#[test]
fn user_rules_first_match_by_sort_asc() {
    let rules = vec![
        rule("Bash", "cargo *", PermAction::Allow, 10),
        rule("Bash", "cargo *", PermAction::Deny, 1),
    ];
    let engine = PermissionEngine::new(rules, PermMode::Ask);
    assert_eq!(engine.decide("Bash", "cargo build").action, PermAction::Deny);
}

#[test]
fn write_tools_default_ask_readonly_default_allow() {
    let engine = PermissionEngine::new(vec![], PermMode::Ask);
    assert_eq!(engine.decide("Edit", "src/a.rs").action, PermAction::Ask);
    assert_eq!(engine.decide("Write", "src/a.rs").action, PermAction::Ask);
    assert_eq!(engine.decide("MultiEdit", "src/a.rs").action, PermAction::Ask);
    assert_eq!(engine.decide("Bash", "ls").action, PermAction::Ask);
    assert_eq!(engine.decide("Read", "src/a.rs").action, PermAction::Allow);
    assert_eq!(engine.decide("Grep", "pattern").action, PermAction::Allow);
    assert_eq!(engine.decide("Glob", "src/**").action, PermAction::Allow);
    assert_eq!(engine.decide("WebFetch", "https://x.dev").action, PermAction::Allow);
}

#[test]
fn plan_mode_suppresses_write_even_with_allow_rule() {
    let rules = vec![rule("Edit", "src/**", PermAction::Allow, 0)];
    let engine = PermissionEngine::new(rules, PermMode::Plan);
    assert_eq!(engine.decide("Edit", "src/a.rs").action, PermAction::Deny);
    assert_eq!(engine.decide("Bash", "cargo build").action, PermAction::Deny);
    assert_eq!(engine.decide("Read", "src/a.rs").action, PermAction::Allow);
    assert_eq!(engine.decide("Read", ".env").action, PermAction::Deny);
}

#[test]
fn mcp_tools_default_ask() {
    let engine = PermissionEngine::new(vec![], PermMode::Ask);
    assert_eq!(engine.decide("mcp__fs__write", "x").action, PermAction::Ask);
}

#[test]
fn decision_reasons_and_added_rules() {
    let mut engine = PermissionEngine::new(vec![], PermMode::Ask);
    assert_eq!(engine.decide("Read", "a.rs").reason, "只读工具默认允许");
    assert_eq!(engine.decide("Edit", "a.rs").reason, "写类工具默认需要审批");
    assert_eq!(engine.decide("Read", ".env").reason, "内置 deny 清单命中，不可覆盖");
    engine.add_rule(rule("Edit", "src/**", PermAction::Allow, 5));
    let d = engine.decide("Edit", "src/a.rs");
    assert_eq!(d.action, PermAction::Allow);
    assert_eq!(d.reason, "命中用户规则 Edit src/**");
    let plan = PermissionEngine::new(vec![], PermMode::Plan);
    assert_eq!(plan.decide("Write", "x").reason, "plan 模式禁止写操作");
}

#[test]
fn mode_and_decision_strings() {
    assert_eq!(PermMode::parse("auto"), PermMode::Auto);
    assert_eq!(PermMode::parse("plan"), PermMode::Plan);
    assert_eq!(PermMode::parse("whatever"), PermMode::Ask);
    assert_eq!(ApprovalDecision::parse("always"), Some(ApprovalDecision::Always));
    assert_eq!(ApprovalDecision::parse("abort"), None);
    assert_eq!(ApprovalDecision::Abort.as_str(), "abort");
    assert!(ApprovalDecision::Auto.is_allowed());
    assert!(!ApprovalDecision::Reject.is_allowed());
    assert_eq!(PermissionEngine::builtin_deny_file_globs(), vec![".env", ".env.*", "id_rsa", "id_rsa.*"]);
    assert_eq!(PermissionEngine::builtin_deny_cmd_labels().len(), 4);
}

#[test]
fn write_tool_classification() {
    assert!(is_write_tool("Edit"));
    assert!(is_write_tool("mcp__git__commit"));
    assert!(!is_write_tool("Read"));
    assert_eq!(ToolOutput::ok("x").status, ToolOutputStatus::Success);
    assert_eq!(ToolOutput::error("boom").output, "boom");
    assert_eq!(ToolOutputStatus::Error.as_str(), "error");
}

#[test]
fn start_conflict_when_running() {
    let mut run = AgentRun::new(1);
    run.start().unwrap();
    assert!(matches!(run.start(), Err(DomainError::Conflict(_))));
}

#[test]
fn approve_resumes_and_returns_context() {
    let mut run = AgentRun::new(1);
    run.start().unwrap();
    run.request_approval("c1", "Edit", "src/a.rs").unwrap();
    assert_eq!(run.state(), RunState::WaitingApproval);
    assert_eq!(run.take_decision("c1"), None);
    let ctx = run.approve("c1", ApprovalDecision::Once);
    assert_eq!(ctx, Some(("Edit".to_string(), "src/a.rs".to_string())));
    assert_eq!(run.state(), RunState::Running);
    assert_eq!(run.take_decision("c1"), Some(ApprovalDecision::Once));
    assert!(run.approve("c1", ApprovalDecision::Reject).is_none());
    assert_eq!(run.take_decision("c1"), None);
}

#[test]
fn interrupt_aborts_pending_approval() {
    let mut run = AgentRun::new(1);
    run.start().unwrap();
    run.request_approval("c1", "Edit", "src/a.rs").unwrap();
    let drained = run.interrupt();
    assert_eq!(run.state(), RunState::Idle);
    assert_eq!(drained.len(), 1);
    assert_eq!(drained[0].call_id, "c1");
    assert_eq!(run.take_decision("c1"), Some(ApprovalDecision::Abort));
}

#[test]
fn request_approval_rejected_when_not_running() {
    let mut run = AgentRun::new(1);
    assert!(run.request_approval("c1", "Edit", "src/a.rs").is_err());
}

#[test]
fn status_flow() {
    let mut s = McpServer::new("fs".into(), "npx mcp-fs".into(), NaiveDateTime::default());
    assert_eq!(s.status, McpStatus::Disabled);
    s.connect().unwrap();
    assert_eq!(s.status, McpStatus::Connecting);
    assert!(s.connect().is_err());
    s.mark_connected(3).unwrap();
    assert_eq!(s.status, McpStatus::Connected);
    assert_eq!(s.tools, 3);
    s.disable();
    assert_eq!(s.status, McpStatus::Disabled);
    assert_eq!(s.tools, 0);
}

#[test]
fn error_flow() {
    let mut s = McpServer::new("fs".into(), "npx mcp-fs".into(), NaiveDateTime::default());
    s.mark_error("握手超时".into());
    assert_eq!(s.status, McpStatus::Error);
    assert_eq!(s.last_error.as_deref(), Some("握手超时"));
    s.connect().unwrap();
    assert_eq!(s.status, McpStatus::Connecting);
    assert!(s.mark_connected(0).is_ok());
}

#[test]
fn validate_empty() {
    let s = McpServer::new(" ".into(), "cmd".into(), NaiveDateTime::default());
    assert!(matches!(s.validate(), Err(DomainError::Validation(_))));
}

#[test]
fn transport_parse_and_url_check() {
    assert_eq!(McpTransport::parse("sse"), McpTransport::Sse);
    assert_eq!(McpTransport::parse("stdio"), McpTransport::Stdio);
    assert_eq!(McpTransport::parse("junk"), McpTransport::Stdio);
    assert!(McpTransport::is_remote_url("https://x.dev/sse"));
    assert!(McpTransport::is_remote_url("http://127.0.0.1:54554/sse"));
    assert!(!McpTransport::is_remote_url("npx -y foo"));
}

#[test]
fn validate_sse_requires_url_and_object_headers() {
    let mut s = McpServer::with_transport(
        "db".into(),
        McpTransport::Sse,
        "http://127.0.0.1:54554/sse".into(),
        NaiveDateTime::default(),
    );
    assert!(s.validate().is_ok());
    s.headers = r#"{"Authorization":"Bearer t"}"#.into();
    assert!(s.validate().is_ok());
    s.headers = "[]".into();
    assert!(matches!(s.validate(), Err(DomainError::Validation(_))));
    s.headers = "not json".into();
    assert!(matches!(s.validate(), Err(DomainError::Validation(_))));
    s.headers = "{}".into();
    s.command = "npx -y foo".into();
    assert!(matches!(s.validate(), Err(DomainError::Validation(_))));
    let st = McpServer::new("fs".into(), "npx -y foo".into(), NaiveDateTime::default());
    assert!(st.validate().is_ok());
}

#[test]
fn stdio_server_ignores_headers() {
    let mut s = McpServer::new("fs".into(), "npx -y foo".into(), NaiveDateTime::default());
    s.headers = "not json".into();
    assert!(s.validate().is_ok());
}

#[test]
fn headers_map_tolerates_bad_json() {
    let mut s = McpServer::new("x".into(), "c".into(), NaiveDateTime::default());
    s.headers = r#"{"A":"1","B":"2"}"#.into();
    let h = s.headers_map();
    assert_eq!(h.iter().find(|(k, _)| k == "A").map(|(_, v)| v.as_str()), Some("1"));
    s.headers = "broken".into();
    assert!(s.headers_map().is_empty());
}

#[test]
fn status_strings_roundtrip() {
    for st in [McpStatus::Disabled, McpStatus::Connecting, McpStatus::Connected, McpStatus::Error] {
        assert_eq!(McpStatus::parse(st.as_str()), st);
    }
    assert_eq!(McpStatus::parse("junk"), McpStatus::Disabled);
    assert_eq!(ModelStatus::parse(ModelStatus::Disabled.as_str()), ModelStatus::Disabled);
    assert_eq!(PluginStatus::parse("other"), PluginStatus::Enabled);
    assert_eq!(PermAction::parse(PermAction::Ask.as_str()), Some(PermAction::Ask));
    assert_eq!(MessageKind::parse("tool").unwrap(), MessageKind::Tool);
    assert_eq!(McpTransport::Sse.as_str(), "sse");
}

fn base_model() -> ModelConfig {
    ModelConfig::new(
        "kimi".into(),
        "moonshot".into(),
        "https://api.moonshot.cn/v1".into(),
        128_000,
        NaiveDateTime::default(),
    )
}

#[test]
fn validate_ok() {
    let mut m = base_model();
    m.normalize();
    assert!(m.validate().is_ok());
}

#[test]
fn validate_rejects_empty_name() {
    let mut m = base_model();
    m.name = "  ".into();
    m.normalize();
    assert!(matches!(m.validate(), Err(DomainError::Validation(_))));
}

#[test]
fn validate_rejects_bad_base_url() {
    let mut m = base_model();
    m.base_url = "api.moonshot.cn".into();
    assert!(matches!(m.validate(), Err(DomainError::Validation(_))));
}

#[test]
fn validate_rejects_small_context_window() {
    let mut m = base_model();
    m.context_window = 512;
    assert!(matches!(m.validate(), Err(DomainError::Validation(_))));
}

#[test]
fn normalize_strips_trailing_slash() {
    let mut m = base_model();
    m.base_url = "https://api.moonshot.cn/v1/".into();
    m.normalize();
    assert_eq!(m.base_url, "https://api.moonshot.cn/v1");
}

#[test]
fn mask_key_keeps_last4() {
    assert_eq!(ModelConfig::mask_key("sk-abcdef123456"), "sk-****3456");
    assert_eq!(ModelConfig::mask_key("abcd"), "****");
    assert_eq!(ModelConfig::mask_key(""), "****");
    assert_eq!(ModelConfig::keychain_ref("kimi"), "keychain://cyan/model/kimi");
}

#[test]
fn always_allow_file_derives_dir_glob() {
    let r = PermissionRule::always_allow_from("Edit", "src/agent/approval.ts");
    assert_eq!(r.tool, "Edit");
    assert_eq!(r.pattern, "src/agent/**");
    assert_eq!(r.action, PermAction::Allow);
    assert!(r.matches("Edit", "src/agent/other.ts"));
    assert!(!r.matches("Edit", "README.md"));
}

#[test]
fn always_allow_root_file_uses_self() {
    let r = PermissionRule::always_allow_from("Write", "README.md");
    assert_eq!(r.pattern, "README.md");
}

#[test]
fn always_allow_bash_uses_first_token() {
    let r = PermissionRule::always_allow_from("Bash", "cargo build --release");
    assert_eq!(r.pattern, "cargo *");
    assert!(r.matches("Bash", "cargo test"));
    assert!(!r.matches("Bash", "npm test"));
}

#[test]
fn wildcard_tool_matches_all() {
    let r = rule("*", "docs/**", PermAction::Allow, 0);
    assert!(r.matches("Read", "docs/a.md"));
    assert!(r.matches("Edit", "docs/a.md"));
    assert!(!r.matches("Read", "src/a.rs"));
}

#[test]
fn rule_validation_messages() {
    let mut r = rule(" ", "x", PermAction::Allow, 0);
    assert!(matches!(r.validate(), Err(DomainError::Validation(m)) if m == "规则工具名不能为空"));
    r.tool = "Read".into();
    r.pattern = "[".into();
    assert!(matches!(r.validate(), Err(DomainError::Validation(m)) if m.starts_with("非法 glob pattern：")));
    r.pattern = "src/**".into();
    assert!(r.validate().is_ok());
}

fn manifest(name: &str, perms: Vec<&str>) -> PluginManifest {
    PluginManifest {
        name: name.into(),
        version: "0.1.0".into(),
        author: "tester".into(),
        description: "d".into(),
        cyan_min_version: None,
        permissions: perms.into_iter().map(String::from).collect(),
    }
}

#[test]
fn manifest_validate_ok() {
    assert!(manifest("my-plugin", vec!["skills", "mcp", "rules"]).validate().is_ok());
    assert!(manifest("my_plugin2", vec![]).validate().is_ok());
}

#[test]
fn manifest_validate_rejects_bad_name() {
    assert!(manifest("", vec![]).validate().is_err());
    assert!(manifest("My Plugin", vec![]).validate().is_err());
    assert!(manifest("../evil", vec![]).validate().is_err());
    assert!(manifest("-lead", vec![]).validate().is_err());
}

#[test]
fn manifest_validate_rejects_unknown_permission() {
    let err = manifest("ok-plugin", vec!["fs:read"]).validate().unwrap_err();
    assert!(matches!(err, DomainError::Validation(_)));
    assert_eq!(err.message(), "校验失败：未知权限声明：fs:read（白名单：skills/mcp/rules）");
}

#[test]
fn enable_disable_idempotent() {
    let m = manifest("p", vec![]);
    let mut p = Plugin::from_manifest(&m, (1, 2, 3), NaiveDateTime::default());
    assert!(!p.enable(), "已启用时 enable 幂等返回 false");
    assert!(p.disable());
    assert!(!p.disable());
    assert_eq!(p.status, PluginStatus::Disabled);
    assert!(p.enable());
    assert_eq!(p.status, PluginStatus::Enabled);
    assert!(manifest("p", vec!["mcp"]).has_permission("mcp"));
    assert!(!manifest("p", vec!["mcp"]).has_permission("rules"));
}

#[test]
fn template_parse() {
    assert_eq!(ProjectTemplate::parse("empty").unwrap(), ProjectTemplate::Empty);
    assert!(ProjectTemplate::parse("java").is_err());
}

#[test]
fn scaffold_files_nonempty() {
    assert!(!ProjectTemplate::Empty.scaffold_files("demo").is_empty());
    assert!(ProjectTemplate::Rust.scaffold_files("demo").iter().any(|(p, _)| p == "Cargo.toml"));
}

#[test]
fn scaffold_contents_name_the_project() {
    let files = ProjectTemplate::Node.scaffold_files("demo");
    assert_eq!(files[0].0, "package.json");
    assert!(files[0].1.contains("\"name\": \"demo\""));
    assert_eq!(ProjectTemplate::Empty.scaffold_files("x")[0].1, "# x\n");
}

#[test]
fn validate_new_name_rules() {
    assert!(Project::validate_new_name("my-app").is_ok());
    assert!(Project::validate_new_name("  ").is_err());
    assert!(Project::validate_new_name("a/b").is_err());
    assert!(Project::validate_new_name(".hidden").is_err());
}

#[test]
fn message_image_parse_validates() {
    let img = MessageImage::parse("image/png", "aGVsbG8=").unwrap();
    assert_eq!(img.mime, "image/png");
    let img = MessageImage::parse("Image/JPG", "aGVsbG8=").unwrap();
    assert_eq!(img.mime, "image/jpeg");
    assert!(MessageImage::parse("image/svg+xml", "aGVsbG8=").is_none());
    assert!(MessageImage::parse("text/plain", "aGVsbG8=").is_none());
    assert!(MessageImage::parse("image/png", "abc").is_none());
    assert!(MessageImage::parse("image/png", "a====").is_none());
    assert!(MessageImage::parse("image/png", "aGVs**8=").is_none());
    assert!(MessageImage::parse("image/png", "").is_none());
    let big = "A".repeat(MessageImage::MAX_B64_LEN + 1);
    assert!(MessageImage::parse("image/png", &big).is_none());
}

#[test]
fn user_payload_shapes() {
    let v: serde_json::Value = serde_json::from_str(&Message::user_payload("hi", &[])).unwrap();
    assert_eq!(v["text"], "hi");
    assert!(v.get("images").is_none());
    let imgs = vec![
        MessageImage { mime: "image/png".into(), data: "aGk=".into() },
        MessageImage { mime: "image/webp".into(), data: "eW8=".into() },
    ];
    let v: serde_json::Value = serde_json::from_str(&Message::user_payload("看图", &imgs)).unwrap();
    assert_eq!(v["images"].as_array().unwrap().len(), 2);
    assert_eq!(v["images"][0]["mime"], "image/png");
    assert_eq!(v["images"][1]["data"], "eW8=");
}

#[test]
fn message_text_reads_text_payload() {
    let m = Message::new(1, MessageKind::User, Message::text_payload("你好"), NaiveDateTime::default());
    assert_eq!(m.text().as_deref(), Some("你好"));
    let m = Message::new(1, MessageKind::Tool, "{\"card\":1}".into(), NaiveDateTime::default());
    assert_eq!(m.text(), None);
    assert!(MessageKind::parse("bogus").is_err());
}

fn msg(session_id: i64, kind: MessageKind, text: &str) -> Message {
    Message::new(session_id, kind, Message::text_payload(text), NaiveDateTime::default())
}

#[test]
fn append_message_seq_increments() {
    let mut s = Session::new(1, NaiveDateTime::default());
    s.id = 7;
    s.append_message(msg(7, MessageKind::User, "u1"));
    s.append_message(msg(7, MessageKind::Assistant, "a1"));
    assert_eq!(s.messages[0].seq, 1);
    assert_eq!(s.messages[1].seq, 2);
}

#[test]
fn should_compact_at_threshold() {
    let mut s = Session::new(1, NaiveDateTime::default());
    s.ctx_percent = 89;
    assert!(!s.should_compact(COMPACT_THRESHOLD));
    s.ctx_percent = 90;
    assert!(s.should_compact(COMPACT_THRESHOLD));
    s.ctx_percent = 95;
    assert!(s.should_compact(COMPACT_THRESHOLD));
}

#[test]
fn compact_keeps_user_and_recent_tail() {
    let mut s = Session::new(1, NaiveDateTime::default());
    s.id = 1;
    s.append_message(msg(1, MessageKind::User, "需求"));
    for i in 0..5 {
        s.append_message(msg(1, MessageKind::Assistant, &format!("步骤{i}")));
    }
    for i in 0..4 {
        s.append_message(msg(1, MessageKind::Assistant, &format!("尾部{i}")));
    }
    let removed = s.compact(Message::text_payload("摘要"), NaiveDateTime::default());
    assert_eq!(removed, 5);
    assert_eq!(s.messages.len(), 6);
    assert_eq!(s.messages[0].kind, MessageKind::System);
    assert!(s.messages.iter().any(|m| m.kind == MessageKind::User));
    for (i, m) in s.messages.iter().enumerate() {
        assert_eq!(m.seq, (i + 1) as i64);
    }
}

#[test]
fn first_task_title_truncates() {
    let mut s = Session::new(1, NaiveDateTime::default());
    s.apply_first_task_title("帮我修复 approval 的中断 bug，这个问题很紧急需要尽快处理");
    assert_eq!(s.title.chars().count(), 20);
    s.apply_first_task_title("第二条任务不应覆盖标题");
    assert!(s.title.starts_with("帮我修复"));
}

#[test]
fn update_usage_clamps_context() {
    let mut s = Session::new(1, NaiveDateTime::default());
    s.update_usage(10, 5, 130);
    assert_eq!((s.input_tokens, s.output_tokens, s.ctx_percent), (10, 5, 100));
    s.update_usage(1, 1, -3);
    assert_eq!((s.input_tokens, s.output_tokens, s.ctx_percent), (11, 6, 0));
}

#[test]
fn expand_tilde_keeps_normal_path() {
    assert_eq!(expand_tilde("/tmp/cyan-x"), "/tmp/cyan-x");
    assert_eq!(expand_tilde_with("~/some/dir", Some("/home/u")), "/home/u/some/dir");
    assert_eq!(expand_tilde_with("~", Some("/home/u")), "/home/u");
    assert_eq!(expand_tilde_with("~/x", None), "~/x");
}

#[test]
fn reject_dotdot_escape() {
    let tmp = tempfile::tempdir().unwrap();
    let root = ProjectPath::new(tmp.path().to_str().unwrap()).unwrap();
    let err = root.resolve("../outside.txt").unwrap_err();
    assert!(matches!(err, DomainError::Denied(_)));
}

#[test]
fn reject_absolute_path_outside_root() {
    let tmp = tempfile::tempdir().unwrap();
    let root = ProjectPath::new(tmp.path().to_str().unwrap()).unwrap();
    let err = root.resolve("/etc/passwd").unwrap_err();
    assert!(matches!(err, DomainError::Denied(_)));
}

#[test]
fn resolve_new_path_stays_under_root() {
    let tmp = tempfile::tempdir().unwrap();
    let root = ProjectPath::new(tmp.path().to_str().unwrap()).unwrap();
    let p = root.resolve("new-file.txt").unwrap();
    assert!(p.starts_with(root.root()));
    assert_eq!(root.relativize(&p), "new-file.txt");
    assert!(matches!(root.resolve("  "), Err(DomainError::Validation(_))));
}

#[test]
fn new_rejects_missing_path() {
    let err = ProjectPath::new("/definitely/not/exist/cyan-test").unwrap_err();
    assert!(matches!(err, DomainError::NotFound(_)));
}

fn skill(content: &str) -> Skill {
    Skill {
        id: "weekly-report".into(),
        name: "周报".into(),
        description: "生成周报".into(),
        enabled: true,
        source: SkillSource::Global,
        market_repo: None,
        content: content.into(),
    }
}

#[test]
fn expand_replaces_arguments() {
    let s = skill("汇总以下提交生成周报：\n$ARGUMENTS\n完");
    assert_eq!(s.expand("abc123 fix bug"), "汇总以下提交生成周报：\nabc123 fix bug\n完");
    let s = skill("$ARGUMENTS 与 $ARGUMENTS");
    assert_eq!(s.expand("x"), "x 与 x");
}

#[test]
fn expand_appends_when_no_placeholder() {
    let s = skill("生成周报");
    assert_eq!(s.expand("本周"), "生成周报\n\n本周");
    assert_eq!(s.expand(""), "生成周报");
}

#[test]
fn validate_id_kebab_case() {
    assert!(Skill::validate_id("weekly-report").is_ok());
    assert!(Skill::validate_id("a").is_ok());
    assert!(Skill::validate_id("a1-b2").is_ok());
    assert!(Skill::validate_id("").is_err());
    assert!(Skill::validate_id("Weekly").is_err());
    assert!(Skill::validate_id("-lead").is_err());
    assert!(Skill::validate_id("tail-").is_err());
    assert!(Skill::validate_id("double--dash").is_err());
    assert!(Skill::validate_id("a/b").is_err());
    assert!(Skill::validate_id("a.md").is_err());
    assert!(Skill::validate_id("..").is_err());
}

#[test]
fn source_roundtrip() {
    assert_eq!(SkillSource::parse("global").unwrap().as_str(), "global");
    assert_eq!(SkillSource::parse("project").unwrap(), SkillSource::Project);
    assert!(SkillSource::parse("sys").is_err());
    assert_eq!(SkillSource::Plugin("p".into()).plugin_name().as_deref(), Some("p"));
}

#[test]
fn project_root_from_what_the_disk_answered() {
    let missing = ProjectPath::from_lookup("/p", false, false, Err(String::new())).unwrap_err();
    assert!(matches!(missing, DomainError::NotFound(m) if m == "项目路径不存在：/p"));
    let file = ProjectPath::from_lookup("/p", true, false, Err(String::new())).unwrap_err();
    assert!(matches!(file, DomainError::Validation(m) if m == "项目路径不是目录：/p"));
    let unreadable = ProjectPath::from_lookup("/p", true, true, Err("denied".into())).unwrap_err();
    assert!(matches!(unreadable, DomainError::Validation(m) if m == "路径 canonicalize 失败：denied"));
    let root = ProjectPath::from_lookup("/p/./", true, true, Ok("/p".into())).unwrap();
    assert_eq!(root.root(), "/p");
}

#[test]
fn prefixes_never_change_the_verdict() {
    use_verdicts(&["rm -rf /", "rm -rf ./build", "mkfs.ext4 /dev/sda", "ls -la", ""]);
}

fn use_verdicts(segs: &[&str]) {
    for seg in segs {
        let base = segment_dangerous(seg);
        for p in ["sudo", "doas", "nohup", "env", "command", "FOO=1"] {
            assert_eq!(segment_dangerous(&format!("{p} {seg}")), base, "{p} {seg}");
        }
    }
}

#[test]
fn confine_decides_on_the_canonical_path() {
    let tmp = tempfile::tempdir().unwrap();
    let root = ProjectPath::new(tmp.path().to_str().unwrap()).unwrap();
    let inside = format!("{}/src/a.rs", root.root());
    assert!(matches!(root.confine("src/a.rs", Ok(inside.clone())), Ok(p) if p == inside));
    assert!(matches!(root.confine("../x", Ok("/etc/x".into())), Err(DomainError::Denied(m)) if m == "路径越权（逃逸项目根）：../x"));
    assert!(matches!(root.confine("a", Err(DomainError::Validation("非法路径：a".into()))), Err(DomainError::Validation(m)) if m == "非法路径：a"));
}

#[test]
fn first_program_takes_the_first_file_found() {
    let dirs = vec!["/a".to_string(), "/b".to_string(), "/c".to_string()];
    assert_eq!(first_program("tool", &dirs, &[false, true]), "/b/tool");
    assert_eq!(first_program("tool", &dirs, &[false, false, false]), "tool");
    assert_eq!(first_program("./tool", &dirs, &[true]), "./tool");
    assert_eq!(first_program("", &dirs, &[true]), "");
}
