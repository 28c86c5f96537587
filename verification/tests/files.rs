use cyan::domain::shared::ProjectPath;
use cyan::domain::skill::SkillSource;
use cyan::domain::DomainError;
use cyan::error::ServiceError;
use cyan::infra::computer::native_input::{key_code, post_key, post_scroll, post_select_all, post_text};
use cyan::infra::db::datasource::cyan_home_in;
use cyan::infra::db::model_repo::ModelDO;
use cyan::infra::db::perm_rule_repo::PermRuleDO;
use cyan::infra::db::session_repo::{MessageDO, SessionDO};
use cyan::infra::fs::skill::{install_conflict, install_files, prepare_install, rollback_error, scan_entries, select_skill_files, skill_id_of, skills_dir};
use cyan::infra::fs::{
    agents_md_content, glob_finish, grep_reads, is_ignored, preview_content, resolve_base, sort_nodes, text_content,
    tree_descends, FsNode, GlobSearch, GrepHit, GrepNext, GrepSearch,
};
use cyan::infra::process::{finish_run, resolve_program, search_dirs, RunEnd};

fn strings(v: &[&str]) -> Vec<String> {
    v.iter().map(|s| s.to_string()).collect()
}

#[test]
fn resolve_program_finds_known_and_keeps_unknown() {
    let dirs = strings(&["/usr/local/bin", "/usr/bin", "/bin"]);
    let r = resolve_program("bash", &dirs);
    assert!(r.starts_with('/') && r.ends_with("bash"), "应解析为绝对路径：{r}");
    assert_eq!(resolve_program("definitely-not-a-bin-xyz", &dirs), "definitely-not-a-bin-xyz");
    assert_eq!(resolve_program("./rel/tool", &dirs), "./rel/tool");
    assert_eq!(resolve_program("", &dirs), "");
}

#[test]
fn search_dirs_adds_tool_dirs_once() {
    let path = strings(&["/usr/bin", "/bin", "/usr/bin/", "", "/usr/local/bin"]);
    let nvm = strings(&["/h/.nvm/versions/node/v18.0.0", "/h/.nvm/versions/node/v20.1.0"]);
    let dirs = search_dirs(&path, Some("/h"), &nvm, false);
    assert_eq!(
        dirs,
        strings(&[
            "/usr/bin",
            "/bin",
            "/usr/local/bin",
            "/h/.local/bin",
            "/h/.nvm/versions/node/v20.1.0/bin",
            "/h/.cargo/bin",
            "/h/.bun/bin",
            "/h/.volta/bin",
        ])
    );
    let mut seen = dirs.clone();
    seen.sort();
    seen.dedup();
    assert_eq!(seen.len(), dirs.len(), "搜索目录不应重复");
    let mac = search_dirs(&[], None, &[], true);
    assert_eq!(mac, strings(&["/opt/homebrew/bin", "/usr/local/bin"]));
}

#[test]
fn finish_run_reports_how_the_run_ended() {
    let done = finish_run("hello\n".into(), "warn".into(), RunEnd::Done(Some(0)), 10);
    assert_eq!(done.stdout.trim(), "hello");
    assert_eq!(done.exit_code, Some(0));
    assert_eq!(done.stderr, "warn");
    assert!(!done.timed_out && !done.cancelled);
    let timeout = finish_run(String::new(), "partial".into(), RunEnd::Timeout, 120);
    assert!(timeout.timed_out);
    assert!(timeout.exit_code.is_none());
    assert_eq!(timeout.stderr, "命令超时（120s）已被终止");
    let cancelled = finish_run(String::new(), String::new(), RunEnd::Cancelled, 60);
    assert!(cancelled.cancelled && !cancelled.timed_out);
    assert_eq!(cancelled.stderr, "任务已中断，子进程已终止");
}

fn node(name: &str, is_dir: bool) -> FsNode {
    FsNode { name: name.to_string(), rel_path: name.to_string(), is_dir, children: Vec::new() }
}

#[test]
fn tree_sorts_dirs_first_and_ignores_git() {
    let sorted = sort_nodes(vec![node("b.txt", false), node("src", true), node("a.txt", false), node("docs", true)]);
    let names: Vec<&str> = sorted.iter().map(|n| n.name.as_str()).collect();
    assert_eq!(names, vec!["docs", "src", "a.txt", "b.txt"]);
    assert!(is_ignored(".git"));
    assert!(is_ignored("node_modules"));
    assert!(!is_ignored("src"));
    assert!(tree_descends(3));
    assert!(!tree_descends(4));
}

#[test]
fn preview_truncates_over_64kb() {
    let (content, truncated) = preview_content(vec![b'a'; 70 * 1024]).unwrap();
    assert!(truncated);
    assert_eq!(content.len(), 64 * 1024);
    let (small, cut) = preview_content(b"hi".to_vec()).unwrap();
    assert_eq!(small, "hi");
    assert!(!cut);
}

#[test]
fn preview_rejects_binary_and_bad_utf8() {
    match preview_content(vec![1, 0, 2]) {
        Err(DomainError::Validation(m)) => assert_eq!(m, "二进制文件不支持预览"),
        other => panic!("unexpected {:?}", other),
    }
    match preview_content(vec![0xff, 0xfe]) {
        Err(DomainError::Validation(m)) => assert_eq!(m, "文件不是有效 UTF-8 文本"),
        other => panic!("unexpected {:?}", other),
    }
}

#[test]
fn text_content_limits_and_decodes() {
    assert_eq!(text_content(b"fn main() {}".to_vec()).unwrap(), "fn main() {}");
    assert!(matches!(text_content(vec![b'x'; 256 * 1024 + 1]), Err(DomainError::Validation(_))));
    assert!(text_content(vec![0xc3]).is_err());
}

#[test]
fn agents_md_content_keeps_first_8kb() {
    assert_eq!(agents_md_content(b"# rules".to_vec()).as_deref(), Some("# rules"));
    assert_eq!(agents_md_content(vec![b'r'; 9000]).unwrap().len(), 8192);
    assert_eq!(agents_md_content(vec![b'a', 0]), None);
}

#[test]
fn glob_filters_and_sorts() {
    let g = GlobSearch::new("**/*.rs").unwrap();
    let mut hits: Vec<String> = Vec::new();
    for rel in ["src/main.rs", "README.md", "src/a/lib.rs", "build.rs"] {
        assert!(g.visit(rel, &mut hits));
    }
    assert_eq!(glob_finish(hits), strings(&["build.rs", "src/a/lib.rs", "src/main.rs"]));
    match GlobSearch::new("a[") {
        Err(DomainError::Validation(m)) => assert!(m.starts_with("非法 glob 模式：")),
        Err(e) => panic!("unexpected {:?}", e),
        Ok(_) => panic!("invalid glob accepted"),
    }
}

#[test]
fn glob_visit_stops_at_500_hits() {
    let g = GlobSearch::new("*.txt").unwrap();
    let mut hits: Vec<String> = (0..499).map(|i| format!("f{i}.txt")).collect();
    assert!(!g.visit("last.txt", &mut hits));
    assert_eq!(hits.len(), 500);
}

#[test]
fn grep_matches_lines_with_path_filter_and_skips_binary() {
    let g = GrepSearch::new("fn \\w+", Some("*.rs")).unwrap();
    assert_eq!(g.next("src/main.rs", 0), GrepNext::Read);
    assert_eq!(g.next("notes.md", 0), GrepNext::Skip);
    assert_eq!(g.next("src/main.rs", 200), GrepNext::Stop);
    let mut hits: Vec<GrepHit> = Vec::new();
    assert!(g.scan("src/main.rs", b"use x;\nfn main() {}\r\nfn helper() {}".to_vec(), &mut hits));
    assert_eq!(
        hits,
        vec![
            GrepHit { rel_path: "src/main.rs".into(), line_no: 2, line: "fn main() {}".into() },
            GrepHit { rel_path: "src/main.rs".into(), line_no: 3, line: "fn helper() {}".into() },
        ]
    );
    assert!(g.scan("bin.rs", b"fn a\0".to_vec(), &mut hits));
    assert_eq!(hits.len(), 2);
    assert!(grep_reads(1024 * 1024));
    assert!(!grep_reads(1024 * 1024 + 1));
}

#[test]
fn grep_stops_at_200_hits() {
    let g = GrepSearch::new("x", None).unwrap();
    let mut hits: Vec<GrepHit> = Vec::new();
    let text = "x\n".repeat(250);
    assert!(!g.scan("a.txt", text.into_bytes(), &mut hits));
    assert_eq!(hits.len(), 200);
    assert_eq!(hits[199].line_no, 200);
}

#[test]
fn grep_rejects_bad_patterns() {
    match GrepSearch::new("(", None) {
        Err(DomainError::Validation(m)) => assert!(m.starts_with("非法正则：")),
        Err(e) => panic!("unexpected {:?}", e),
        Ok(_) => panic!("invalid regex accepted"),
    }
    assert!(GrepSearch::new("x", Some("a[")).is_err());
    assert!(GrepSearch::new("x", Some("   ")).is_ok());
}

#[test]
fn resolve_base_defaults_to_root() {
    let tmp = tempfile::tempdir().unwrap();
    let root = ProjectPath::new(tmp.path().to_str().unwrap()).unwrap();
    assert_eq!(resolve_base(&root, None, &[]).unwrap(), root.root());
    assert_eq!(resolve_base(&root, Some("  "), &[]).unwrap(), root.root());
    assert!(matches!(resolve_base(&root, Some("../../.."), &[]), Err(DomainError::Denied(_))));
}

#[test]
fn service_error_codes() {
    let e: ServiceError = DomainError::Validation("x".into()).into();
    assert_eq!((e.code, e.message.as_str()), (1001, "x"));
    let e: ServiceError = DomainError::NotFound("m".into()).into();
    assert_eq!(e.code, 2002);
    let e: ServiceError = DomainError::Conflict("c".into()).into();
    assert_eq!(e.code, 2001);
    let e: ServiceError = DomainError::State("s".into()).into();
    assert_eq!(e.code, 2003);
    let e: ServiceError = DomainError::Denied("d".into()).into();
    assert_eq!(e.code, 9001);
    assert_eq!(ServiceError::external("net".into()).code, 3000);
    assert_eq!(ServiceError::new(1234, "m".into()).to_text(), "[1234] m");
    assert_eq!(ServiceError::denied("deny 命中".into()).to_text(), "[9001] deny 命中");
}

#[test]
fn native_input_unsupported_here() {
    let msg = "原生输入注入目前仅支持 macOS";
    assert_eq!(post_scroll(0, 3).unwrap_err(), msg);
    assert_eq!(post_text("hi").unwrap_err(), msg);
    assert_eq!(post_key("enter").unwrap_err(), msg);
    assert_eq!(post_select_all().unwrap_err(), msg);
}

#[test]
fn key_codes_of_named_keys() {
    assert_eq!(key_code("Enter"), Ok(36));
    assert_eq!(key_code("return"), Ok(36));
    assert_eq!(key_code("ESC"), Ok(53));
    assert_eq!(key_code("up"), Ok(126));
    assert_eq!(
        key_code("F1"),
        Err("不支持的按键：f1（支持 enter/tab/escape/backspace/left/right/up/down）".to_string())
    );
}

#[test]
fn data_dir_under_home() {
    assert_eq!(cyan_home_in(Some("/home/u".into())).unwrap(), "/home/u/.cyan");
    assert_eq!(cyan_home_in(None).unwrap_err(), "无法定位用户主目录");
}

#[test]
fn skills_dir_by_scope() {
    match skills_dir(&SkillSource::Plugin("p".into()), None) {
        Err(DomainError::Validation(m)) => assert_eq!(m, "插件技能目录由插件服务管理：p"),
        other => panic!("unexpected {:?}", other),
    }
    match skills_dir(&SkillSource::Project, None) {
        Err(DomainError::Validation(m)) => assert_eq!(m, "项目级技能需要 projectPath"),
        other => panic!("unexpected {:?}", other),
    }
    let tmp = tempfile::tempdir().unwrap();
    let root = ProjectPath::new(tmp.path().to_str().unwrap()).unwrap();
    let d = skills_dir(&SkillSource::Project, Some(&root)).unwrap();
    assert!(d.ends_with(".cyan/skills"));
}

fn model_row(created: &str) -> ModelDO {
    ModelDO {
        id: 3,
        name: "gpt".into(),
        provider: "openai".into(),
        base_url: "https://api.example.com/v1".into(),
        api_key: "keychain:gpt".into(),
        context_window: 128000,
        is_default: 1,
        status: "disabled".into(),
        created_by: "cyan".into(),
        updated_by: "cyan".into(),
        created_at: created.into(),
        updated_at: "2024-05-01 10:00:00".into(),
        deleted_at: None,
    }
}

#[test]
fn model_row_converts_and_rejects_bad_time() {
    let m = model_row("2024-05-01 09:30:00").into_domain().unwrap();
    assert_eq!(m.id, 3);
    assert_eq!(m.api_key_ref, "keychain:gpt");
    assert!(m.is_default);
    assert_eq!(m.status, cyan::domain::config::ModelStatus::Disabled);
    assert_eq!(m.created_at.to_string(), "2024-05-01 09:30:00");
    assert!(model_row("yesterday").into_domain().is_err());
}

#[test]
fn rule_and_message_rows_check_their_enums_first() {
    let rule = PermRuleDO {
        id: 1,
        project_id: Some(2),
        session_id: None,
        tool: "Bash".into(),
        pattern: "cargo *".into(),
        action: "maybe".into(),
        sort: 1,
        plugin_origin: None,
        created_by: "cyan".into(),
        updated_by: "cyan".into(),
        created_at: "bad".into(),
        updated_at: "bad".into(),
        deleted_at: None,
    };
    assert_eq!(rule.into_domain().unwrap_err(), "校验失败：未知权限动作：maybe");
    let msg = MessageDO {
        id: 1,
        session_id: 2,
        seq: 3,
        kind: "user".into(),
        payload: "{}".into(),
        created_by: "cyan".into(),
        updated_by: "cyan".into(),
        created_at: "2024-01-02 03:04:05".into(),
        updated_at: "2024-01-02 03:04:05".into(),
        deleted_at: None,
    };
    let m = msg.into_domain().unwrap();
    assert_eq!((m.seq, m.payload.as_str()), (3, "{}"));
    let session = SessionDO {
        id: 9,
        project_id: 1,
        title: "t".into(),
        ctx_percent: 40,
        input_tokens: 10,
        output_tokens: 20,
        preferred_model: Some("gpt".into()),
        created_by: "cyan".into(),
        updated_by: "cyan".into(),
        created_at: "2024-01-02 03:04:05".into(),
        updated_at: "2024-01-03 03:04:05".into(),
        deleted_at: Some("2024-02-01 00:00:00".into()),
    };
    let s = session.into_domain().unwrap();
    let at = |t: &str| chrono::NaiveDateTime::parse_from_str(t, "%Y-%m-%d %H:%M:%S").unwrap();
    assert_eq!(s.created_at, at("2024-01-02 03:04:05"));
    assert_eq!(s.updated_at, at("2024-01-03 03:04:05"));
    assert_eq!(s.deleted_at, Some(at("2024-02-01 00:00:00")));
    assert!(s.messages.is_empty());
    assert!(s.deleted_at.is_some());
    assert_eq!(s.preferred_model.as_deref(), Some("gpt"));
}

#[test]
fn skill_files_leave_out_readme_and_sort_by_path() {
    let top = strings(&["/r/top-skill.md", "/r/README.md"]);
    let inner = strings(&["/r/skills/inner-skill.md"]);
    assert_eq!(select_skill_files(top, inner, Vec::new()), strings(&["/r/skills/inner-skill.md", "/r/top-skill.md"]));
}

#[test]
fn skill_files_take_directory_style_once_per_id() {
    let top = strings(&["/r/dup.md"]);
    let dirs = strings(&["/r/weekly-report/skill.md", "/r/code-review/SKILL.md", "/r/Bad Name/SKILL.md", "/r/dup/SKILL.md"]);
    let files = select_skill_files(top, Vec::new(), dirs);
    assert_eq!(files, strings(&["/r/code-review/SKILL.md", "/r/dup.md", "/r/weekly-report/skill.md"]));
    assert_eq!(skill_id_of(&files[0]).as_deref(), Some("code-review"));
}

#[test]
fn install_marks_market_and_refuses_bad_files() {
    let files = vec![
        ("/r/s-one.md".to_string(), Ok("---\nname: 一\n---\nbody1".to_string())),
        ("/r/s-two.md".to_string(), Ok("---\nname: 二\n---\nbody2".to_string())),
    ];
    let skills = prepare_install("cy/skills-repo", files).unwrap();
    assert_eq!(skills.len(), 2);
    assert_eq!(skills[0].id, "s-one");
    assert_eq!(skills[0].name, "一");
    assert_eq!(skills[1].content, "body2");
    assert_eq!(skills[0].market_repo.as_deref(), Some("cy/skills-repo"));
    assert_eq!(skills[0].source, SkillSource::Global);
    assert!(matches!(prepare_install("cy/x", Vec::new()), Err(DomainError::Validation(m)) if m == "仓库中没有技能文件"));
    let unread = vec![("/r/s-one.md".to_string(), Err("denied".to_string()))];
    assert!(matches!(prepare_install("cy/x", unread), Err(DomainError::Validation(m)) if m == "读取技能文件失败：denied"));
    let unnamed = vec![("/".to_string(), Ok("x".to_string()))];
    assert!(matches!(prepare_install("cy/x", unnamed), Err(DomainError::Validation(m)) if m == "非法技能文件名：/"));
    let bad_id = vec![("/r/Bad Name.md".to_string(), Ok("---\nname: 坏\n---\nb".to_string()))];
    assert!(matches!(prepare_install("cy/x", bad_id), Err(DomainError::Validation(_))));
}

#[test]
fn failed_install_write_names_the_rollback() {
    assert!(matches!(rollback_error(2, "disk full"), DomainError::Validation(m) if m == "写入技能文件失败（已回滚 2 个文件）：disk full"));
}

#[test]
fn scanned_skills_come_sorted_by_id() {
    let entries = vec![
        ("/d/b-skill.md".to_string(), Ok("---\nname: B\n---\nx".to_string())),
        ("/d/a-skill.md".to_string(), Ok("---\nname: A\n---\ny".to_string())),
        ("/d/notes.txt".to_string(), Ok("x".to_string())),
        ("/d/c-skill.md".to_string(), Err("denied".to_string())),
    ];
    let skills = scan_entries(entries, SkillSource::Project);
    let ids: Vec<&str> = skills.iter().map(|s| s.id.as_str()).collect();
    assert_eq!(ids, vec!["a-skill", "b-skill"]);
    assert_eq!(skills[0].source, SkillSource::Project);
}

#[test]
fn install_refuses_a_name_already_there_and_writes_market_text() {
    let files = vec![
        ("/r/s-one.md".to_string(), Ok("---\nname: 一\n---\nbody1".to_string())),
        ("/r/s-two.md".to_string(), Ok("---\nname: 二\n---\nbody2".to_string())),
    ];
    let skills = prepare_install("cy/skills-repo", files).unwrap();
    assert!(install_conflict(&skills, &[false, false]).is_ok());
    assert!(matches!(install_conflict(&skills, &[false, true]), Err(DomainError::Conflict(m)) if m == "全局技能已存在同名：s-two"));
    let written = install_files(&skills);
    assert_eq!(written.len(), 2);
    assert_eq!(written[0].0, "s-one.md");
    assert!(written[0].1.contains("market: cy/skills-repo"));
    assert!(written[1].1.contains("body2"));
}

#[test]
fn install_conflict_names_the_first_skill_present() {
    let files = vec![
        ("/r/s-one.md".to_string(), Ok("---\nname: 一\n---\nb".to_string())),
        ("/r/s-two.md".to_string(), Ok("---\nname: 二\n---\nb".to_string())),
    ];
    let skills = prepare_install("cy/x", files).unwrap();
    assert!(matches!(install_conflict(&skills, &[true, true]), Err(DomainError::Conflict(m)) if m == "全局技能已存在同名：s-one"));
}
