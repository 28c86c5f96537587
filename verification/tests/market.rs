use cyan::domain::plugin::PluginManifest;
use cyan::domain::DomainError;
use cyan::infra::browser::{base64_decode, base64_decode_pub, normalize_for_display, screenshot_dir};
use cyan::infra::git::diff_lines;
use cyan::infra::mcp_registry::{featured_servers, registry_items, RegistryEntry, RegistryPackage, RegistryResponse, RegistryServer, RegistryTransport};
use cyan::infra::plugin::gitee::{archive_url, detail_error, detail_url, download_error, repo_meta, RepoDetail, RepoOwner};
use cyan::infra::plugin::github::{
    combine_skill_results,
    codeload_url, market_items, merge_market_items, search_query, status_error, validate_full_name, MarketItem,
    SearchItem, SearchOwner, SearchResponse,
};
use cyan::infra::plugin::{
    check_decls, check_manifest, common_top_dir, count_skill_files, entry_rel_path, find_entry_name, McpDecl, RuleDecl,
};
use cyan::support::json::Json;

fn strings(v: &[&str]) -> Vec<String> {
    v.iter().map(|s| s.to_string()).collect()
}

#[test]
fn base64_roundtrip() {
    assert_eq!(base64_decode("SGVsbG8=").unwrap(), b"Hello");
    assert!(base64_decode("").unwrap().is_empty());
    assert_eq!(base64_decode("QQ==").unwrap(), b"A");
    assert!(base64_decode("a*bc").is_err());
}

#[test]
fn base64_decode_pub_matches_private_decoder() {
    assert_eq!(base64_decode_pub("SGVsbG8=").unwrap(), b"Hello");
    assert_eq!(base64_decode_pub("YWJj").unwrap(), b"abc");
    assert!(base64_decode_pub("a*bc").is_err());
}

#[test]
fn diff_lines_multiset() {
    let (add, del) = diff_lines("a\nb\nc\n", "a\nc\nd\n");
    assert_eq!((add, del), (1, 1));
    let (add, del) = diff_lines("", "x\ny\n");
    assert_eq!((add, del), (2, 0));
}

#[test]
fn diff_lines_swaps_and_is_zero_on_itself() {
    assert_eq!(diff_lines("x\ny\n", ""), (0, 2));
    assert_eq!(diff_lines("a\nb\n", "a\nb\n"), (0, 0));
}

#[test]
fn diff_lines_counts_repeated_lines() {
    // a appears twice before and once after: one deletion
    assert_eq!(diff_lines("a\na\nb\n", "a\nb\n"), (0, 1));
    // adding minus deleting is the change in line count
    let (add, del) = diff_lines("x\ny\nz\n", "y\nw\nv\nu\n");
    assert_eq!(add - del, 4 - 3);
    assert_eq!(diff_lines("same\n", "same\n"), (0, 0));
}

#[test]
fn featured_servers_eight_verified_items() {
    let items = featured_servers();
    assert_eq!(items.len(), 8);
    assert!(items.iter().all(|i| i.command.is_some() && i.source == "featured"));
    assert!(items.iter().any(|i| i.command.as_deref() == Some("npx -y @upstash/context7-mcp")));
    assert!(items.iter().any(|i| i.command.as_deref() == Some("uvx mcp-server-fetch")));
}

fn official(latest: bool) -> Json {
    Json::Object(vec![(
        "io.modelcontextprotocol.registry/official".to_string(),
        Json::Object(vec![("isLatest".to_string(), Json::Bool(latest))]),
    )])
}

fn entry(name: &str, title: Option<&str>, version: &str, registry: &str, ident: &str, latest: bool) -> RegistryEntry {
    RegistryEntry {
        server: RegistryServer {
            name: name.to_string(),
            title: title.map(|t| t.to_string()),
            description: Some("d".to_string()),
            version: Some(version.to_string()),
            packages: vec![RegistryPackage {
                registry_type: registry.to_string(),
                identifier: ident.to_string(),
                transport: Some(RegistryTransport { kind: "stdio".to_string() }),
            }],
        },
        meta: official(latest),
    }
}

#[test]
fn registry_items_filter_latest_and_dedupe_by_name() {
    let resp = RegistryResponse {
        servers: vec![
            entry("io.github.upstash/context7", Some("Context7"), "1.0.0", "npm", "@upstash/context7-mcp", false),
            entry("io.github.upstash/context7", Some("Context7"), "2.0.0", "npm", "@upstash/context7-mcp", true),
            entry("io.github.x/pypi-tool", None, "0.1.0", "pypi", "pypi-tool", true),
            entry("io.github.y/remote-only", None, "0.1.0", "oci", "ghcr.io/y/x", true),
            entry("io.github.upstash/context7", Some("Context7"), "3.0.0", "npm", "@upstash/context7-mcp", true),
        ],
    };
    let items = registry_items(&resp);
    assert_eq!(items.len(), 3);
    assert_eq!(items[0].name, "io.github.upstash/context7");
    assert_eq!(items[0].version, "2.0.0");
    assert_eq!(items[0].title, "Context7");
    assert_eq!(items[0].command.as_deref(), Some("npx -y @upstash/context7-mcp"));
    assert_eq!(items[1].title, "io.github.x/pypi-tool");
    assert_eq!(items[1].command.as_deref(), Some("uvx pypi-tool"));
    assert_eq!(items[2].command, None);
    assert!(items.iter().all(|i| i.source == "registry"));
    assert!(registry_items(&RegistryResponse { servers: vec![] }).is_empty());
}

#[test]
fn validate_full_name_rules() {
    assert!(validate_full_name("owner/repo").is_ok());
    assert!(validate_full_name("cy-an/cyan_plugin.v1").is_ok());
    assert!(validate_full_name("").is_err());
    assert!(validate_full_name("no-slash").is_err());
    assert!(validate_full_name("a/b/c").is_err());
    assert!(validate_full_name("../evil/repo").is_err());
    assert!(validate_full_name("owner/../x").is_err());
    assert!(validate_full_name("-bad/repo").is_err());
    assert!(validate_full_name("owner/").is_err());
    assert!(validate_full_name("/repo").is_err());
}

#[test]
fn validate_full_name_splits_and_reports() {
    let (o, r) = validate_full_name("cy/cyan-weekly").unwrap();
    assert_eq!((o.as_str(), r.as_str()), ("cy", "cyan-weekly"));
    match validate_full_name("no-slash") {
        Err(DomainError::Validation(m)) => assert_eq!(m, "仓库全名须为 owner/repo 格式"),
        other => panic!("unexpected {:?}", other),
    }
    match validate_full_name("a/b/c") {
        Err(DomainError::Validation(m)) => assert_eq!(m, "非法仓库全名：a/b/c"),
        other => panic!("unexpected {:?}", other),
    }
}

#[test]
fn status_error_maps_rate_limit() {
    assert!(status_error(403, "403 Forbidden").contains("限流"));
    assert!(status_error(429, "429 Too Many Requests").contains("限流"));
    let e = status_error(500, "500 Internal Server Error");
    assert!(e.contains("500"));
    assert_eq!(e, "GitHub 请求失败：HTTP 500 Internal Server Error");
}

#[test]
fn search_query_and_codeload_url() {
    assert_eq!(search_query("  weekly ", "cyan-plugin"), "weekly topic:cyan-plugin");
    assert_eq!(search_query("   ", "cyan-skill"), "topic:cyan-skill");
    assert_eq!(codeload_url("cy/repo").unwrap(), "https://codeload.github.com/cy/repo/zip/HEAD");
    assert!(codeload_url("../x").is_err());
}

fn item(name: &str, stars: i64) -> MarketItem {
    MarketItem { full_name: name.into(), description: None, stars, author: String::new(), url: String::new() }
}

#[test]
fn merge_market_items_dedupes_and_sorts_by_stars() {
    let a = vec![item("cy/a", 10), item("cy/shared", 5)];
    let b = vec![item("cy/shared", 99), item("cy/b", 50)];
    let merged = merge_market_items(a, b);
    let names: Vec<&str> = merged.iter().map(|i| i.full_name.as_str()).collect();
    assert_eq!(names, vec!["cy/b", "cy/a", "cy/shared"]);
    assert_eq!(merged[2].stars, 5, "同名保留 a 路（cyan-skill）的结果");
}

#[test]
fn skill_market_combines_two_searches() {
    let both = combine_skill_results(Ok(vec![item("cy/a", 1)]), Ok(vec![item("cy/b", 7), item("cy/a", 9)])).unwrap();
    let names: Vec<&str> = both.iter().map(|i| i.full_name.as_str()).collect();
    assert_eq!(names, vec!["cy/b", "cy/a"]);
    assert_eq!(both[1].stars, 1);
    let one = combine_skill_results(Err("甲".into()), Ok(vec![item("cy/c", 2)])).unwrap();
    assert_eq!(one.len(), 1);
    let many: Vec<MarketItem> = (0..25).map(|i| item(&format!("cy/{i}"), i)).collect();
    assert_eq!(combine_skill_results(Ok(many), Err("乙".into())).unwrap().len(), 20);
    assert_eq!(combine_skill_results(Err("甲".into()), Err("乙".into())).unwrap_err(), "甲；乙");
}

#[test]
fn merge_market_items_keeps_order_of_equal_stars() {
    let merged = merge_market_items(vec![item("x/1", 3), item("x/2", 3)], vec![item("x/3", 3)]);
    let names: Vec<&str> = merged.iter().map(|i| i.full_name.as_str()).collect();
    assert_eq!(names, vec!["x/1", "x/2", "x/3"]);
}

#[test]
fn market_items_map_search_hits_in_order() {
    let resp = SearchResponse {
        items: vec![
            SearchItem {
                full_name: "cy/cyan-weekly".into(),
                description: Some("周报插件".into()),
                stargazers_count: 42,
                owner: SearchOwner { login: "cy".into() },
                html_url: "https://github.com/cy/cyan-weekly".into(),
            },
            SearchItem {
                full_name: "someone/toolkit".into(),
                description: None,
                stargazers_count: 0,
                owner: SearchOwner { login: "someone".into() },
                html_url: "https://github.com/someone/toolkit".into(),
            },
        ],
    };
    let items = market_items(resp);
    assert_eq!(items.len(), 2);
    assert_eq!(items[0].full_name, "cy/cyan-weekly");
    assert_eq!(items[0].description.as_deref(), Some("周报插件"));
    assert_eq!(items[0].stars, 42);
    assert_eq!(items[0].author, "cy");
    assert_eq!(items[1].description, None);
    assert!(market_items(SearchResponse { items: vec![] }).is_empty());
}

#[test]
fn repo_meta_from_full_detail() {
    let d = RepoDetail {
        description: Some("uni-app 框架镜像".into()),
        stargazers_count: 1598,
        owner: Some(RepoOwner { path: Some("dcloud".into()), login: Some("hbcui1984".into()) }),
        html_url: Some("https://gitee.com/dcloud/uni-app".into()),
        default_branch: Some("master".into()),
    };
    let meta = repo_meta(d, "dcloud/uni-app");
    assert_eq!(meta.item.full_name, "dcloud/uni-app");
    assert_eq!(meta.item.description.as_deref(), Some("uni-app 框架镜像"));
    assert_eq!(meta.item.stars, 1598);
    assert_eq!(meta.item.author, "dcloud");
    assert_eq!(meta.item.url, "https://gitee.com/dcloud/uni-app");
    assert_eq!(meta.default_branch, "master");
}

#[test]
fn repo_meta_from_minimal_detail() {
    let d = RepoDetail { description: None, stargazers_count: 0, owner: None, html_url: None, default_branch: None };
    let meta = repo_meta(d, "cy/repo");
    assert_eq!(meta.item.full_name, "cy/repo");
    assert_eq!(meta.item.description, None);
    assert_eq!(meta.item.stars, 0);
    assert_eq!(meta.item.author, "");
    assert_eq!(meta.item.url, "https://gitee.com/cy/repo");
    assert_eq!(meta.default_branch, "master");
}

#[test]
fn repo_meta_blank_fields_fall_back() {
    let d = RepoDetail {
        description: Some("   ".into()),
        stargazers_count: 7,
        owner: Some(RepoOwner { path: None, login: Some("someone".into()) }),
        html_url: None,
        default_branch: Some(" ".into()),
    };
    let meta = repo_meta(d, "a/b");
    assert_eq!(meta.item.description, None);
    assert_eq!(meta.item.author, "someone");
    assert_eq!(meta.default_branch, "master");
}

#[test]
fn gitee_urls_and_errors() {
    assert_eq!(detail_url("dcloud/uni-app").unwrap(), "https://gitee.com/api/v5/repos/dcloud/uni-app");
    assert!(detail_url("../evil").is_err());
    assert_eq!(
        archive_url("dcloud/uni-app", "main").unwrap(),
        "https://gitee.com/dcloud/uni-app/repository/archive/main.zip"
    );
    assert_eq!(detail_error(404, "404 Not Found", "a/b"), "Gitee 仓库不存在：a/b");
    assert_eq!(detail_error(403, "403 Forbidden", "a/b"), "Gitee 请求被限流，请稍后重试");
    assert_eq!(detail_error(500, "500 Internal Server Error", "a/b"), "Gitee 请求失败：HTTP 500 Internal Server Error");
    assert_eq!(download_error("502 Bad Gateway"), "Gitee 仓库下载失败：HTTP 502 Bad Gateway");
}

#[test]
fn find_entry_name_at_top_or_wrapped() {
    let names = strings(&["my-plugin/", "my-plugin/skills/s1.md", "my-plugin/plugin.json"]);
    assert_eq!(find_entry_name(&names, "plugin.json").as_deref(), Some("my-plugin/plugin.json"));
    let top = strings(&["plugin.json", "x/plugin.json"]);
    assert_eq!(find_entry_name(&top, "plugin.json").as_deref(), Some("plugin.json"));
    assert_eq!(find_entry_name(&strings(&["notplugin.json"]), "plugin.json"), None);
}

#[test]
fn common_top_dir_detects_wrapper() {
    let wrapped = strings(&["my-plugin/plugin.json", "my-plugin/skills/s1.md"]);
    assert_eq!(common_top_dir(&wrapped).as_deref(), Some("my-plugin/"));
    let flat = strings(&["plugin.json", "skills/s1.md"]);
    assert_eq!(common_top_dir(&flat), None);
    let two = strings(&["a/x", "b/y"]);
    assert_eq!(common_top_dir(&two), None);
    assert_eq!(common_top_dir(&[]), None);
}

#[test]
fn entry_rel_path_strips_and_rejects_escapes() {
    assert_eq!(entry_rel_path("my-plugin/skills/s1.md", Some("my-plugin/")).unwrap().as_deref(), Some("skills/s1.md"));
    assert_eq!(entry_rel_path("my-plugin/", Some("my-plugin/")).unwrap(), None);
    assert_eq!(entry_rel_path("dir/", None).unwrap(), None);
    match entry_rel_path("evil/../../escape.txt", Some("evil/")) {
        Err(DomainError::Denied(m)) => assert_eq!(m, "非法包内路径：../../escape.txt"),
        other => panic!("unexpected {:?}", other),
    }
    assert!(matches!(entry_rel_path("/etc/passwd", None), Err(DomainError::Denied(_))));
    assert_eq!(entry_rel_path("a..b/c", None).unwrap().as_deref(), Some("a..b/c"));
}

fn manifest(name: &str, perms: &[&str]) -> PluginManifest {
    PluginManifest {
        name: name.to_string(),
        version: "0.1.0".to_string(),
        author: "a".to_string(),
        description: "d".to_string(),
        cyan_min_version: None,
        permissions: strings(perms),
    }
}

#[test]
fn check_manifest_reports_parse_and_validation_errors() {
    let ok = check_manifest(Ok(manifest("my-plugin", &["skills", "mcp"])), "plugin.json").unwrap();
    assert_eq!(ok.name, "my-plugin");
    match check_manifest(Err("expected value at line 1 column 1".to_string()), "plugin.json") {
        Err(DomainError::Validation(m)) => assert_eq!(m, "plugin.json 格式非法：expected value at line 1 column 1"),
        other => panic!("unexpected {:?}", other),
    }
    match check_manifest(Ok(manifest("", &[])), "plugin.json") {
        Err(DomainError::Validation(m)) => assert_eq!(m, "manifest 缺少 name"),
        other => panic!("unexpected {:?}", other),
    }
    assert!(check_manifest(Ok(manifest("my-plugin", &["network"])), "plugin.json").is_err());
}

#[test]
fn check_decls_passes_declarations_through() {
    let mcp = check_decls(Ok(vec![McpDecl { name: "fs".into(), command: "npx mcp-fs".into() }]), "mcp.json").unwrap();
    assert_eq!(mcp[0].name, "fs");
    let rules = check_decls(
        Ok(vec![RuleDecl { tool: "Bash".into(), pattern: "cargo *".into(), action: "allow".into(), sort: 1 }]),
        "rules.json",
    )
    .unwrap();
    assert_eq!(rules[0].pattern, "cargo *");
    match check_decls::<RuleDecl>(Err("bad".to_string()), "rules.json") {
        Err(DomainError::Validation(m)) => assert_eq!(m, "rules.json 格式非法：bad"),
        other => panic!("unexpected {:?}", other),
    }
}

#[test]
fn count_skill_files_counts_markdown() {
    assert_eq!(count_skill_files(&strings(&["s1.md", "s2.md", "notes.txt", ".md", "x.md.bak"])), 2);
    assert_eq!(count_skill_files(&[]), 0);
}

#[test]
fn screenshot_dir_ends_in_screenshots() {
    assert!(screenshot_dir().ends_with("screenshots"));
}

#[test]
fn normalizing_a_url_twice_changes_nothing() {
    for u in ["  example.com ", "http://a.b", "", "   ", "about:blank", "file:///tmp/x"] {
        let once = normalize_for_display(u);
        assert_eq!(normalize_for_display(&once), once, "{u}");
    }
    assert_eq!(normalize_for_display("  example.com "), "https://example.com");
}
