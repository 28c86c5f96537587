//! The MCP market: featured servers and the entries of the official
//! registry (latest versions only, one per name, with an install command).
use vstd::prelude::*;

use crate::support::json::{bool_value, json_get, Json};
use crate::text::{chars_of, eq_str, extend_str, owned, str_eq, string_of};

verus! {

/// A market entry.
#[derive(Debug, Clone, PartialEq, Eq)]
pub struct McpMarketItem {
    /// Server name (registry name or short featured name).
    pub name: String,
    /// Title.
    pub title: String,
    /// Description.
    pub description: String,
    /// Version.
    pub version: String,
    /// Install command (none when no package runs over stdio).
    pub command: Option<String>,
    /// Origin (`featured` / `registry`).
    pub source: &'static str,
    /// Home page (the GitHub repository).
    pub homepage: Option<String>,
}

fn featured(name: &str, title: &str, desc: &str, command: &str, repo: &str) -> (r: McpMarketItem)
    ensures
        r.name@ == name@,
        r.title@ == title@,
        r.description@ == desc@,
        r.version@ == "latest"@,
        r.command matches Some(c) && c@ == command@,
        r.source@ == "featured"@,
        r.homepage matches Some(h) && h@ == "https://github.com/"@ + repo@,
{
    let mut home = chars_of("https://github.com/");
    extend_str(&mut home, repo);
    McpMarketItem {
        name: owned(name),
        title: owned(title),
        description: owned(desc),
        version: owned("latest"),
        command: Some(owned(command)),
        source: "featured",
        homepage: Some(string_of(&home)),
    }
}

/// The featured servers: name and install command of each, in order.
pub open spec fn featured_list() -> Seq<(Seq<char>, Seq<char>)> {
    seq![
        ("context7"@, "npx -y @upstash/context7-mcp"@),
        ("playwright"@, "npx -y @playwright/mcp@latest"@),
        ("chrome-devtools"@, "npx -y chrome-devtools-mcp@latest"@),
        ("filesystem"@, "npx -y @modelcontextprotocol/server-filesystem"@),
        ("github"@, "npx -y @modelcontextprotocol/server-github"@),
        ("memory"@, "npx -y @modelcontextprotocol/server-memory"@),
        ("fetch"@, "uvx mcp-server-fetch"@),
        ("time"@, "uvx mcp-server-time"@),
    ]
}

/// The featured well-known servers (every package checked to exist).
pub fn featured_servers() -> (r: Vec<McpMarketItem>)
    ensures
        r@.len() == 8,
        forall|i: int| 0 <= i < 8 ==> {
            &&& (#[trigger] r@[i]).name@ == featured_list()[i].0
            &&& r@[i].command matches Some(c) && c@ == featured_list()[i].1
            &&& r@[i].source@ == "featured"@
            &&& r@[i].version@ == "latest"@
        },
{
    let mut v: Vec<McpMarketItem> = Vec::new();
    v.push(featured("context7", "Context7", "为 LLM 提供最新官方文档", "npx -y @upstash/context7-mcp", "upstash/context7"));
    v.push(featured("playwright", "Playwright", "浏览器自动化与截图", "npx -y @playwright/mcp@latest", "microsoft/playwright-mcp"));
    v.push(featured("chrome-devtools", "Chrome DevTools", "调试、性能与网络分析", "npx -y chrome-devtools-mcp@latest", "ChromeDevTools/chrome-devtools-mcp"));
    v.push(featured("filesystem", "Filesystem", "受控文件系统访问", "npx -y @modelcontextprotocol/server-filesystem", "modelcontextprotocol/servers"));
    v.push(featured("github", "GitHub", "仓库/Issue/PR 操作", "npx -y @modelcontextprotocol/server-github", "modelcontextprotocol/servers"));
    v.push(featured("memory", "Memory", "知识图谱式长期记忆", "npx -y @modelcontextprotocol/server-memory", "modelcontextprotocol/servers"));
    v.push(featured("fetch", "Fetch", "网页抓取转 Markdown", "uvx mcp-server-fetch", "modelcontextprotocol/servers"));
    v.push(featured("time", "Time", "时间与时区换算", "uvx mcp-server-time", "modelcontextprotocol/servers"));
    v
}

/// A registry response.
#[derive(Debug)]
pub struct RegistryResponse {
    /// Entries found.
    pub servers: Vec<RegistryEntry>,
}

/// A registry entry: the server and its metadata.
#[derive(Debug)]
pub struct RegistryEntry {
    /// Server declaration.
    pub server: RegistryServer,
    /// Metadata (holds the official `isLatest` mark).
    pub meta: Json,
}

/// A server declaration.
#[derive(Debug)]
pub struct RegistryServer {
    /// Published name (such as `io.github.x/y`).
    pub name: String,
    /// Title.
    pub title: Option<String>,
    /// Description.
    pub description: Option<String>,
    /// Version.
    pub version: Option<String>,
    /// Packages.
    pub packages: Vec<RegistryPackage>,
}

/// A package.
#[derive(Debug)]
pub struct RegistryPackage {
    /// Package registry (`npm`, `pypi`, `oci`).
    pub registry_type: String,
    /// Package name.
    pub identifier: String,
    /// Transport.
    pub transport: Option<RegistryTransport>,
}

/// A transport.
#[derive(Debug)]
pub struct RegistryTransport {
    /// Kind (`stdio`, `sse`, ...).
    pub kind: String,
}

/// The install command of a package, if it has one: it must run over stdio
/// (or name no transport); npm packages run with `npx -y`, PyPI packages with
/// `uvx`.
pub open spec fn package_command(p: RegistryPackage) -> Option<Seq<char>> {
    let stdio = match p.transport {
        Some(t) => t.kind@ == "stdio"@,
        None => true,
    };
    if !stdio {
        None
    } else if p.registry_type@ == "npm"@ {
        Some("npx -y "@ + p.identifier@)
    } else if p.registry_type@ == "pypi"@ {
        Some("uvx "@ + p.identifier@)
    } else {
        None
    }
}

/// The command of the first package that has one.
pub open spec fn first_command(ps: Seq<RegistryPackage>) -> Option<Seq<char>>
    decreases ps.len(),
{
    if ps.len() == 0 {
        None
    } else {
        match package_command(ps[0]) {
            Some(c) => Some(c),
            None => first_command(ps.drop_first()),
        }
    }
}

/// The install command of a server (see [`first_command`]).
pub fn command_of(packages: &[RegistryPackage]) -> (r: Option<String>)
    ensures
        match r {
            Some(c) => first_command(packages@) == Some(c@),
            None => first_command(packages@) is None,
        },
{
    assert(packages@.skip(0) =~= packages@);
    for i in 0..packages.len()
        invariant
            first_command(packages@) == first_command(packages@.skip(i as int)),
    {
        let p = &packages[i];
        assert(packages@.skip(i as int)[0] == *p);
        assert(packages@.skip(i as int).drop_first() =~= packages@.skip(i + 1));
        let stdio = match &p.transport {
            Some(t) => str_eq(t.kind.as_str(), "stdio"),
            None => true,
        };
        if stdio {
            if str_eq(p.registry_type.as_str(), "npm") {
                let mut v = chars_of("npx -y ");
                extend_str(&mut v, p.identifier.as_str());
                return Some(string_of(&v));
            } else if str_eq(p.registry_type.as_str(), "pypi") {
                let mut v = chars_of("uvx ");
                extend_str(&mut v, p.identifier.as_str());
                return Some(string_of(&v));
            }
        }
    }
    None
}

/// Whether an entry is the registry's latest version of its server.
pub open spec fn is_latest(meta: Json) -> bool {
    match json_get(meta, "io.modelcontextprotocol.registry/official"@) {
        Some(o) => bool_value(json_get(o, "isLatest"@)) == Some(true),
        None => false,
    }
}

/// The entries kept, in order: latest versions whose name was not seen
/// before (`seen` holds the names taken).
pub open spec fn kept_entries(es: Seq<RegistryEntry>, seen: Seq<Seq<char>>) -> Seq<RegistryEntry>
    decreases es.len(),
{
    if es.len() == 0 {
        Seq::empty()
    } else if is_latest(es[0].meta) && !seen.contains(es[0].server.name@) {
        seq![es[0]] + kept_entries(es.drop_first(), seen.push(es[0].server.name@))
    } else {
        kept_entries(es.drop_first(), seen)
    }
}

/// Whether `item` is the market entry of a registry entry: title (else the
/// name), description and version (else empty), install command, origin
/// `registry`, no home page.
pub open spec fn item_of_entry(item: McpMarketItem, e: RegistryEntry) -> bool {
    let s = e.server;
    &&& item.name@ == s.name@
    &&& item.title@ == (match s.title {
        Some(t) => t@,
        None => s.name@,
    })
    &&& item.description@ == (match s.description {
        Some(d) => d@,
        None => Seq::empty(),
    })
    &&& item.version@ == (match s.version {
        Some(v) => v@,
        None => Seq::empty(),
    })
    &&& match first_command(s.packages@) {
        Some(c) => item.command matches Some(x) && x@ == c,
        None => item.command is None,
    }
    &&& item.source@ == "registry"@
    &&& item.homepage is None
}

fn opt_text(s: &Option<String>) -> (r: String)
    ensures
        r@ == (match s {
            Some(t) => t@,
            None => Seq::empty(),
        }),
{
    match s {
        Some(t) => t.clone(),
        None => String::new(),
    }
}

/// The market entries of a registry response (see [`kept_entries`] and
/// [`item_of_entry`]).
pub fn registry_items(resp: &RegistryResponse) -> (r: Vec<McpMarketItem>)
    ensures
        r@.len() == kept_entries(resp.servers@, Seq::empty()).len(),
        forall|i: int| 0 <= i < r@.len() ==> item_of_entry(#[trigger] r@[i], kept_entries(resp.servers@, Seq::empty())[i]),
{
    let es = &resp.servers;
    let mut seen: Vec<String> = Vec::new();
    let mut items: Vec<McpMarketItem> = Vec::new();
    let ghost kept: Seq<RegistryEntry> = Seq::empty();
    assert(es@.skip(0) =~= es@);
    assert(seen@.map_values(|x: String| x@) =~= Seq::<Seq<char>>::empty());
    assert(kept + kept_entries(es@, Seq::empty()) =~= kept_entries(es@, Seq::empty()));
    for i in 0..es.len()
        invariant
            kept_entries(es@, Seq::empty()) == kept + kept_entries(es@.skip(i as int), seen@.map_values(|x: String| x@)),
            items@.len() == kept.len(),
            forall|k: int| 0 <= k < items@.len() ==> item_of_entry(#[trigger] items@[k], kept[k]),
    {
        let e = &es[i];
        assert(es@.skip(i as int)[0] == *e);
        assert(es@.skip(i as int).drop_first() =~= es@.skip(i + 1));
        let latest = match e.meta.get("io.modelcontextprotocol.registry/official") {
            Some(o) => match o.get("isLatest") {
                Some(b) => match b.as_bool() {
                    Some(x) => x,
                    None => false,
                },
                None => false,
            },
            None => false,
        };
        let mut taken = false;
        for j in 0..seen.len()
            invariant
                taken == (exists|m: int| 0 <= m < j && seen@[m]@ == e.server.name@),
        {
            if str_eq(seen[j].as_str(), e.server.name.as_str()) {
                taken = true;
            }
        }
        proof {
            let sv = seen@.map_values(|x: String| x@);
            if taken {
                let m = choose|m: int| 0 <= m < seen.len() && seen@[m]@ == e.server.name@;
                assert(sv[m] == e.server.name@);
            }
            if sv.contains(e.server.name@) {
                let m = choose|m: int| 0 <= m < sv.len() && sv[m] == e.server.name@;
                assert(seen@[m]@ == e.server.name@);
            }
        }
        if latest && !taken {
            let ghost sbefore = seen@;
            seen.push(e.server.name.clone());
            assert(seen@.map_values(|x: String| x@) =~= sbefore.map_values(|x: String| x@).push(e.server.name@));
            let s = &e.server;
            let title = match &s.title {
                Some(t) => t.clone(),
                None => s.name.clone(),
            };
            items.push(McpMarketItem {
                name: s.name.clone(),
                title,
                description: opt_text(&s.description),
                version: opt_text(&s.version),
                command: command_of(s.packages.as_slice()),
                source: "registry",
                homepage: None,
            });
            proof {
                kept = kept.push(*e);
                assert(kept_entries(es@, Seq::empty()) =~= kept + kept_entries(es@.skip(i + 1), seen@.map_values(|x: String| x@)));
            }
        }
    }
    assert(es@.skip(es.len() as int) =~= Seq::<RegistryEntry>::empty());
    assert(kept + Seq::<RegistryEntry>::empty() =~= kept);
    items
}

/// The message of a failed registry request: rate limiting for 403 and
/// 429, the status otherwise.
pub fn registry_error(status: u16) -> (r: String)
    ensures
        (status == 403 || status == 429) ==> r@ == "MCP registry 限流，请稍后重试"@,
        !(status == 403 || status == 429) ==> r@ == "MCP registry 请求失败：HTTP "@ + crate::support::num::nat_text(status as nat),
{
    if status == 403 || status == 429 {
        owned("MCP registry 限流，请稍后重试")
    } else {
        let mut v = chars_of("MCP registry 请求失败：HTTP ");
        crate::text::extend_vec(&mut v, &crate::support::num::usize_text(status as usize));
        string_of(&v)
    }
}

} // verus!
