//! File logic: the file tree's order and ignore list, previews and reads of
//! file contents, glob and grep searches over the files found, and skill
//! files. Walking directories and reading files is the caller's.
pub mod skill;
pub mod skill_roundtrip;

use vstd::prelude::*;

use crate::domain::shared::ProjectPath;
use crate::domain::DomainError;
use crate::infra::fs::skill::{lines_of, next_line};
use crate::support::glob::{glob_check, glob_match, glob_matches, glob_valid};
use crate::support::path::path_is_dir;
use crate::support::regex::{compile_regex, regex_is_match, regex_matches, regex_valid, Pattern};
use crate::support::utf8::{utf8_decoded, utf8_text};
use crate::text::{chars_of, eq_str, extend_str, has_prefix, is_blank, is_blank_vec, lex_lt, owned, str_lt, string_of};

verus! {

/// Preview limit: 64 KiB.
pub const PREVIEW_LIMIT: usize = 65536;

/// Whole-file read limit: 256 KiB.
pub const READ_LIMIT: usize = 262144;

/// Instruction file read limit: 8 KiB.
pub const AGENTS_MD_LIMIT: usize = 8192;

/// Depth below which the file tree is not read.
pub const TREE_MAX_DEPTH: usize = 4;

/// Most glob results.
pub const GLOB_LIMIT: usize = 500;

/// Most grep results.
pub const GREP_LIMIT: usize = 200;

/// Largest file grep reads: 1 MiB.
pub const GREP_FILE_LIMIT: u64 = 1048576;

/// Bytes grep looks at for a zero byte.
pub const GREP_BINARY_PROBE: usize = 8192;

/// The names the file tree and the searches skip.
pub open spec fn ignored(name: Seq<char>) -> bool {
    ||| name == ".git"@
    ||| name == "node_modules"@
    ||| name == "target"@
    ||| name == "dist"@
    ||| name == ".DS_Store"@
    ||| name == ".idea"@
    ||| name == ".vscode"@
}

/// The build and tool directories left out of the tree and of searches:
/// `.git`, `node_modules`, `target`, `dist`, `.DS_Store`, `.idea` and
/// `.vscode` are ignored; ordinary source directories such as `src` are
/// not.
pub proof fn lemma_ignored_names()
    ensures
        ignored(".git"@),
        ignored("node_modules"@),
        ignored("target"@),
        ignored("dist"@),
        ignored(".DS_Store"@),
        ignored(".idea"@),
        ignored(".vscode"@),
        !ignored("src"@),
        !ignored("docs"@),
{
    reveal_strlit(".git");
    reveal_strlit("node_modules");
    reveal_strlit("target");
    reveal_strlit("dist");
    reveal_strlit(".DS_Store");
    reveal_strlit(".idea");
    reveal_strlit(".vscode");
    reveal_strlit("src");
    reveal_strlit("docs");
    assert("src"@.len() != ".git"@.len());
    assert("src"@.len() != "node_modules"@.len());
    assert("src"@ != "target"@) by { assert("src"@.len() != "target"@.len()); }
    assert("src"@ != "dist"@) by { assert("src"@[0] != "dist"@[0]); }
    assert("src"@.len() != ".DS_Store"@.len());
    assert("src"@ != ".idea"@) by { assert("src"@.len() != ".idea"@.len()); }
    assert("src"@.len() != ".vscode"@.len());
    assert("docs"@ != ".git"@) by { assert("docs"@[0] != ".git"@[0]); }
    assert("docs"@.len() != "node_modules"@.len());
    assert("docs"@.len() != "target"@.len());
    assert("docs"@ != "dist"@) by { assert("docs"@[1] != "dist"@[1]); }
    assert("docs"@.len() != ".DS_Store"@.len());
    assert("docs"@.len() != ".idea"@.len());
    assert("docs"@.len() != ".vscode"@.len());
}

/// Whether a directory entry is skipped (see [`ignored`]).
pub fn is_ignored(name: &str) -> (r: bool)
    ensures
        r == ignored(name@),
{
    let v = chars_of(name);
    eq_str(&v, ".git") || eq_str(&v, "node_modules") || eq_str(&v, "target") || eq_str(&v, "dist")
        || eq_str(&v, ".DS_Store") || eq_str(&v, ".idea") || eq_str(&v, ".vscode")
}

/// Whether a directory at `depth` (the root is 0) is read.
pub fn tree_descends(depth: usize) -> (r: bool)
    ensures
        r == (depth < 4),
{
    depth < TREE_MAX_DEPTH
}

/// A node of the file tree.
#[derive(Debug)]
pub struct FsNode {
    /// File or directory name.
    pub name: String,
    /// Path relative to the project root.
    pub rel_path: String,
    /// Whether it is a directory.
    pub is_dir: bool,
    /// Children (of a directory).
    pub children: Vec<FsNode>,
}

/// Tree order: directories first, then by name.
pub open spec fn node_before(a: FsNode, b: FsNode) -> bool {
    (a.is_dir && !b.is_dir) || (a.is_dir == b.is_dir && lex_lt(a.name@, b.name@))
}

/// `x` inserted after every node that does not order after it.
pub open spec fn insert_node(s: Seq<FsNode>, x: FsNode) -> Seq<FsNode>
    decreases s.len(),
{
    if s.len() == 0 || !node_before(x, s.last()) {
        s.push(x)
    } else {
        insert_node(s.drop_last(), x).push(s.last())
    }
}

/// Nodes sorted by insertion in tree order (a stable sort).
pub open spec fn sorted_nodes(s: Seq<FsNode>) -> Seq<FsNode>
    decreases s.len(),
{
    if s.len() == 0 {
        s
    } else {
        insert_node(sorted_nodes(s.drop_last()), s.last())
    }
}

fn node_lt(a: &FsNode, b: &FsNode) -> (r: bool)
    ensures
        r == node_before(*a, *b),
{
    (a.is_dir && !b.is_dir) || (a.is_dir == b.is_dir && str_lt(a.name.as_str(), b.name.as_str()))
}

fn insert_node_exec(v: &mut Vec<FsNode>, x: FsNode)
    ensures
        final(v)@ == insert_node(old(v)@, x),
{
    let ghost s0 = v@;
    let mut k = v.len();
    assert(s0.take(k as int) =~= s0);
    assert(s0 + s0.skip(k as int) =~= s0);
    while k > 0 && node_lt(&x, &v[k - 1])
        invariant
            k <= v.len(),
            v@ == s0,
            insert_node(s0, x) == insert_node(s0.take(k as int), x) + s0.skip(k as int),
        decreases k,
    {
        proof {
            let t = s0.take(k as int);
            assert(t.last() == s0[k - 1]);
            assert(t.drop_last() =~= s0.take(k - 1));
            assert(insert_node(s0.take(k - 1), x).push(s0[k - 1]) + s0.skip(k as int)
                =~= insert_node(s0.take(k - 1), x) + s0.skip(k - 1));
        }
        k = k - 1;
    }
    proof {
        let t = s0.take(k as int);
        assert(insert_node(t, x) == t.push(x));
    }
    v.insert(k, x);
    assert(v@ =~= s0.take(k as int).push(x) + s0.skip(k as int));
}

/// The nodes of one directory level, in tree order: directories first, then
/// by name (see [`sorted_nodes`]).
pub fn sort_nodes(nodes: Vec<FsNode>) -> (r: Vec<FsNode>)
    ensures
        r@ == sorted_nodes(nodes@),
{
    let ghost all = nodes@;
    let mut rest = nodes;
    let mut out: Vec<FsNode> = Vec::new();
    let mut n: usize = 0;
    let total = rest.len();
    while rest.len() > 0
        invariant
            n <= all.len(),
            total == all.len(),
            rest@ == all.skip(n as int),
            out@ == sorted_nodes(all.take(n as int)),
        decreases rest.len(),
    {
        let x = rest.remove(0);
        proof {
            assert(all.skip(n as int)[0] == x);
            assert(rest@ =~= all.skip(n + 1));
            assert(all.take(n + 1).drop_last() =~= all.take(n as int));
        }
        insert_node_exec(&mut out, x);
        n = n + 1;
    }
    assert(all.take(n as int) =~= all);
    out
}

/// What a preview shows of a file's bytes: at most the first 64 KiB, with
/// whether more was cut off; bytes with a zero among them are refused as
/// binary, and bytes that are not UTF-8 are refused too.
pub open spec fn preview_of(bytes: Seq<u8>) -> Result<(Seq<char>, bool), Seq<char>> {
    let head = bytes.take(if bytes.len() < 65536 { bytes.len() as int } else { 65536 });
    if head.contains(0u8) {
        Err("二进制文件不支持预览"@)
    } else {
        match utf8_decoded(head) {
            None => Err("文件不是有效 UTF-8 文本"@),
            Some(t) => Ok((t, bytes.len() > 65536)),
        }
    }
}

fn has_zero(b: &Vec<u8>, n: usize) -> (r: bool)
    requires
        n <= b.len(),
    ensures
        r == b@.take(n as int).contains(0u8),
{
    for i in 0..n
        invariant
            n <= b.len(),
            forall|k: int| 0 <= k < i ==> b@[k] != 0u8,
    {
        if b[i] == 0 {
            assert(b@.take(n as int)[i as int] == 0u8);
            return true;
        }
    }
    assert forall|k: int| 0 <= k < n implies b@.take(n as int)[k] != 0u8 by {}
    false
}

fn prefix_bytes(b: &Vec<u8>, n: usize) -> (r: Vec<u8>)
    requires
        n <= b.len(),
    ensures
        r@ == b@.take(n as int),
{
    let mut r: Vec<u8> = Vec::new();
    for i in 0..n
        invariant
            n <= b.len(),
            r@ == b@.take(i as int),
    {
        r.push(b[i]);
        assert(b@.take(i + 1) =~= b@.take(i as int).push(b@[i as int]));
    }
    r
}

/// The preview of a file's bytes (see [`preview_of`]).
pub fn preview_content(bytes: Vec<u8>) -> (r: Result<(String, bool), DomainError>)
    ensures
        match preview_of(bytes@) {
            Ok((t, cut)) => r matches Ok((s, c)) && s@ == t && c == cut,
            Err(m) => r matches Err(DomainError::Validation(e)) && e@ == m,
        },
{
    let truncated = bytes.len() > PREVIEW_LIMIT;
    let n = if bytes.len() < PREVIEW_LIMIT { bytes.len() } else { PREVIEW_LIMIT };
    if has_zero(&bytes, n) {
        return Err(DomainError::Validation(owned("二进制文件不支持预览")));
    }
    match utf8_text(prefix_bytes(&bytes, n)) {
        Some(s) => Ok((s, truncated)),
        None => Err(DomainError::Validation(owned("文件不是有效 UTF-8 文本"))),
    }
}

/// A whole file read for a tool: refused over 256 KiB or when not UTF-8.
pub fn text_content(bytes: Vec<u8>) -> (r: Result<String, DomainError>)
    ensures
        bytes@.len() > 262144 ==> (r matches Err(DomainError::Validation(e)) && e@ == "文件超过 256KB，不支持整体读取"@),
        bytes@.len() <= 262144 ==> match utf8_decoded(bytes@) {
            Some(t) => r matches Ok(s) && s@ == t,
            None => r matches Err(DomainError::Validation(e)) && e@ == "文件不是有效 UTF-8 文本"@,
        },
{
    if bytes.len() > READ_LIMIT {
        return Err(DomainError::Validation(owned("文件超过 256KB，不支持整体读取")));
    }
    match utf8_text(bytes) {
        Some(s) => Ok(s),
        None => Err(DomainError::Validation(owned("文件不是有效 UTF-8 文本"))),
    }
}

/// The project instructions kept from the file's bytes: the first 8 KiB,
/// unless they hold a zero byte or are not UTF-8.
pub open spec fn agents_md_of(bytes: Seq<u8>) -> Option<Seq<char>> {
    let head = bytes.take(if bytes.len() < 8192 { bytes.len() as int } else { 8192 });
    if head.contains(0u8) {
        None
    } else {
        utf8_decoded(head)
    }
}

/// The project instructions from the file's bytes (see [`agents_md_of`]).
pub fn agents_md_content(bytes: Vec<u8>) -> (r: Option<String>)
    ensures
        match agents_md_of(bytes@) {
            Some(t) => r matches Some(s) && s@ == t,
            None => r is None,
        },
{
    let n = if bytes.len() < AGENTS_MD_LIMIT { bytes.len() } else { AGENTS_MD_LIMIT };
    if has_zero(&bytes, n) {
        return None;
    }
    utf8_text(prefix_bytes(&bytes, n))
}

/// Where a search starts: the project root without a directory (or with a
/// blank one), else the directory resolved read-only (see
/// [`ProjectPath::resolve_readonly`]), which must be a directory (read from
/// the disk).
pub fn resolve_base(root: &ProjectPath, path: Option<&str>, allowlist: &[String]) -> (r: Result<String, DomainError>)
    ensures
        match path {
            None => r matches Ok(b) && b@ == root.root_view(),
            Some(p) => if is_blank(p@) {
                r matches Ok(b) && b@ == root.root_view()
            } else {
                &&& (r matches Err(DomainError::Denied(m)) ==> m@ == "路径越权（不在项目根或只读白名单内）："@ + p@)
                &&& (r matches Err(e) ==> (e is Validation || e is Denied))
            },
        },
{
    match path {
        Some(p) => {
            if is_blank_vec(&chars_of(p)) {
                return Ok(owned(root.root()));
            }
            let abs = root.resolve_readonly(p, allowlist)?;
            if !path_is_dir(abs.as_str()) {
                let mut m = chars_of("不是目录：");
                extend_str(&mut m, p);
                return Err(DomainError::Validation(string_of(&m)));
            }
            Ok(abs)
        },
        None => Ok(owned(root.root())),
    }
}

/// `x` inserted after every text that does not order after it.
pub open spec fn insert_text(s: Seq<Seq<char>>, x: Seq<char>) -> Seq<Seq<char>>
    decreases s.len(),
{
    if s.len() == 0 || !lex_lt(x, s.last()) {
        s.push(x)
    } else {
        insert_text(s.drop_last(), x).push(s.last())
    }
}

/// Texts sorted by insertion, in the order of `str`.
pub open spec fn sorted_texts(s: Seq<Seq<char>>) -> Seq<Seq<char>>
    decreases s.len(),
{
    if s.len() == 0 {
        s
    } else {
        insert_text(sorted_texts(s.drop_last()), s.last())
    }
}

/// The texts of a list of strings.
pub open spec fn texts_of(v: Seq<String>) -> Seq<Seq<char>> {
    v.map_values(|s: String| s@)
}

fn insert_text_exec(v: &mut Vec<String>, x: String)
    ensures
        texts_of(final(v)@) == insert_text(texts_of(old(v)@), x@),
{
    let ghost s0 = texts_of(v@);
    let mut k = v.len();
    assert(s0.take(k as int) =~= s0);
    assert(s0 + s0.skip(k as int) =~= s0);
    while k > 0 && str_lt(x.as_str(), v[k - 1].as_str())
        invariant
            k <= v.len(),
            texts_of(v@) == s0,
            insert_text(s0, x@) == insert_text(s0.take(k as int), x@) + s0.skip(k as int),
        decreases k,
    {
        proof {
            let t = s0.take(k as int);
            assert(t.last() == s0[k - 1]);
            assert(t.drop_last() =~= s0.take(k - 1));
            assert(insert_text(s0.take(k - 1), x@).push(s0[k - 1]) + s0.skip(k as int)
                =~= insert_text(s0.take(k - 1), x@) + s0.skip(k - 1));
        }
        k = k - 1;
    }
    proof {
        let t = s0.take(k as int);
        assert(insert_text(t, x@) == t.push(x@));
    }
    v.insert(k, x);
    assert(texts_of(v@) =~= s0.take(k as int).push(x@) + s0.skip(k as int));
}

pub(crate) proof fn lemma_lex_all(a: Seq<char>, b: Seq<char>, c: Seq<char>)
    ensures
        !lex_lt(a, a) && !lex_lt(b, b) && !lex_lt(c, c),
        lex_lt(a, b) ==> !lex_lt(b, a),
        lex_lt(b, c) ==> !lex_lt(c, b),
        lex_lt(a, c) ==> !lex_lt(c, a),
        lex_lt(a, b) && lex_lt(b, c) ==> lex_lt(a, c),
        lex_lt(b, a) && lex_lt(a, c) ==> lex_lt(b, c),
        lex_lt(a, c) && lex_lt(c, b) ==> lex_lt(a, b),
        lex_lt(c, b) && lex_lt(b, a) ==> lex_lt(c, a),
        lex_lt(b, c) && lex_lt(c, a) ==> lex_lt(b, a),
        lex_lt(c, a) && lex_lt(a, b) ==> lex_lt(c, b),
        a != b ==> lex_lt(a, b) || lex_lt(b, a),
        b != c ==> lex_lt(b, c) || lex_lt(c, b),
        a != c ==> lex_lt(a, c) || lex_lt(c, a),
{
    crate::text::lemma_lex_lt_order(a, b, c);
    crate::text::lemma_lex_lt_order(b, a, c);
    crate::text::lemma_lex_lt_order(a, c, b);
    crate::text::lemma_lex_lt_order(c, b, a);
    crate::text::lemma_lex_lt_order(b, c, a);
    crate::text::lemma_lex_lt_order(c, a, b);
}

/// Tree order is a strict weak order: irreflexive, asymmetric, and if
/// neither `x` before `y` nor `y` before `z`, then not `x` before `z`.
proof fn lemma_node_order(x: FsNode, y: FsNode, z: FsNode)
    ensures
        !node_before(x, x),
        node_before(x, y) ==> !node_before(y, x),
        !node_before(x, y) && !node_before(y, z) ==> !node_before(x, z),
{
    lemma_lex_all(x.name@, y.name@, z.name@);
}

/// No node orders before one that comes earlier.
pub open spec fn nodes_sorted(s: Seq<FsNode>) -> bool {
    forall|i: int, j: int| 0 <= i < j < s.len() ==> !node_before(#[trigger] s[j], #[trigger] s[i])
}

proof fn lemma_insert_node(s: Seq<FsNode>, x: FsNode)
    ensures
        insert_node(s, x).to_multiset() =~= s.to_multiset().insert(x),
        nodes_sorted(s) ==> nodes_sorted(insert_node(s, x)),
    decreases s.len(),
{
    broadcast use vstd::seq_lib::group_to_multiset_ensures, vstd::multiset::group_multiset_axioms;
    let r = insert_node(s, x);
    if s.len() == 0 || !node_before(x, s.last()) {
        if nodes_sorted(s) && s.len() > 0 {
            assert forall|i: int, j: int| 0 <= i < j < r.len() implies !node_before(#[trigger] r[j], #[trigger] r[i]) by {
                if j == s.len() {
                    lemma_node_order(x, s.last(), s[i]);
                    if i < s.len() - 1 {
                        assert(!node_before(s[s.len() - 1], s[i]));
                    }
                } else {
                    assert(r[i] == s[i] && r[j] == s[j]);
                }
            }
        }
    } else {
        let p = s.drop_last();
        let l = s.last();
        lemma_insert_node(p, x);
        let q = insert_node(p, x);
        assert(s =~= p.push(l));
        assert(r == q.push(l));
        if nodes_sorted(s) {
            assert(nodes_sorted(p)) by {
                assert forall|i: int, j: int| 0 <= i < j < p.len() implies !node_before(#[trigger] p[j], #[trigger] p[i]) by {
                    assert(p[i] == s[i] && p[j] == s[j]);
                }
            }
            assert forall|i: int, j: int| 0 <= i < j < r.len() implies !node_before(#[trigger] r[j], #[trigger] r[i]) by {
                if j == q.len() {
                    let e = q[i];
                    assert(q.to_multiset().count(e) > 0);
                    if e == x {
                        lemma_node_order(x, l, l);
                    } else {
                        assert(p.to_multiset().count(e) > 0);
                        assert(p.contains(e));
                        let m = choose|m: int| 0 <= m < p.len() && p[m] == e;
                        assert(s[m] == e);
                        assert(!node_before(s[s.len() - 1], s[m]));
                    }
                } else {
                    assert(r[i] == q[i] && r[j] == q[j]);
                }
            }
        }
    }
}

/// Sorting a directory level keeps its nodes (with their multiplicity) and
/// puts them in tree order: directories first, then by name.
pub proof fn lemma_sorted_nodes(s: Seq<FsNode>)
    ensures
        sorted_nodes(s).to_multiset() =~= s.to_multiset(),
        nodes_sorted(sorted_nodes(s)),
    decreases s.len(),
{
    broadcast use vstd::seq_lib::group_to_multiset_ensures, vstd::multiset::group_multiset_axioms;
    if s.len() > 0 {
        let p = s.drop_last();
        lemma_sorted_nodes(p);
        lemma_insert_node(sorted_nodes(p), s.last());
        assert(s =~= p.push(s.last()));
    }
}

/// No text orders before one that comes earlier.
pub open spec fn texts_sorted(s: Seq<Seq<char>>) -> bool {
    forall|i: int, j: int| 0 <= i < j < s.len() ==> !lex_lt(#[trigger] s[j], #[trigger] s[i])
}

proof fn lemma_insert_text(s: Seq<Seq<char>>, x: Seq<char>)
    ensures
        insert_text(s, x).to_multiset() =~= s.to_multiset().insert(x),
        texts_sorted(s) ==> texts_sorted(insert_text(s, x)),
    decreases s.len(),
{
    broadcast use vstd::seq_lib::group_to_multiset_ensures, vstd::multiset::group_multiset_axioms;
    let r = insert_text(s, x);
    if s.len() == 0 || !lex_lt(x, s.last()) {
        if texts_sorted(s) && s.len() > 0 {
            assert forall|i: int, j: int| 0 <= i < j < r.len() implies !lex_lt(#[trigger] r[j], #[trigger] r[i]) by {
                if j == s.len() {
                    lemma_lex_all(x, s.last(), s[i]);
                    if i < s.len() - 1 {
                        assert(!lex_lt(s[s.len() - 1], s[i]));
                    }
                } else {
                    assert(r[i] == s[i] && r[j] == s[j]);
                }
            }
        }
    } else {
        let p = s.drop_last();
        let l = s.last();
        lemma_insert_text(p, x);
        let q = insert_text(p, x);
        assert(s =~= p.push(l));
        assert(r == q.push(l));
        if texts_sorted(s) {
            assert(texts_sorted(p)) by {
                assert forall|i: int, j: int| 0 <= i < j < p.len() implies !lex_lt(#[trigger] p[j], #[trigger] p[i]) by {
                    assert(p[i] == s[i] && p[j] == s[j]);
                }
            }
            assert forall|i: int, j: int| 0 <= i < j < r.len() implies !lex_lt(#[trigger] r[j], #[trigger] r[i]) by {
                if j == q.len() {
                    let e = q[i];
                    assert(q.to_multiset().count(e) > 0);
                    if e == x {
                        lemma_lex_all(x, l, l);
                    } else {
                        assert(p.to_multiset().count(e) > 0);
                        assert(p.contains(e));
                        let m = choose|m: int| 0 <= m < p.len() && p[m] == e;
                        assert(s[m] == e);
                        assert(!lex_lt(s[s.len() - 1], s[m]));
                    }
                } else {
                    assert(r[i] == q[i] && r[j] == q[j]);
                }
            }
        }
    }
}

/// Sorting glob hits keeps them (with their multiplicity) and puts them in
/// ascending order.
pub proof fn lemma_sorted_texts(s: Seq<Seq<char>>)
    ensures
        sorted_texts(s).to_multiset() =~= s.to_multiset(),
        texts_sorted(sorted_texts(s)),
    decreases s.len(),
{
    broadcast use vstd::seq_lib::group_to_multiset_ensures, vstd::multiset::group_multiset_axioms;
    if s.len() > 0 {
        let p = s.drop_last();
        lemma_sorted_texts(p);
        lemma_insert_text(sorted_texts(p), s.last());
        assert(s =~= p.push(s.last()));
    }
}

/// A glob search over relative paths, with a pattern `globset` accepts.
pub struct GlobSearch {
    pattern: String,
}

impl GlobSearch {
    /// The pattern.
    pub closed spec fn pattern_view(&self) -> Seq<char> {
        self.pattern@
    }

    #[verifier::type_invariant]
    closed spec fn valid(&self) -> bool {
        glob_valid(self.pattern@)
    }

    /// Starts a glob search; a pattern `globset` refuses is a `Validation`
    /// error with its message.
    pub fn new(pattern: &str) -> (r: Result<GlobSearch, DomainError>)
        ensures
            r is Ok <==> glob_valid(pattern@),
            r matches Ok(g) ==> g.pattern_view() == pattern@,
            r matches Err(e) ==> (e matches DomainError::Validation(m) && has_prefix(m@, "非法 glob 模式："@)),
    {
        match glob_check(pattern) {
            Ok(()) => Ok(GlobSearch { pattern: owned(pattern) }),
            Err(e) => {
                let mut m = chars_of("非法 glob 模式：");
                extend_str(&mut m, e.as_str());
                proof {
                    assert(m@.take("非法 glob 模式："@.len() as int) =~= "非法 glob 模式："@);
                }
                Err(DomainError::Validation(string_of(&m)))
            },
        }
    }

    /// Visits one file: a path the pattern matches is added to the hits.
    /// Whether to go on in this directory: fewer than 500 hits so far.
    pub fn visit(&self, rel: &str, hits: &mut Vec<String>) -> (go_on: bool)
        ensures
            texts_of(final(hits)@) == if glob_matches(self.pattern_view(), rel@) {
                texts_of(old(hits)@).push(rel@)
            } else {
                texts_of(old(hits)@)
            },
            go_on == (final(hits)@.len() < 500),
    {
        proof {
            use_type_invariant(self);
        }
        let ghost before = texts_of(hits@);
        match glob_match(self.pattern.as_str(), rel) {
            Some(true) => {
                hits.push(owned(rel));
                assert(texts_of(hits@) =~= before.push(rel@));
            },
            _ => {},
        }
        hits.len() < GLOB_LIMIT
    }
}

/// The glob hits, sorted (see [`sorted_texts`]).
pub fn glob_finish(hits: Vec<String>) -> (r: Vec<String>)
    ensures
        texts_of(r@) == sorted_texts(texts_of(hits@)),
{
    let ghost all = texts_of(hits@);
    let mut out: Vec<String> = Vec::new();
    for i in 0..hits.len()
        invariant
            all == texts_of(hits@),
            texts_of(out@) == sorted_texts(all.take(i as int)),
    {
        proof {
            assert(all.take(i + 1).drop_last() =~= all.take(i as int));
        }
        insert_text_exec(&mut out, hits[i].clone());
    }
    assert(all.take(hits@.len() as int) =~= all);
    out
}

/// A grep hit.
#[derive(Debug, Clone, PartialEq, Eq)]
pub struct GrepHit {
    /// Path relative to the project root.
    pub rel_path: String,
    /// Line number, from 1.
    pub line_no: usize,
    /// The line.
    pub line: String,
}

/// A grep search: a compiled regular expression and an optional glob on
/// the relative path (a valid one).
pub struct GrepSearch {
    re: Pattern,
    filter: Option<String>,
}

/// What to do with the next file of a grep search.
#[derive(Debug, Clone, Copy, PartialEq, Eq)]
pub enum GrepNext {
    /// Enough hits: stop in this directory.
    Stop,
    /// The file is not searched.
    Skip,
    /// Read the file and search it.
    Read,
}

/// The lines of `ls` the pattern matches, with their numbers (from 1).
pub open spec fn found_lines(p: Seq<char>, ls: Seq<Seq<char>>) -> Seq<(int, Seq<char>)>
    decreases ls.len(),
{
    if ls.len() == 0 {
        Seq::empty()
    } else {
        let f = found_lines(p, ls.drop_last());
        if regex_matches(p, ls.last()) {
            f.push((ls.len() as int, ls.last()))
        } else {
            f
        }
    }
}

/// What a file's bytes give a grep: nothing for a file with a zero byte in
/// its first 8 KiB or that is not UTF-8, else the matching lines.
pub open spec fn file_found(p: Seq<char>, bytes: Seq<u8>) -> Seq<(int, Seq<char>)> {
    let head = bytes.take(if bytes.len() < 8192 { bytes.len() as int } else { 8192 });
    if head.contains(0u8) {
        Seq::empty()
    } else {
        match utf8_decoded(bytes) {
            None => Seq::empty(),
            Some(t) => found_lines(p, lines_of(t)),
        }
    }
}

/// Hit `h` is line `f` of file `rel`.
pub open spec fn hit_is(h: GrepHit, rel: Seq<char>, f: (int, Seq<char>)) -> bool {
    h.rel_path@ == rel && h.line_no == f.0 && h.line@ == f.1
}

impl GrepSearch {
    /// The pattern.
    pub closed spec fn pattern_view(&self) -> Seq<char> {
        self.re.text()
    }

    /// The glob on relative paths, if any.
    pub closed spec fn filter_view(&self) -> Option<Seq<char>> {
        match self.filter {
            Some(i) => Some(i@),
            None => None,
        }
    }

    #[verifier::type_invariant]
    closed spec fn valid(&self) -> bool {
        self.filter matches Some(i) ==> glob_valid(i@)
    }

    /// Starts a grep search: the pattern must compile (else `Validation`
    /// with the regex message), and a non-blank path glob must be valid
    /// (else `Validation` with globset's message); a blank one is none.
    pub fn new(pattern: &str, filter: Option<&str>) -> (r: Result<GrepSearch, DomainError>)
        ensures
            r is Ok <==> (regex_valid(pattern@) && match filter {
                Some(i) => is_blank(i@) || glob_valid(i@),
                None => true,
            }),
            r matches Ok(g) ==> g.pattern_view() == pattern@ && g.filter_view() == match filter {
                Some(i) => if is_blank(i@) { None } else { Some(i@) },
                None => None,
            },
            !regex_valid(pattern@) ==> (r matches Err(DomainError::Validation(m)) && has_prefix(m@, "非法正则："@)),
            regex_valid(pattern@) && r is Err ==> (r matches Err(DomainError::Validation(m))
                && has_prefix(m@, "非法文件过滤模式："@)),
    {
        let re = match compile_regex(pattern) {
            Ok(re) => re,
            Err(e) => {
                let mut m = chars_of("非法正则：");
                extend_str(&mut m, e.as_str());
                proof {
                    assert(m@.take("非法正则："@.len() as int) =~= "非法正则："@);
                }
                return Err(DomainError::Validation(string_of(&m)));
            },
        };
        let inc = match filter {
            Some(i) => {
                if is_blank_vec(&chars_of(i)) {
                    None
                } else {
                    match glob_check(i) {
                        Ok(()) => Some(owned(i)),
                        Err(e) => {
                            let mut m = chars_of("非法文件过滤模式：");
                            extend_str(&mut m, e.as_str());
                            proof {
                                assert(m@.take("非法文件过滤模式："@.len() as int) =~= "非法文件过滤模式："@);
                            }
                            return Err(DomainError::Validation(string_of(&m)));
                        },
                    }
                }
            },
            None => None,
        };
        Ok(GrepSearch { re, filter: inc })
    }

    /// What to do with the next file: stop at 200 hits, skip a path the
    /// path glob does not match, read the rest.
    pub fn next(&self, rel: &str, hits: usize) -> (r: GrepNext)
        ensures
            hits >= 200 ==> r == GrepNext::Stop,
            hits < 200 ==> r == match self.filter_view() {
                Some(i) => if glob_matches(i, rel@) { GrepNext::Read } else { GrepNext::Skip },
                None => GrepNext::Read,
            },
    {
        proof {
            use_type_invariant(self);
        }
        if hits >= GREP_LIMIT {
            return GrepNext::Stop;
        }
        match &self.filter {
            Some(i) => match glob_match(i.as_str(), rel) {
                Some(true) => GrepNext::Read,
                _ => GrepNext::Skip,
            },
            None => GrepNext::Read,
        }
    }

    /// Searches one file's bytes (see [`file_found`]) and adds its hits,
    /// stopping at 200 hits in all. Whether to go on: fewer than 200 hits.
    pub fn scan(&self, rel: &str, bytes: Vec<u8>, hits: &mut Vec<GrepHit>) -> (go_on: bool)
        ensures
            ({
                let f = file_found(self.pattern_view(), bytes@);
                let room: int = if old(hits)@.len() >= 200 { 0 } else { 200 - old(hits)@.len() };
                let k: int = if f.len() < room { f.len() as int } else { room };
                &&& final(hits)@.len() == old(hits)@.len() + k
                &&& forall|j: int| 0 <= j < old(hits)@.len() ==> #[trigger] final(hits)@[j] == old(hits)@[j]
                &&& forall|j: int| 0 <= j < k ==> hit_is(#[trigger] final(hits)@[old(hits)@.len() + j], rel@, f[j])
            }),
            go_on == (final(hits)@.len() < 200),
    {
        if hits.len() >= GREP_LIMIT {
            return false;
        }
        let n = if bytes.len() < GREP_BINARY_PROBE { bytes.len() } else { GREP_BINARY_PROBE };
        if has_zero(&bytes, n) {
            return true;
        }
        let text = match utf8_text(bytes) {
            Some(t) => t,
            None => return true,
        };
        let t = chars_of(text.as_str());
        let ghost ls = lines_of(t@);
        let ghost p = self.pattern_view();
        let ghost h0 = hits@;
        let mut pos: usize = 0;
        let mut j: usize = 0;
        assert(t@.skip(0) =~= t@);
        assert(ls.take(0) =~= Seq::<Seq<char>>::empty());
        assert(file_found(p, bytes@) == found_lines(p, ls));
        while pos < t.len()
            invariant
                file_found(p, bytes@) == found_lines(p, ls),
                h0 == old(hits)@,
                pos <= t.len(),
                j <= pos,
                j <= ls.len(),
                ls == lines_of(t@),
                p == self.pattern_view(),
                lines_of(t@.skip(pos as int)) == ls.skip(j as int),
                h0.len() < 200,
                hits@.len() < 200,
                hits@.len() == h0.len() + found_lines(p, ls.take(j as int)).len(),
                forall|i: int| 0 <= i < h0.len() ==> #[trigger] hits@[i] == h0[i],
                forall|i: int| 0 <= i < found_lines(p, ls.take(j as int)).len()
                    ==> hit_is(#[trigger] hits@[h0.len() + i], rel@, found_lines(p, ls.take(j as int))[i]),
            decreases t.len() - pos,
        {
            let (line, next) = next_line(&t, pos);
            proof {
                assert(ls.skip(j as int).len() > 0);
                assert(ls.skip(j as int)[0] == ls[j as int]);
                assert(ls.skip(j as int).drop_first() =~= ls.skip(j + 1));
                assert(ls.take(j + 1).drop_last() =~= ls.take(j as int));
                assert(ls.take(j + 1).last() == ls[j as int]);
            }
            let ghost fprev = found_lines(p, ls.take(j as int));
            if regex_is_match(&self.re, string_of(&line).as_str()) {
                let ls_text = string_of(&line);
                hits.push(GrepHit { rel_path: owned(rel), line_no: j + 1, line: ls_text });
                proof {
                    assert(found_lines(p, ls.take(j + 1)) == fprev.push(((j + 1) as int, ls[j as int])));
                }
                if hits.len() >= GREP_LIMIT {
                    proof {
                        let f = file_found(p, bytes@);
                        assert(f == found_lines(p, ls));
                        lemma_found_prefix(p, ls, j + 1);
                        let fj = found_lines(p, ls.take(j + 1));
                        assert(hits@.len() == 200);
                        assert(fj.len() == 200 - h0.len());
                        assert(f.len() >= fj.len());
                        assert forall|i: int| 0 <= i < 200 - h0.len() implies
                            hit_is(#[trigger] hits@[h0.len() + i], rel@, f[i]) by {
                            assert(f[i] == fj[i]);
                        }
                        assert(h0 == old(hits)@);
                    }
                    return false;
                }
            }
            pos = next;
            j = j + 1;
        }
        proof {
            assert(ls.skip(j as int).len() == 0) by {
                assert(t@.skip(pos as int) =~= Seq::<char>::empty());
            }
            assert(ls.take(j as int) =~= ls);
        }
        true
    }
}

/// The matching lines of a prefix of the lines are a prefix of those of all
/// lines.
proof fn lemma_found_prefix(p: Seq<char>, ls: Seq<Seq<char>>, n: int)
    requires
        0 <= n <= ls.len(),
    ensures
        found_lines(p, ls.take(n)).len() <= found_lines(p, ls).len(),
        forall|i: int| 0 <= i < found_lines(p, ls.take(n)).len()
            ==> found_lines(p, ls)[i] == #[trigger] found_lines(p, ls.take(n))[i],
    decreases ls.len() - n,
{
    if n < ls.len() {
        lemma_found_prefix(p, ls, n + 1);
        assert(ls.take(n + 1).drop_last() =~= ls.take(n));
        let a = found_lines(p, ls.take(n));
        let b = found_lines(p, ls.take(n + 1));
        assert(b == a || b == a.push((n + 1, ls[n])));
        assert forall|i: int| 0 <= i < a.len() implies found_lines(p, ls)[i] == #[trigger] a[i] by {
            assert(b[i] == a[i]);
        }
    } else {
        assert(ls.take(n) =~= ls);
    }
}

/// Whether grep reads a file of `size` bytes (at most 1 MiB).
pub fn grep_reads(size: u64) -> (r: bool)
    ensures
        r == (size <= 1048576),
{
    size <= GREP_FILE_LIMIT
}

} // verus!
