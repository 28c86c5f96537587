//! The plugin and skill markets, and plugin packages: which archive entry is
//! the descriptor, the shared top directory that is stripped on extraction,
//! the path each entry is written to (entries that would leave the plugin
//! directory are refused) and the checks on a parsed descriptor. Reading
//! and writing archives and files is the caller's.
use vstd::prelude::*;

use crate::domain::plugin::plugin::manifest_invalid;
use crate::domain::plugin::PluginManifest;
use crate::domain::DomainError;
use crate::text::{
    chars_of, contains_char, ends_with, extend_str, find_char, first_index_of, has_prefix, has_suffix,
    occurs_at, slice_vec, starts_with_str, string_of,
};

pub mod gitee;
pub mod github;

verus! {

/// An MCP server a package declares.
#[derive(Debug, Clone)]
pub struct McpDecl {
    /// Server name.
    pub name: String,
    /// Start command.
    pub command: String,
}

/// A permission rule a package declares.
#[derive(Debug, Clone)]
pub struct RuleDecl {
    /// Tool name.
    pub tool: String,
    /// Glob pattern.
    pub pattern: String,
    /// Action (`allow` / `ask` / `deny`).
    pub action: String,
    /// Match order (0 when absent).
    pub sort: i64,
}

/// Whether archive entry `name` is the file `file_name`, at the top or in a
/// directory.
pub open spec fn entry_is(name: Seq<char>, file_name: Seq<char>) -> bool {
    name == file_name || has_suffix(name, "/"@ + file_name)
}

/// The name of the first archive entry that is `file_name`, at the top or
/// under one wrapping directory (see [`entry_is`]).
pub fn find_entry_name(names: &[String], file_name: &str) -> (r: Option<String>)
    ensures
        match r {
            Some(n) => exists|i: int| 0 <= i < names@.len() && n@ == names@[i]@
                && entry_is(names@[i]@, file_name@)
                && forall|j: int| 0 <= j < i ==> !entry_is(#[trigger] names@[j]@, file_name@),
            None => forall|i: int| 0 <= i < names@.len() ==> !entry_is(#[trigger] names@[i]@, file_name@),
        },
{
    let mut suffix = chars_of("/");
    extend_str(&mut suffix, file_name);
    let f = chars_of(file_name);
    proof {
        reveal_strlit("/");
    }
    for i in 0..names.len()
        invariant
            suffix@ == "/"@ + file_name@,
            f@ == file_name@,
            forall|j: int| 0 <= j < i ==> !entry_is(#[trigger] names@[j]@, file_name@),
    {
        let n = chars_of(names[i].as_str());
        if crate::text::vec_eq(&n, &f) || ends_with(&n, &suffix) {
            return Some(names[i].clone());
        }
    }
    None
}

/// The part of an entry name before its first `/` (all of it when it has
/// none).
pub open spec fn head(n: Seq<char>) -> Seq<char> {
    match first_index_of(n, '/') {
        Some(i) => n.take(i),
        None => n,
    }
}

/// `d` is the one non-empty top component of the entries: some entry starts
/// with it and every entry with a non-empty top component has this one.
pub open spec fn shared_head(names: Seq<String>, d: Seq<char>) -> bool {
    &&& d.len() > 0
    &&& exists|k: int| 0 <= k < names.len() && head(#[trigger] names[k]@) == d
    &&& forall|j: int| 0 <= j < names.len() && head(#[trigger] names[j]@).len() > 0 ==> head(names[j]@) == d
}

/// Whether the entries sit in one top directory that can be stripped: they
/// share a top component and every name holds a `/`.
pub open spec fn has_top_dir(names: Seq<String>) -> bool {
    &&& exists|d: Seq<char>| shared_head(names, d)
    &&& forall|j: int| 0 <= j < names.len() ==> (#[trigger] names[j]@).contains('/')
}

fn head_of(n: &Vec<char>) -> (r: Vec<char>)
    ensures
        r@ == head(n@),
{
    match find_char(n, '/') {
        Some(i) => {
            let r = slice_vec(n, 0, i);
            assert(r@ =~= n@.take(i as int));
            r
        },
        None => n.clone(),
    }
}

/// The top directory shared by all entries, with its trailing `/`, when
/// there is one (see [`has_top_dir`]).
pub fn common_top_dir(names: &[String]) -> (r: Option<String>)
    ensures
        r is Some <==> has_top_dir(names@),
        r matches Some(p) ==> exists|d: Seq<char>| shared_head(names@, d) && p@ == d + "/"@,
{
    let mut first: Option<Vec<char>> = None;
    let mut first_at: usize = 0;
    let mut all_slash = true;
    let mut agree = true;
    for i in 0..names.len()
        invariant
            all_slash == forall|j: int| 0 <= j < i ==> (#[trigger] names@[j]@).contains('/'),
            match first {
                None => agree && forall|j: int| 0 <= j < i ==> head(#[trigger] names@[j]@).len() == 0,
                Some(d) => {
                    &&& d@.len() > 0
                    &&& first_at < i
                    &&& head(names@[first_at as int]@) == d@
                    &&& agree == forall|j: int| 0 <= j < i && head(#[trigger] names@[j]@).len() > 0
                        ==> head(names@[j]@) == d@
                },
            },
    {
        let n = chars_of(names[i].as_str());
        if !contains_char(&n, '/') {
            all_slash = false;
        }
        let h = head_of(&n);
        assert(n@ == names@[i as int]@);
        if h.len() > 0 {
            match &first {
                None => {
                    first = Some(h);
                    first_at = i;
                },
                Some(d) => {
                    if !crate::text::vec_eq(&h, d) {
                        agree = false;
                    }
                },
            }
        }
    }
    match first {
        None => {
            proof {
                assert forall|d: Seq<char>| !shared_head(names@, d) by {
                    if shared_head(names@, d) {
                        let k = choose|k: int| 0 <= k < names@.len() && head(#[trigger] names@[k]@) == d;
                        assert(head(names@[k]@).len() == 0);
                    }
                }
            }
            None
        },
        Some(d) => {
            if agree && all_slash {
                let mut p = d.clone();
                p.push('/');
                proof {
                    reveal_strlit("/");
                    assert(shared_head(names@, d@));
                    assert(p@ =~= d@ + "/"@);
                }
                Some(string_of(&p))
            } else {
                proof {
                    if !agree {
                        assert forall|e: Seq<char>| !shared_head(names@, e) by {
                            if shared_head(names@, e) {
                                assert(head(names@[first_at as int]@) == e);
                            }
                        }
                    }
                }
                None
            }
        },
    }
}

/// Whether an archive path would leave the directory it is extracted to:
/// it starts at the root, or one of its `/`-separated parts is `..`.
pub open spec fn escapes(rel: Seq<char>) -> bool {
    ||| rel.len() > 0 && rel[0] == '/'
    ||| exists|i: int| #![trigger occurs_at(rel, ".."@, i)]
        0 <= i && i + 2 <= rel.len() && occurs_at(rel, ".."@, i)
        && (i == 0 || rel[i - 1] == '/') && (i + 2 == rel.len() || rel[i + 2] == '/')
}

/// The path of an entry inside the plugin directory: the entry name without
/// the stripped top directory (`prefix`, when the name starts with it).
pub open spec fn entry_rel(raw: Seq<char>, prefix: Option<Seq<char>>) -> Seq<char> {
    match prefix {
        Some(p) => if has_prefix(raw, p) { raw.skip(p.len() as int) } else { raw },
        None => raw,
    }
}

fn escapes_exec(rel: &Vec<char>) -> (b: bool)
    ensures
        b == escapes(rel@),
{
    if rel.len() > 0 && rel[0] == '/' {
        return true;
    }
    let dots = chars_of("..");
    proof {
        reveal_strlit("..");
    }
    let mut i: usize = 0;
    while rel.len() >= 2 && i <= rel.len() - 2
        invariant
            i <= rel@.len(),
            dots@ == ".."@,
            !(rel@.len() > 0 && rel@[0] == '/'),
            forall|k: int| #![trigger occurs_at(rel@, ".."@, k)]
                0 <= k < i && k + 2 <= rel@.len() && occurs_at(rel@, ".."@, k)
                ==> !((k == 0 || rel@[k - 1] == '/') && (k + 2 == rel@.len() || rel@[k + 2] == '/')),
        decreases rel.len() - i,
    {
        if crate::text::occurs_at_exec(rel, &dots, i) && (i == 0 || rel[i - 1] == '/')
            && (i + 2 == rel.len() || rel[i + 2] == '/') {
            return true;
        }
        i = i + 1;
    }
    false
}

/// Where an archive entry goes, relative to the plugin directory:
/// `Ok(None)` for a directory entry or one that is only the stripped top
/// directory, `Ok(Some(path))` for a file, and `Denied` for a path that
/// would leave the plugin directory (see [`escapes`]).
pub fn entry_rel_path(raw: &str, prefix: Option<&str>) -> (r: Result<Option<String>, DomainError>)
    ensures
        ({
            let rel = entry_rel(raw@, match prefix { Some(p) => Some(p@), None => None });
            if rel.len() == 0 || rel[rel.len() - 1] == '/' {
                r == Ok::<Option<String>, DomainError>(None)
            } else if escapes(rel) {
                r matches Err(DomainError::Denied(m)) && m@ == "非法包内路径："@ + rel
            } else {
                r matches Ok(Some(p)) && p@ == rel
            }
        }),
{
    let v = chars_of(raw);
    let rel = match prefix {
        Some(p) => {
            if starts_with_str(&v, p) {
                let pl = chars_of(p).len();
                slice_vec(&v, pl, v.len())
            } else {
                v
            }
        },
        None => v,
    };
    proof {
        if let Some(p) = prefix {
            if has_prefix(raw@, p@) {
                assert(rel@ =~= raw@.skip(p@.len() as int));
            }
        }
    }
    if rel.len() == 0 || rel[rel.len() - 1] == '/' {
        return Ok(None);
    }
    if escapes_exec(&rel) {
        let mut m = chars_of("非法包内路径：");
        crate::text::extend_vec(&mut m, &rel);
        return Err(DomainError::Denied(string_of(&m)));
    }
    Ok(Some(string_of(&rel)))
}

/// What becomes of a parsed descriptor read from `file_name`: a parse
/// failure is a `Validation` error naming the file and carrying the
/// parser's message, and a parsed descriptor must pass its own checks (see
/// [`manifest_invalid`]).
pub fn check_manifest(parsed: Result<PluginManifest, String>, file_name: &str) -> (r: Result<PluginManifest, DomainError>)
    ensures
        match parsed {
            Err(e) => r matches Err(DomainError::Validation(m)) && m@ == file_name@ + " 格式非法："@ + e@,
            Ok(man) => match manifest_invalid(man) {
                None => r matches Ok(x) && x == man,
                Some(m) => r matches Err(DomainError::Validation(e)) && e@ == m,
            },
        },
{
    match parsed {
        Err(e) => {
            let mut m = chars_of(file_name);
            extend_str(&mut m, " 格式非法：");
            extend_str(&mut m, e.as_str());
            Err(DomainError::Validation(string_of(&m)))
        },
        Ok(man) => {
            man.validate()?;
            Ok(man)
        },
    }
}

/// What becomes of a parsed declaration file (`mcp.json` or `rules.json`):
/// a parse failure is a `Validation` error naming the file.
pub fn check_decls<T>(parsed: Result<Vec<T>, String>, file_name: &str) -> (r: Result<Vec<T>, DomainError>)
    ensures
        match parsed {
            Err(e) => r matches Err(DomainError::Validation(m)) && m@ == file_name@ + " 格式非法："@ + e@,
            Ok(v) => r matches Ok(x) && x@ == v@,
        },
{
    match parsed {
        Err(e) => {
            let mut m = chars_of(file_name);
            extend_str(&mut m, " 格式非法：");
            extend_str(&mut m, e.as_str());
            Err(DomainError::Validation(string_of(&m)))
        },
        Ok(v) => Ok(v),
    }
}

/// Whether a file in a package's skills directory counts as a skill (its
/// extension is `md`).
pub open spec fn is_skill_file(name: Seq<char>) -> bool {
    has_suffix(name, ".md"@) && name.len() > 3
}

/// How many of the names count as skills.
pub open spec fn skill_count(names: Seq<String>) -> nat
    decreases names.len(),
{
    if names.len() == 0 {
        0
    } else {
        skill_count(names.drop_last()) + if is_skill_file(names.last()@) { 1nat } else { 0nat }
    }
}

proof fn lemma_skill_count_le(names: Seq<String>)
    ensures
        skill_count(names) <= names.len(),
    decreases names.len(),
{
    if names.len() > 0 {
        lemma_skill_count_le(names.drop_last());
    }
}

/// The number of skills among the file names of a package's skills
/// directory (see [`is_skill_file`]).
pub fn count_skill_files(names: &[String]) -> (r: usize)
    ensures
        r == skill_count(names@),
{
    let mut n: usize = 0;
    let suffix = chars_of(".md");
    proof {
        reveal_strlit(".md");
    }
    for i in 0..names.len()
        invariant
            suffix@ == ".md"@,
            n == skill_count(names@.take(i as int)),
            n <= i,
    {
        proof {
            assert(names@.take(i + 1).drop_last() =~= names@.take(i as int));
        }
        let v = chars_of(names[i].as_str());
        if v.len() > 3 && ends_with(&v, &suffix) {
            n = n + 1;
        }
    }
    proof {
        assert(names@.take(names@.len() as int) =~= names@);
    }
    n
}

} // verus!
