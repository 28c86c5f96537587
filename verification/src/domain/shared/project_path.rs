//! The project root: every file and command path is resolved through it, and
//! a resolved path must stay under the canonical root (no `../` escape, no
//! absolute path outside). A read-only resolution may also land under an
//! explicitly allowed host directory.
use vstd::prelude::*;

use crate::domain::DomainError;
use crate::support::path::{
    canonicalize, home_dir, path_exists, path_file_name, path_is_dir, path_join, path_parent,
    path_starts_with, path_strip_prefix, path_within, joined, stripped,
};
use crate::text::{chars_of, concat_vec, eq_str, has_prefix, is_blank, is_blank_vec, is_ws, owned, slice_vec, starts_with_str, string_of};

verus! {

/// `s` without its leading `/` and `\` characters.
pub open spec fn strip_leading_seps(s: Seq<char>) -> Seq<char>
    decreases s.len(),
{
    if s.len() > 0 && (s[0] == '/' || s[0] == '\\') {
        strip_leading_seps(s.drop_first())
    } else {
        s
    }
}

/// `~`, `~/x` or `~\x` with the home directory put in place of the `~`
/// (when it is known); any other path unchanged.
pub open spec fn tilde_expanded(path: Seq<char>, home: Option<Seq<char>>) -> Seq<char> {
    if path == "~"@ || has_prefix(path, "~/"@) || has_prefix(path, "~\\"@) {
        match home {
            Some(h) => {
                let rest = strip_leading_seps(path.drop_first());
                if rest.len() == 0 {
                    h
                } else {
                    joined(h, rest)
                }
            },
            None => path,
        }
    } else {
        path
    }
}

/// Expands a leading `~` with the given home directory (see
/// [`tilde_expanded`]).
pub fn expand_tilde_with(path: &str, home: Option<&str>) -> (r: String)
    ensures
        r@ == tilde_expanded(path@, match home {
            Some(h) => Some(h@),
            None => None,
        }),
{
    let s = chars_of(path);
    if eq_str(&s, "~") || starts_with_str(&s, "~/") || starts_with_str(&s, "~\\") {
        match home {
            Some(h) => {
                proof {
                    reveal_strlit("~");
                    reveal_strlit("~/");
                    reveal_strlit("~\\");
                }
                let mut i: usize = 1;
                assert(s@.skip(1) == s@.drop_first());
                while i < s.len() && (s[i] == '/' || s[i] == '\\')
                    invariant
                        1 <= i <= s.len(),
                        strip_leading_seps(s@.drop_first()) == strip_leading_seps(s@.skip(i as int)),
                    decreases s.len() - i,
                {
                    assert(s@.skip(i as int).drop_first() =~= s@.skip(i + 1));
                    i = i + 1;
                }
                let rest = slice_vec(&s, i, s.len());
                assert(rest@ =~= s@.skip(i as int));
                if rest.len() == 0 {
                    owned(h)
                } else {
                    path_join(h, string_of(&rest).as_str())
                }
            },
            None => owned(path),
        }
    } else {
        owned(path)
    }
}

/// Expands a leading `~` with the user's home directory.
pub fn expand_tilde(path: &str) -> (r: String)
    ensures
        exists|home: Option<Seq<char>>| r@ == tilde_expanded(path@, home),
{
    let home = home_dir();
    match home {
        Some(h) => expand_tilde_with(path, Some(h.as_str())),
        None => expand_tilde_with(path, None),
    }
}

/// A project root: an existing directory, canonicalised.
#[derive(Debug, Clone)]
pub struct ProjectPath {
    root: String,
}

fn message(prefix: &str, tail: &str) -> (r: String)
    ensures
        r@ == prefix@ + tail@,
{
    string_of(&concat_vec(&chars_of(prefix), &chars_of(tail)))
}

/// The path [`ProjectPath::resolve`] canonicalises for `rel`: `rel` itself
/// when it is absolute, else `rel` under the root.
pub open spec fn resolve_target(root: Seq<char>, rel: Seq<char>) -> Seq<char> {
    if has_prefix(rel, "/"@) {
        rel
    } else {
        joined(root, rel)
    }
}

/// What lenient canonicalisation of `path` can give, whatever the disk
/// answers: a path, or a validation error that names `path` (no ancestor
/// left to read) or carries the canonicalisation failure.
pub open spec fn lenient_outcome(path: Seq<char>, co: Result<String, DomainError>) -> bool {
    match co {
        Ok(_) => true,
        Err(DomainError::Validation(m)) => m@ == "非法路径："@ + path || has_prefix(m@, "路径 canonicalize 失败："@),
        Err(_) => false,
    }
}

/// The confinement decision for `rel`, given what canonicalising it gave:
/// a canonical path under the root is the result, one outside is denied,
/// and a failed canonicalisation is passed on.
pub open spec fn confined(root: Seq<char>, rel: Seq<char>, co: Result<String, DomainError>, r: Result<String, DomainError>) -> bool {
    match co {
        Ok(c) => if path_within(c@, root) {
            r == Ok::<String, DomainError>(c)
        } else {
            r matches Err(DomainError::Denied(m)) && m@ == "路径越权（逃逸项目根）："@ + rel
        },
        Err(e) => r == Err::<String, DomainError>(e),
    }
}

/// What [`ProjectPath::resolve`] gives for `rel`: a blank path is refused;
/// otherwise the confinement decision (see [`confined`]) on some outcome of
/// canonicalising [`resolve_target`].
pub open spec fn resolved(root: Seq<char>, rel: Seq<char>, r: Result<String, DomainError>) -> bool {
    if is_blank(rel) {
        r matches Err(DomainError::Validation(m)) && m@ == "相对路径不能为空"@
    } else {
        exists|co: Result<String, DomainError>| lenient_outcome(resolve_target(root, rel), co) && #[trigger] confined(root, rel, co, r)
    }
}

/// What [`ProjectPath::resolve_readonly`] gives, for some home directory a
/// leading `~` expands with: the result of resolving the expanded path,
/// unless that is denied. Then a path under some canonical extra root is
/// accepted, a failed canonicalisation is passed on, and otherwise (always
/// so without extra roots) the call is denied.
pub open spec fn readonly_resolved(root: Seq<char>, rel: Seq<char>, extras: Seq<String>, r: Result<String, DomainError>) -> bool {
    exists|home: Option<Seq<char>>, first: Result<String, DomainError>| {
        &&& #[trigger] resolved(root, tilde_expanded(rel, home), first)
        &&& !(first is Err && first->Err_0 is Denied) ==> r == first
        &&& (first is Err && first->Err_0 is Denied) ==> fallback_ok(rel, extras, r)
        &&& (first is Err && first->Err_0 is Denied) ==> exists|trace: Seq<FallbackStep>|
            #[trigger] fallback_trace(extras, tilde_expanded(rel, home), trace) && fallback_answer(rel, trace, r)
    }
}

/// What canonicalisation gave for one extra root: the root's outcome, and,
/// when that succeeded, the outcome for the path under it.
pub type FallbackStep = (Result<String, DomainError>, Result<String, DomainError>);

/// Whether the fallback goes on to the next extra root after `step`: both
/// canonicalisations succeeded and the path does not lie under the root.
pub open spec fn passes_on(step: FallbackStep) -> bool {
    step.0 matches Ok(c) && step.1 matches Ok(p) && !path_within(p@, c@)
}

/// Whether `trace` records the extra roots tried, in order, for the expanded
/// path `expanded`: for each, some outcome of canonicalising it and, when
/// that succeeded with `c`, some outcome of canonicalising the path under
/// `c` (the path itself when absolute); every root tried but the last
/// passes on, and the roots stop early only after one that did not.
pub open spec fn fallback_trace(extras: Seq<String>, expanded: Seq<char>, trace: Seq<FallbackStep>) -> bool {
    &&& trace.len() <= extras.len()
    &&& forall|i: int| 0 <= i < trace.len() ==> lenient_outcome(extras[i]@, #[trigger] trace[i].0)
    &&& forall|i: int| 0 <= i < trace.len() ==> (#[trigger] trace[i].0) is Ok ==> lenient_outcome(
        resolve_target(trace[i].0->Ok_0@, expanded),
        trace[i].1,
    )
    &&& forall|i: int| 0 <= i < trace.len() - 1 ==> passes_on(#[trigger] trace[i])
    &&& trace.len() < extras.len() ==> trace.len() > 0 && !passes_on(trace.last())
}

/// The fallback's answer for the steps in `trace`: the first step that does
/// not pass on decides (a failed canonicalisation is passed on, a path under
/// its root is the result); when every step passes on, the call is denied
/// naming `rel`.
pub open spec fn fallback_answer(rel: Seq<char>, trace: Seq<FallbackStep>, r: Result<String, DomainError>) -> bool
    decreases trace.len(),
{
    if trace.len() == 0 {
        r matches Err(DomainError::Denied(m)) && m@ == "路径越权（不在项目根或只读白名单内）："@ + rel
    } else {
        match trace[0].0 {
            Err(e) => r == Err::<String, DomainError>(e),
            Ok(c) => match trace[0].1 {
                Err(e) => r == Err::<String, DomainError>(e),
                Ok(p) => if path_within(p@, c@) {
                    r == Ok::<String, DomainError>(p)
                } else {
                    fallback_answer(rel, trace.drop_first(), r)
                },
            },
        }
    }
}

proof fn lemma_fallback_after_passing(rel: Seq<char>, t: Seq<FallbackStep>, s: FallbackStep, r: Result<String, DomainError>)
    requires
        forall|j: int| 0 <= j < t.len() ==> passes_on(#[trigger] t[j]),
    ensures
        fallback_answer(rel, t.push(s), r) == fallback_answer(rel, seq![s], r),
        fallback_answer(rel, t, r) == fallback_answer(rel, Seq::<FallbackStep>::empty(), r),
    decreases t.len(),
{
    if t.len() > 0 {
        let u = t.drop_first();
        assert forall|j: int| 0 <= j < u.len() implies passes_on(#[trigger] u[j]) by {
            assert(u[j] == t[j + 1]);
        }
        lemma_fallback_after_passing(rel, u, s, r);
        assert(t.push(s).drop_first() =~= u.push(s));
        assert(passes_on(t[0]));
        assert(t.push(s)[0] == t[0]);
    } else {
        assert(t.push(s) =~= seq![s]);
        assert(t =~= Seq::<FallbackStep>::empty());
    }
}

/// When extra root `i` canonicalises to `c` and the path under it to `p`
/// inside `c`, and every root before it canonicalises without holding its
/// path, the read-only fallback answers `p`.
pub proof fn lemma_fallback_accepts(rel: Seq<char>, trace: Seq<FallbackStep>, i: int, r: Result<String, DomainError>)
    requires
        0 <= i < trace.len(),
        forall|j: int| 0 <= j < i ==> passes_on(#[trigger] trace[j]),
        trace[i].0 matches Ok(c) && trace[i].1 matches Ok(p) && path_within(p@, c@),
        fallback_answer(rel, trace, r),
    ensures
        r == Ok::<String, DomainError>(trace[i].1->Ok_0),
    decreases i,
{
    if i > 0 {
        let u = trace.drop_first();
        assert(passes_on(trace[0]));
        assert forall|j: int| 0 <= j < i - 1 implies passes_on(#[trigger] u[j]) by {
            assert(u[j] == trace[j + 1]);
        }
        assert(u[i - 1] == trace[i]);
        lemma_fallback_accepts(rel, u, i - 1, r);
    }
}

/// When every extra root tried canonicalises without holding the path, the
/// read-only fallback denies the call, naming `rel`.
pub proof fn lemma_fallback_denies(rel: Seq<char>, trace: Seq<FallbackStep>, r: Result<String, DomainError>)
    requires
        forall|j: int| 0 <= j < trace.len() ==> passes_on(#[trigger] trace[j]),
        fallback_answer(rel, trace, r),
    ensures
        r matches Err(DomainError::Denied(m)) && m@ == "路径越权（不在项目根或只读白名单内）："@ + rel,
{
    lemma_fallback_after_passing(rel, trace, trace[0], r);
}

/// What the fallback to the extra roots can give: a path under some
/// canonical extra root (only with extra roots), a failed canonicalisation
/// (only with extra roots), or the denial naming `rel`.
pub open spec fn fallback_ok(rel: Seq<char>, extras: Seq<String>, r: Result<String, DomainError>) -> bool {
    match r {
        Ok(p) => extras.len() > 0 && exists|b: Seq<char>| #[trigger] path_within(p@, b),
        Err(DomainError::Denied(m)) => m@ == "路径越权（不在项目根或只读白名单内）："@ + rel,
        Err(DomainError::Validation(m)) => extras.len() > 0 && (has_prefix(m@, "非法路径："@)
            || has_prefix(m@, "路径 canonicalize 失败："@)),
        Err(_) => false,
    }
}

/// What opening `path` as a project root can give, whatever the disk
/// answers: for some home directory `~` expands with, a missing path is
/// `NotFound` naming the expanded path, a file is a validation error naming
/// it, and a failed canonicalisation is a validation error with its reason.
pub open spec fn opened_as_root(path: Seq<char>, r: Result<ProjectPath, DomainError>) -> bool {
    exists|home: Option<Seq<char>>| {
        let e = #[trigger] tilde_expanded(path, home);
        match r {
            Ok(_) => true,
            Err(DomainError::NotFound(m)) => m@ == "项目路径不存在："@ + e,
            Err(DomainError::Validation(m)) => m@ == "项目路径不是目录："@ + e || has_prefix(
                m@,
                "路径 canonicalize 失败："@,
            ),
            Err(_) => false,
        }
    }
}

impl ProjectPath {
    /// The canonical root.
    pub closed spec fn root_view(&self) -> Seq<char> {
        self.root@
    }

    /// The project root for an expanded path, given what the file system
    /// answered for it: whether it exists, whether it is a directory, and
    /// (looked up only for an existing directory) its canonical form. A
    /// missing path is `NotFound`; a file, or a path that cannot be
    /// canonicalised, is a validation error.
    pub fn from_lookup(expanded: &str, exists: bool, is_dir: bool, canonical: Result<String, String>) -> (r: Result<
        ProjectPath,
        DomainError,
    >)
        ensures
            !exists ==> (r matches Err(DomainError::NotFound(m)) && m@ == "项目路径不存在："@ + expanded@),
            exists && !is_dir ==> (r matches Err(DomainError::Validation(m)) && m@ == "项目路径不是目录："@
                + expanded@),
            exists && is_dir ==> match canonical {
                Ok(c) => r matches Ok(p) && p.root_view() == c@,
                Err(e) => r matches Err(DomainError::Validation(m)) && m@ == "路径 canonicalize 失败："@ + e@,
            },
    {
        if !exists {
            return Err(DomainError::NotFound(message("项目路径不存在：", expanded)));
        }
        if !is_dir {
            return Err(DomainError::Validation(message("项目路径不是目录：", expanded)));
        }
        match canonical {
            Ok(root) => Ok(ProjectPath { root }),
            Err(e) => Err(DomainError::Validation(message("路径 canonicalize 失败：", e.as_str()))),
        }
    }

    /// Checks that the path (with a leading `~` expanded with the user's
    /// home directory) is an existing directory and takes its canonical form
    /// as the root (see [`ProjectPath::from_lookup`]; what the disk answers is
    /// not stated).
    pub fn new(path: &str) -> (r: Result<ProjectPath, DomainError>)
        ensures
            opened_as_root(path@, r),
    {
        let expanded = expand_tilde(path);
        let exists = path_exists(expanded.as_str());
        let is_dir = exists && path_is_dir(expanded.as_str());
        let canonical = if is_dir {
            canonicalize(expanded.as_str())
        } else {
            Err(String::new())
        };
        let r = Self::from_lookup(expanded.as_str(), exists, is_dir, canonical);
        proof {
            let tail = r;
            if let Err(DomainError::Validation(m)) = tail {
                if exists && is_dir {
                    assert(m@.take("路径 canonicalize 失败："@.len() as int) =~= "路径 canonicalize 失败："@);
                }
            }
        }
        r
    }

    /// The canonical root.
    pub fn root(&self) -> (r: &str)
        ensures
            r@ == self.root_view(),
    {
        self.root.as_str()
    }

    /// The confinement decision for `rel` given the outcome of canonicalising
    /// it (see [`confined`]).
    pub fn confine(&self, rel: &str, canonical: Result<String, DomainError>) -> (r: Result<String, DomainError>)
        ensures
            confined(self.root_view(), rel@, canonical, r),
    {
        match canonical {
            Ok(c) => if path_starts_with(c.as_str(), self.root.as_str()) {
                Ok(c)
            } else {
                Err(DomainError::Denied(message("路径越权（逃逸项目根）：", rel)))
            },
            Err(e) => Err(e),
        }
    }

    /// Resolves a path against the root. A blank path is refused; an
    /// absolute path is taken as it is, a relative one under the root; the
    /// result is canonicalised (leniently, for paths that do not exist yet)
    /// and must lie under the root, or the call is denied (see [`resolved`];
    /// what the disk answers is not stated).
    pub fn resolve(&self, rel: &str) -> (r: Result<String, DomainError>)
        ensures
            resolved(self.root_view(), rel@, r),
            r matches Ok(p) ==> path_within(p@, self.root_view()),
            r matches Err(e) ==> (e is Validation || e is Denied),
    {
        if is_blank_vec(&chars_of(rel)) {
            return Err(DomainError::Validation(owned("相对路径不能为空")));
        }
        let target = if starts_with_str(&chars_of(rel), "/") {
            owned(rel)
        } else {
            path_join(self.root.as_str(), rel)
        };
        proof {
            reveal_strlit("/");
        }
        assert(target@ == resolve_target(self.root_view(), rel@));
        let canonical = canonicalize_lenient(target.as_str());
        self.confine(rel, canonical)
    }

    /// Read-only resolution: as [`ProjectPath::resolve`], except that a path
    /// denied there is still accepted when it lies under one of
    /// `extra_roots` (each canonicalised first). A leading `~` is expanded.
    pub fn resolve_readonly(&self, rel: &str, extra_roots: &[String]) -> (r: Result<String, DomainError>)
        ensures
            is_blank(rel@) ==> (r matches Err(DomainError::Validation(m)) && m@ == "相对路径不能为空"@),
            readonly_resolved(self.root_view(), rel@, extra_roots@, r),
            r matches Err(DomainError::Denied(m)) ==> m@ == "路径越权（不在项目根或只读白名单内）："@ + rel@,
            r matches Err(e) ==> (e is Validation || e is Denied),
    {
        let expanded = expand_tilde(rel);
        proof {
            if is_blank(rel@) {
                reveal_strlit("~");
                reveal_strlit("~/");
                reveal_strlit("~\\");
                if rel@.len() > 0 {
                    assert(is_ws(rel@[0]));
                }
                assert(rel@ != "~"@) by {
                    if rel@ == "~"@ {
                        assert(is_ws(rel@[0]));
                    }
                }
                assert(!has_prefix(rel@, "~/"@)) by {
                    if has_prefix(rel@, "~/"@) {
                        assert(rel@.take(2)[0] == rel@[0]);
                    }
                }
                assert(!has_prefix(rel@, "~\\"@)) by {
                    if has_prefix(rel@, "~\\"@) {
                        assert(rel@.take(2)[0] == rel@[0]);
                    }
                }
                assert(expanded@ == rel@);
            }
        }
        let first = self.resolve(expanded.as_str());
        let ghost home = choose|h: Option<Seq<char>>| expanded@ == tilde_expanded(rel@, h);
        assert(resolved(self.root_view(), tilde_expanded(rel@, home), first));
        let denied = match &first {
            Err(DomainError::Denied(_)) => true,
            _ => false,
        };
        if !denied {
            return first;
        }
        let absolute = starts_with_str(&chars_of(expanded.as_str()), "/");
        proof {
            reveal_strlit("/");
        }
        let ghost mut trace: Seq<FallbackStep> = Seq::empty();
        for i in 0..extra_roots.len()
            invariant
                !is_blank(rel@),
                first matches Err(DomainError::Denied(_)),
                resolved(self.root_view(), tilde_expanded(rel@, home), first),
                expanded@ == tilde_expanded(rel@, home),
                absolute == has_prefix(expanded@, "/"@),
                trace.len() == i,
                forall|j: int| 0 <= j < i ==> passes_on(#[trigger] trace[j]),
                forall|j: int| 0 <= j < i ==> lenient_outcome(extra_roots@[j]@, #[trigger] trace[j].0),
                forall|j: int| 0 <= j < i ==> (#[trigger] trace[j].0) is Ok ==> lenient_outcome(
                    resolve_target(trace[j].0->Ok_0@, expanded@),
                    trace[j].1,
                ),
        {
            let ce = canonicalize_lenient(extra_roots[i].as_str());
            let ghost ce_g = ce;
            let extra_canon = match ce {
                Ok(c) => c,
                Err(e) => {
                    let ghost t2 = trace.push((ce_g, ce_g));
                    proof {
                        if e is Validation {
                            let m = e->Validation_0;
                            if !has_prefix(m@, "路径 canonicalize 失败："@) {
                                assert(m@.take("非法路径："@.len() as int) =~= "非法路径："@);
                            }
                        }
                        lemma_fallback_after_passing(rel@, trace, (ce_g, ce_g), Err::<String, DomainError>(e));
                        assert(t2[i as int] == (ce_g, ce_g));
                        assert(fallback_trace(extra_roots@, tilde_expanded(rel@, home), t2));
                    }
                    assert(fallback_ok(rel@, extra_roots@, Err::<String, DomainError>(e)));
                    return Err(e);
                },
            };
            let joined_path = if absolute {
                owned(expanded.as_str())
            } else {
                path_join(extra_canon.as_str(), expanded.as_str())
            };
            assert(joined_path@ == resolve_target(extra_canon@, expanded@));
            let co = canonicalize_lenient(joined_path.as_str());
            let ghost co_g = co;
            let ghost step: FallbackStep = (Ok::<String, DomainError>(extra_canon), co_g);
            let ghost t2 = trace.push(step);
            proof {
                assert(t2[i as int] == step);
            }
            let canonical = match co {
                Ok(c) => c,
                Err(e) => {
                    proof {
                        if e is Validation {
                            let m = e->Validation_0;
                            if !has_prefix(m@, "路径 canonicalize 失败："@) {
                                assert(m@.take("非法路径："@.len() as int) =~= "非法路径："@);
                            }
                        }
                        lemma_fallback_after_passing(rel@, trace, step, Err::<String, DomainError>(e));
                        assert(fallback_trace(extra_roots@, tilde_expanded(rel@, home), t2));
                    }
                    assert(fallback_ok(rel@, extra_roots@, Err::<String, DomainError>(e)));
                    return Err(e);
                },
            };
            if path_starts_with(canonical.as_str(), extra_canon.as_str()) {
                assert(path_within(canonical@, extra_canon@));
                proof {
                    lemma_fallback_after_passing(rel@, trace, step, Ok::<String, DomainError>(canonical));
                    assert(fallback_trace(extra_roots@, tilde_expanded(rel@, home), t2));
                }
                assert(fallback_ok(rel@, extra_roots@, Ok::<String, DomainError>(canonical)));
                return Ok(canonical);
            }
            proof {
                trace = t2;
            }
        }
        let r = Err(DomainError::Denied(message("路径越权（不在项目根或只读白名单内）：", rel)));
        proof {
            lemma_fallback_after_passing(rel@, trace, trace[0], r);
            assert(fallback_trace(extra_roots@, tilde_expanded(rel@, home), trace));
        }
        r
    }

    /// A path under the root made relative to it (shown and stored that
    /// way); any other path is given back as it is.
    pub fn relativize(&self, abs: &str) -> (r: String)
        ensures
            r@ == (match stripped(abs@, self.root_view()) {
                Some(q) => q,
                None => abs@,
            }),
    {
        match path_strip_prefix(abs, self.root.as_str()) {
            Some(q) => q,
            None => owned(abs),
        }
    }
}

/// Lenient canonicalisation: a path that does not exist is resolved through
/// its nearest existing ancestor, with the missing components appended.
fn canonicalize_lenient(path: &str) -> (r: Result<String, DomainError>)
    ensures
        lenient_outcome(path@, r),
{
    if let Ok(p) = canonicalize(path) {
        return Ok(p);
    }
    let mut missing: Vec<String> = Vec::new();
    let mut cursor = owned(path);
    loop
        decreases cursor@.len(),
    {
        let name = match path_file_name(cursor.as_str()) {
            Some(n) => n,
            None => return Err(DomainError::Validation(message("非法路径：", path))),
        };
        missing.push(name);
        cursor = match path_parent(cursor.as_str()) {
            Some(p) => p,
            None => return Err(DomainError::Validation(message("非法路径：", path))),
        };
        if path_exists(cursor.as_str()) {
            let mut base = match canonicalize(cursor.as_str()) {
                Ok(b) => b,
                Err(e) => {
                    let m = message("路径 canonicalize 失败：", e.as_str());
                    assert(m@.take("路径 canonicalize 失败："@.len() as int) =~= "路径 canonicalize 失败："@);
                    return Err(DomainError::Validation(m));
                },
            };
            let mut k = missing.len();
            while k > 0
                invariant
                    k <= missing.len(),
                decreases k,
            {
                k = k - 1;
                base = path_join(base.as_str(), missing[k].as_str());
            }
            return Ok(base);
        }
    }
}

} // verus!
