//! The permission engine: built-in deny list first, then plan mode, then the
//! user's rules (first hit in ascending `sort`), then the defaults.
use vstd::prelude::*;

use crate::domain::agent::bash::{bash_is_dangerous, lemma_rm_root_or_home_dangerous, matches_dangerous_bash, slashes};
use crate::domain::agent::tool::{is_write, is_write_tool};
use crate::domain::config::perm_rule::{rule_hits, PermAction, PermissionRule};
use crate::support::glob::{glob_match, glob_matches, glob_valid};
use crate::text::{chars_of, concat_vec, eq_str, last_index_of, owned, rfind_char, slice_vec, string_of};

verus! {

/// Permission mode, chosen when a task is sent.
#[derive(Debug, Clone, Copy, PartialEq, Eq, Structural)]
pub enum PermMode {
    /// Every write is asked.
    Ask,
    /// Approved automatically unless denied.
    Auto,
    /// Planning: every write tool is refused.
    Plan,
}

/// The mode a request string names (anything unknown is `Ask`).
pub open spec fn parse_perm_mode(s: Seq<char>) -> PermMode {
    if s == "auto"@ {
        PermMode::Auto
    } else if s == "plan"@ {
        PermMode::Plan
    } else {
        PermMode::Ask
    }
}

impl PermMode {
    /// Parses a request string; unknown values fall back to `Ask`.
    pub fn parse(s: &str) -> (r: PermMode)
        ensures
            r == parse_perm_mode(s@),
    {
        let v = chars_of(s);
        if eq_str(&v, "auto") {
            PermMode::Auto
        } else if eq_str(&v, "plan") {
            PermMode::Plan
        } else {
            PermMode::Ask
        }
    }
}

/// An approval decision.
#[derive(Debug, Clone, Copy, PartialEq, Eq, Structural)]
pub enum ApprovalDecision {
    /// Allowed once.
    Once,
    /// Always allowed (a rule is derived and stored).
    Always,
    /// Rejected.
    Reject,
    /// Interrupted.
    Abort,
    /// Approved automatically (auto mode).
    Auto,
}

/// Event / storage string of a decision.
pub open spec fn approval_str(d: ApprovalDecision) -> Seq<char> {
    match d {
        ApprovalDecision::Once => "once"@,
        ApprovalDecision::Always => "always"@,
        ApprovalDecision::Reject => "reject"@,
        ApprovalDecision::Abort => "abort"@,
        ApprovalDecision::Auto => "auto"@,
    }
}

/// The decision a request string names: only the three a user can send.
pub open spec fn parse_approval(s: Seq<char>) -> Option<ApprovalDecision> {
    if s == "once"@ {
        Some(ApprovalDecision::Once)
    } else if s == "always"@ {
        Some(ApprovalDecision::Always)
    } else if s == "reject"@ {
        Some(ApprovalDecision::Reject)
    } else {
        None
    }
}

impl ApprovalDecision {
    /// Event / storage string.
    pub fn as_str(&self) -> (s: &'static str)
        ensures
            s@ == approval_str(*self),
    {
        match self {
            ApprovalDecision::Once => "once",
            ApprovalDecision::Always => "always",
            ApprovalDecision::Reject => "reject",
            ApprovalDecision::Abort => "abort",
            ApprovalDecision::Auto => "auto",
        }
    }

    /// Parses a request string (`once`, `always`, `reject`).
    pub fn parse(s: &str) -> (r: Option<ApprovalDecision>)
        ensures
            r == parse_approval(s@),
    {
        let v = chars_of(s);
        if eq_str(&v, "once") {
            Some(ApprovalDecision::Once)
        } else if eq_str(&v, "always") {
            Some(ApprovalDecision::Always)
        } else if eq_str(&v, "reject") {
            Some(ApprovalDecision::Reject)
        } else {
            None
        }
    }

    /// Whether the decision lets the call run.
    pub fn is_allowed(&self) -> (b: bool)
        ensures
            b == (*self == ApprovalDecision::Once || *self == ApprovalDecision::Always || *self
                == ApprovalDecision::Auto),
    {
        match self {
            ApprovalDecision::Once | ApprovalDecision::Always | ApprovalDecision::Auto => true,
            _ => false,
        }
    }
}

/// Parsing a string a user can send gives back the decision that wrote it.
pub proof fn lemma_approval_roundtrip(d: ApprovalDecision)
    requires
        d == ApprovalDecision::Once || d == ApprovalDecision::Always || d
            == ApprovalDecision::Reject,
    ensures
        parse_approval(approval_str(d)) == Some(d),
{
    reveal_strlit("once");
    reveal_strlit("always");
    reveal_strlit("reject");
    assert("once"@.len() == 4 && "always"@.len() == 6 && "reject"@.len() == 6);
    assert("always"@[0] != "once"@[0]);
    assert("reject"@[0] != "once"@[0] && "reject"@[0] != "always"@[0]);
}

/// The outcome of a permission decision.
#[derive(Debug, Clone)]
pub struct PermDecision {
    /// Action.
    pub action: PermAction,
    /// Why (shown to the user).
    pub reason: String,
}

/// The file name part of a target: what follows its last `/`.
pub open spec fn basename(target: Seq<char>) -> Seq<char> {
    match last_index_of(target, '/') {
        Some(i) => target.skip(i + 1),
        None => target,
    }
}

/// Whether the built-in file globs (`.env`, `.env.*`, `id_rsa`, `id_rsa.*`)
/// match the file name `b`.
pub open spec fn builtin_file_hit(b: Seq<char>) -> bool {
    ||| glob_valid(".env"@) && glob_matches(".env"@, b)
    ||| glob_valid(".env.*"@) && glob_matches(".env.*"@, b)
    ||| glob_valid("id_rsa"@) && glob_matches("id_rsa"@, b)
    ||| glob_valid("id_rsa.*"@) && glob_matches("id_rsa.*"@, b)
}

/// The built-in deny list: a sensitive file name, or (for Bash) a dangerous
/// command. Nothing overrides it.
pub open spec fn builtin_denied(tool: Seq<char>, target: Seq<char>) -> bool {
    builtin_file_hit(basename(target)) || (tool == "Bash"@ && bash_is_dangerous(target))
}

/// Index of the first rule that hits, if any.
pub open spec fn first_hit(rules: Seq<PermissionRule>, tool: Seq<char>, target: Seq<char>) -> Option<int>
    decreases rules.len(),
{
    if rules.len() == 0 {
        None
    } else if rule_hits(rules[0], tool, target) {
        Some(0)
    } else {
        match first_hit(rules.drop_first(), tool, target) {
            Some(i) => Some(i + 1),
            None => None,
        }
    }
}

/// The reason given when a user rule decides.
pub open spec fn rule_reason(rule: PermissionRule) -> Seq<char> {
    "命中用户规则 "@ + rule.tool@ + " "@ + rule.pattern@
}

/// The decision, as action and reason, in the fixed order: built-in deny,
/// plan mode on write tools, first user rule that hits, then `Ask` for write
/// tools and `Allow` for the rest.
pub open spec fn decision(
    rules: Seq<PermissionRule>,
    mode: PermMode,
    tool: Seq<char>,
    target: Seq<char>,
) -> (PermAction, Seq<char>) {
    if builtin_denied(tool, target) {
        (PermAction::Deny, "内置 deny 清单命中，不可覆盖"@)
    } else if mode == PermMode::Plan && is_write(tool) {
        (PermAction::Deny, "plan 模式禁止写操作"@)
    } else {
        match first_hit(rules, tool, target) {
            Some(i) => (rules[i].action, rule_reason(rules[i])),
            None => if is_write(tool) {
                (PermAction::Ask, "写类工具默认需要审批"@)
            } else {
                (PermAction::Allow, "只读工具默认允许"@)
            },
        }
    }
}

/// `r` inserted into `s` after every element whose `sort` is not greater
/// (one step of a stable insertion sort).
pub open spec fn insert_by_sort(s: Seq<PermissionRule>, r: PermissionRule) -> Seq<PermissionRule>
    decreases s.len(),
{
    if s.len() == 0 || s.last().sort <= r.sort {
        s.push(r)
    } else {
        insert_by_sort(s.drop_last(), r).push(s.last())
    }
}

/// `s` stably sorted by ascending `sort`.
pub open spec fn sorted_by_sort(s: Seq<PermissionRule>) -> Seq<PermissionRule>
    decreases s.len(),
{
    if s.len() == 0 {
        s
    } else {
        insert_by_sort(sorted_by_sort(s.drop_last()), s.last())
    }
}

/// Ascending `sort` order.
pub open spec fn is_sorted(s: Seq<PermissionRule>) -> bool {
    forall|i: int, j: int| 0 <= i < j < s.len() ==> #[trigger] s[i].sort <= #[trigger] s[j].sort
}

proof fn lemma_insert_at(s: Seq<PermissionRule>, r: PermissionRule, k: int)
    requires
        0 <= k <= s.len(),
        forall|j: int| k <= j < s.len() ==> #[trigger] s[j].sort > r.sort,
        k == 0 || s[k - 1].sort <= r.sort,
    ensures
        insert_by_sort(s, r) == s.take(k).push(r) + s.skip(k),
    decreases s.len() - k,
{
    if k == s.len() {
        assert(s.take(k).push(r) + s.skip(k) =~= s.push(r));
    } else {
        let t = s.drop_last();
        assert(s.last().sort > r.sort);
        lemma_insert_at(t, r, k);
        assert(t.take(k).push(r) + t.skip(k) + seq![s.last()] =~= s.take(k).push(r) + s.skip(k));
    }
}

/// Inserting into a sorted sequence keeps it sorted and adds exactly `r`.
pub proof fn lemma_insert_by_sort(s: Seq<PermissionRule>, r: PermissionRule)
    requires
        is_sorted(s),
    ensures
        is_sorted(insert_by_sort(s, r)),
        insert_by_sort(s, r).to_multiset() == s.to_multiset().insert(r),
    decreases s.len(),
{
    broadcast use vstd::seq_lib::group_to_multiset_ensures;
    if s.len() == 0 || s.last().sort <= r.sort {
        assert(is_sorted(s.push(r))) by {
            assert forall|i: int, j: int| 0 <= i < j < s.push(r).len() implies #[trigger] s.push(
                r,
            )[i].sort <= #[trigger] s.push(r)[j].sort by {
                if j == s.len() {
                    if i < s.len() - 1 {
                        assert(s[i].sort <= s[s.len() - 1].sort);
                    }
                }
            }
        }
    } else {
        let t = s.drop_last();
        assert(is_sorted(t));
        lemma_insert_by_sort(t, r);
        let u = insert_by_sort(t, r);
        assert(u.to_multiset().count(r) > 0);
        assert forall|x: PermissionRule| #[trigger] u.contains(x) implies x.sort <= s.last().sort by {
            assert(u.to_multiset().count(x) > 0);
            if x != r {
                assert(t.to_multiset().count(x) > 0);
                let i = choose|i: int| 0 <= i < t.len() && t[i] == x;
                assert(s[i] == x);
            }
        }
        assert forall|i: int, j: int| 0 <= i < j < u.push(s.last()).len() implies #[trigger] u.push(
            s.last(),
        )[i].sort <= #[trigger] u.push(s.last())[j].sort by {
            if j == u.len() {
                assert(u.contains(u[i]));
            }
        }
        assert(s =~= t.push(s.last()));
    }
}

/// A stable sort by `sort` is sorted and holds the same rules.
pub proof fn lemma_sorted_by_sort(s: Seq<PermissionRule>)
    ensures
        is_sorted(sorted_by_sort(s)),
        sorted_by_sort(s).to_multiset() == s.to_multiset(),
    decreases s.len(),
{
    broadcast use vstd::seq_lib::group_to_multiset_ensures;
    if s.len() > 0 {
        lemma_sorted_by_sort(s.drop_last());
        lemma_insert_by_sort(sorted_by_sort(s.drop_last()), s.last());
        assert(s =~= s.drop_last().push(s.last()));
    }
}

/// Inserts `r` into a vector already sorted by `sort`, after every rule whose
/// `sort` is not greater.
fn insert_rule(v: &mut Vec<PermissionRule>, r: PermissionRule)
    ensures
        final(v)@ == insert_by_sort(old(v)@, r),
{
    let mut k = v.len();
    while k > 0 && v[k - 1].sort > r.sort
        invariant
            k <= v.len(),
            forall|j: int| k <= j < v.len() ==> #[trigger] v@[j].sort > r.sort,
        decreases k,
    {
        k = k - 1;
    }
    proof {
        lemma_insert_at(v@, r, k as int);
        assert(v@.insert(k as int, r) =~= v@.take(k as int).push(r) + v@.skip(k as int));
    }
    v.insert(k, r);
}

/// The permission engine. Rules are kept in ascending `sort` (ties in the
/// order they were given or added); `decide` tries them in that order.
pub struct PermissionEngine {
    rules: Vec<PermissionRule>,
    mode: PermMode,
}

impl PermissionEngine {
    /// The rules, in the order they are tried.
    pub closed spec fn rule_list(&self) -> Seq<PermissionRule> {
        self.rules@
    }

    /// The mode.
    pub closed spec fn perm_mode(&self) -> PermMode {
        self.mode
    }

    /// The built-in sensitive file globs (matched against the file name).
    pub fn builtin_deny_file_globs() -> (r: Vec<&'static str>)
        ensures
            r@.len() == 4,
            r@[0]@ == ".env"@,
            r@[1]@ == ".env.*"@,
            r@[2]@ == "id_rsa"@,
            r@[3]@ == "id_rsa.*"@,
    {
        vec![".env", ".env.*", "id_rsa", "id_rsa.*"]
    }

    /// The classes of dangerous commands, for display (the decision itself is
    /// [`bash_is_dangerous`]).
    pub fn builtin_deny_cmd_labels() -> (r: Vec<&'static str>)
        ensures
            r@.len() == 4,
            r@[0]@ == "rm 删除根目录或通配根（/、/*）"@,
            r@[1]@ == "rm 删除用户主目录（~、~/*、$HOME）"@,
            r@[2]@ == "mkfs 磁盘格式化"@,
            r@[3]@ == "fork 炸弹"@,
    {
        vec!["rm 删除根目录或通配根（/、/*）", "rm 删除用户主目录（~、~/*、$HOME）", "mkfs 磁盘格式化", "fork 炸弹"]
    }

    /// An engine over `rules`, stably sorted by ascending `sort`.
    pub fn new(rules: Vec<PermissionRule>, mode: PermMode) -> (e: PermissionEngine)
        ensures
            e.rule_list() == sorted_by_sort(rules@),
            e.perm_mode() == mode,
    {
        let mut rest = rules;
        let ghost input = rest@;
        let total = rest.len();
        let mut sorted: Vec<PermissionRule> = Vec::new();
        let mut n: usize = 0;
        assert(input.take(0) =~= Seq::<PermissionRule>::empty());
        assert(input.skip(0) =~= input);
        while rest.len() > 0
            invariant
                n <= input.len(),
                input.len() == n + rest.len(),
                input.len() == total,
                rest@ == input.skip(n as int),
                sorted@ == sorted_by_sort(input.take(n as int)),
            decreases rest.len(),
        {
            let r = rest.remove(0);
            proof {
                assert(input.take(n + 1).drop_last() =~= input.take(n as int));
                assert(input.take(n + 1).last() == r);
                assert(rest@ =~= input.skip(n + 1));
            }
            insert_rule(&mut sorted, r);
            n = n + 1;
        }
        assert(input.take(n as int) =~= input);
        PermissionEngine { rules: sorted, mode }
    }

    /// Adds a rule (an "always allow" approval takes effect at once); it is
    /// placed after every rule whose `sort` is not greater.
    pub fn add_rule(&mut self, rule: PermissionRule)
        ensures
            final(self).rule_list() == insert_by_sort(old(self).rule_list(), rule),
            final(self).perm_mode() == old(self).perm_mode(),
    {
        insert_rule(&mut self.rules, rule);
    }

    /// Decides a call of `tool` on `target` (see [`decision`]).
    pub fn decide(&self, tool: &str, target: &str) -> (d: PermDecision)
        ensures
            (d.action, d.reason@) == decision(self.rule_list(), self.perm_mode(), tool@, target@),
    {
        if matches_builtin_deny(tool, target) {
            return PermDecision { action: PermAction::Deny, reason: owned("内置 deny 清单命中，不可覆盖") };
        }
        if self.mode == PermMode::Plan && is_write_tool(tool) {
            return PermDecision { action: PermAction::Deny, reason: owned("plan 模式禁止写操作") };
        }
        let ghost rs = self.rules@;
        for i in 0..self.rules.len()
            invariant
                rs == self.rules@,
                !builtin_denied(tool@, target@),
                !(self.mode == PermMode::Plan && is_write(tool@)),
                forall|j: int| 0 <= j < i ==> !rule_hits(#[trigger] rs[j], tool@, target@),
        {
            let rule = &self.rules[i];
            if rule.matches(tool, target) {
                proof {
                    lemma_first_hit(rs, tool@, target@, i as int);
                }
                let mut m = chars_of("命中用户规则 ");
                crate::text::extend_str(&mut m, rule.tool.as_str());
                crate::text::extend_str(&mut m, " ");
                crate::text::extend_str(&mut m, rule.pattern.as_str());
                assert(*rule == rs[i as int]);
                assert(m@ =~= rule_reason(rs[i as int]));
                return PermDecision { action: rule.action, reason: string_of(&m) };
            }
        }
        proof {
            lemma_no_hit(rs, tool@, target@);
        }
        if is_write_tool(tool) {
            PermDecision { action: PermAction::Ask, reason: owned("写类工具默认需要审批") }
        } else {
            PermDecision { action: PermAction::Allow, reason: owned("只读工具默认允许") }
        }
    }
}

proof fn lemma_first_hit(rules: Seq<PermissionRule>, tool: Seq<char>, target: Seq<char>, i: int)
    requires
        0 <= i < rules.len(),
        rule_hits(rules[i], tool, target),
        forall|j: int| 0 <= j < i ==> !rule_hits(#[trigger] rules[j], tool, target),
    ensures
        first_hit(rules, tool, target) == Some(i),
    decreases i,
{
    if i > 0 {
        let t = rules.drop_first();
        assert forall|j: int| 0 <= j < i - 1 implies !rule_hits(#[trigger] t[j], tool, target) by {
            assert(t[j] == rules[j + 1]);
        }
        lemma_first_hit(t, tool, target, i - 1);
    }
}

proof fn lemma_no_hit(rules: Seq<PermissionRule>, tool: Seq<char>, target: Seq<char>)
    requires
        forall|j: int| 0 <= j < rules.len() ==> !rule_hits(#[trigger] rules[j], tool, target),
    ensures
        first_hit(rules, tool, target) is None,
    decreases rules.len(),
{
    if rules.len() > 0 {
        let t = rules.drop_first();
        assert forall|j: int| 0 <= j < t.len() implies !rule_hits(#[trigger] t[j], tool, target) by {
            assert(t[j] == rules[j + 1]);
        }
        lemma_no_hit(t, tool, target);
    }
}

/// Whether a call is on the built-in deny list (see [`builtin_denied`]).
fn matches_builtin_deny(tool: &str, target: &str) -> (r: bool)
    ensures
        r == builtin_denied(tool@, target@),
{
    let t = chars_of(target);
    let base = match rfind_char(&t, '/') {
        Some(i) => slice_vec(&t, i + 1, t.len()),
        None => t,
    };
    let b = string_of(&base);
    let file_hit = file_glob_hit(".env", b.as_str()) || file_glob_hit(".env.*", b.as_str())
        || file_glob_hit("id_rsa", b.as_str()) || file_glob_hit("id_rsa.*", b.as_str());
    if file_hit {
        return true;
    }
    if crate::text::str_eq(tool, "Bash") {
        return matches_dangerous_bash(target);
    }
    false
}

fn file_glob_hit(pattern: &str, name: &str) -> (r: bool)
    ensures
        r == (glob_valid(pattern@) && glob_matches(pattern@, name@)),
{
    match glob_match(pattern, name) {
        Some(b) => b,
        None => false,
    }
}

/// The built-in deny list wins over every rule and every mode.
pub proof fn lemma_builtin_deny_first(
    rules: Seq<PermissionRule>,
    mode: PermMode,
    tool: Seq<char>,
    target: Seq<char>,
)
    requires
        builtin_denied(tool, target),
    ensures
        decision(rules, mode, tool, target).0 == PermAction::Deny,
{
}

/// Whatever the rules and the mode, a Bash call of `rm -rf` on the root
/// directory, on the home directory (`~`, `$HOME`, `${HOME}`) or on a bare
/// wildcard in one of them, trailing slashes ignored, is denied by the
/// built-in deny list, with its reason.
pub proof fn lemma_rm_root_or_home_denied(
    rules: Seq<PermissionRule>,
    mode: PermMode,
    t: Seq<char>,
    n: nat,
)
    requires
        t == "/"@ || t == "/*"@ || t == "~"@ || t == "~/*"@ || t == "$HOME"@ || t == "$HOME/*"@
            || t == "${HOME}"@ || t == "${HOME}/*"@,
    ensures
        decision(rules, mode, "Bash"@, "rm -rf "@ + t + slashes(n)) == (
        PermAction::Deny,
        "内置 deny 清单命中，不可覆盖"@,
        ),
{
    lemma_rm_root_or_home_dangerous(t, n);
}

/// Plan mode refuses every write tool, whatever the rules say.
pub proof fn lemma_plan_refuses_writes(
    rules: Seq<PermissionRule>,
    tool: Seq<char>,
    target: Seq<char>,
)
    requires
        is_write(tool),
    ensures
        decision(rules, PermMode::Plan, tool, target).0 == PermAction::Deny,
{
}

/// Without a rule that hits and outside the deny list and plan mode, write
/// tools are asked and the others allowed.
pub proof fn lemma_defaults(
    rules: Seq<PermissionRule>,
    mode: PermMode,
    tool: Seq<char>,
    target: Seq<char>,
)
    requires
        !builtin_denied(tool, target),
        !(mode == PermMode::Plan && is_write(tool)),
        forall|j: int| 0 <= j < rules.len() ==> !rule_hits(#[trigger] rules[j], tool, target),
    ensures
        decision(rules, mode, tool, target).0 == (if is_write(tool) {
            PermAction::Ask
        } else {
            PermAction::Allow
        }),
{
    lemma_no_hit(rules, tool, target);
}

/// The engine's rules stay sorted by `sort` and hold exactly the rules given
/// and added: after `new(rules)` followed by adding `extra`, in order.
pub proof fn lemma_rules_sorted(rules: Seq<PermissionRule>, extra: Seq<PermissionRule>)
    ensures
        is_sorted(added(sorted_by_sort(rules), extra)),
        added(sorted_by_sort(rules), extra).to_multiset() == (rules + extra).to_multiset(),
    decreases extra.len(),
{
    broadcast use vstd::seq_lib::group_to_multiset_ensures;
    if extra.len() == 0 {
        lemma_sorted_by_sort(rules);
        assert(rules + extra =~= rules);
    } else {
        let e = extra.drop_last();
        lemma_rules_sorted(rules, e);
        lemma_insert_by_sort(added(sorted_by_sort(rules), e), extra.last());
        assert(rules + extra =~= (rules + e).push(extra.last()));
    }
}

/// `base` after adding each rule of `extra` in order.
pub open spec fn added(base: Seq<PermissionRule>, extra: Seq<PermissionRule>) -> Seq<PermissionRule>
    decreases extra.len(),
{
    if extra.len() == 0 {
        base
    } else {
        insert_by_sort(added(base, extra.drop_last()), extra.last())
    }
}

} // verus!
