//! User permission rules: a tool name and a glob pattern over the tool's
//! target map to an action.
use vstd::prelude::*;
use chrono::NaiveDateTime;

use crate::domain::DomainError;
use crate::support::clock::local_now;
use crate::support::glob::{glob_check, glob_match, glob_matches, glob_valid};
use crate::text::{
    chars_of, concat_vec, extend_str, is_blank, is_blank_vec, is_whitespace, is_ws, last_index_of,
    owned, rfind_char, slice_vec, string_of, trim_start,
};

verus! {

/// Permission action.
#[derive(Debug, Clone, Copy, PartialEq, Eq, Structural)]
pub enum PermAction {
    /// Allowed directly.
    Allow,
    /// Needs approval.
    Ask,
    /// Refused.
    Deny,
}

/// Storage string of an action.
pub open spec fn perm_action_str(a: PermAction) -> Seq<char> {
    match a {
        PermAction::Allow => "allow"@,
        PermAction::Ask => "ask"@,
        PermAction::Deny => "deny"@,
    }
}

impl PermAction {
    /// Storage string.
    pub fn as_str(&self) -> (s: &'static str)
        ensures
            s@ == perm_action_str(*self),
    {
        match self {
            PermAction::Allow => "allow",
            PermAction::Ask => "ask",
            PermAction::Deny => "deny",
        }
    }

    /// Parses a storage string; `None` for anything else.
    pub fn parse(s: &str) -> (r: Option<PermAction>)
        ensures
            r == parse_perm_action(s@),
    {
        let v = chars_of(s);
        if crate::text::eq_str(&v, "allow") {
            Some(PermAction::Allow)
        } else if crate::text::eq_str(&v, "ask") {
            Some(PermAction::Ask)
        } else if crate::text::eq_str(&v, "deny") {
            Some(PermAction::Deny)
        } else {
            None
        }
    }
}

/// The action a storage string names.
pub open spec fn parse_perm_action(s: Seq<char>) -> Option<PermAction> {
    if s == "allow"@ {
        Some(PermAction::Allow)
    } else if s == "ask"@ {
        Some(PermAction::Ask)
    } else if s == "deny"@ {
        Some(PermAction::Deny)
    } else {
        None
    }
}

/// Parsing gives back the action whose string was written.
pub proof fn lemma_perm_action_roundtrip(a: PermAction)
    ensures
        parse_perm_action(perm_action_str(a)) == Some(a),
{
    reveal_strlit("allow");
    reveal_strlit("ask");
    reveal_strlit("deny");
    assert("allow"@.len() == 5 && "ask"@.len() == 3 && "deny"@.len() == 4);
}

/// A user permission rule (rules are tried in ascending `sort`, first hit wins).
#[derive(Debug, Clone)]
pub struct PermissionRule {
    /// Primary key (filled after insert).
    pub id: i64,
    /// Project scope (`None` for a global rule).
    pub project_id: Option<i64>,
    /// Session scope (`None` unless the rule belongs to one session).
    pub session_id: Option<i64>,
    /// Tool name (`*` for every tool).
    pub tool: String,
    /// Glob over the tool's target (a file path or a Bash command line).
    pub pattern: String,
    /// Action.
    pub action: PermAction,
    /// Matching order (ascending).
    pub sort: i64,
    /// Plugin the rule came from (`None` when the user wrote it).
    pub plugin_origin: Option<String>,
    /// Creation time.
    pub created_at: NaiveDateTime,
    /// Last update time.
    pub updated_at: NaiveDateTime,
    /// Soft-delete time.
    pub deleted_at: Option<NaiveDateTime>,
}

/// Whether `rule` applies to a call of `tool` on `target`: the tool is named
/// exactly (or the rule names `*`) and the pattern is a valid glob matching
/// the target.
pub open spec fn rule_hits(rule: PermissionRule, tool: Seq<char>, target: Seq<char>) -> bool {
    &&& (rule.tool@ == "*"@ || rule.tool@ == tool)
    &&& glob_valid(rule.pattern@)
    &&& glob_matches(rule.pattern@, target)
}

/// The first word of `s` (white-space separated), if it has one.
pub open spec fn first_word(s: Seq<char>) -> Option<Seq<char>> {
    let t = trim_start(s);
    if t.len() == 0 {
        None
    } else {
        Some(t.take(word_end(t)))
    }
}

/// Length of the leading run of non-white-space characters of `t`.
pub open spec fn word_end(t: Seq<char>) -> int
    decreases t.len(),
{
    if t.len() == 0 || is_ws(t[0]) {
        0
    } else {
        1 + word_end(t.drop_first())
    }
}

/// Pattern that an "always allow" approval derives: for Bash the command's
/// first word followed by ` *`; for file tools the target's directory
/// followed by `/**`, or the target itself when it has no directory part.
pub open spec fn always_allow_pattern(tool: Seq<char>, target: Seq<char>) -> Seq<char> {
    if tool == "Bash"@ {
        match first_word(target) {
            Some(w) => w + " *"@,
            None => target + " *"@,
        }
    } else {
        match last_index_of(target, '/') {
            Some(i) if i > 0 => target.take(i) + "/**"@,
            _ => target,
        }
    }
}

proof fn lemma_word_end(t: Seq<char>, k: int)
    requires
        0 <= k <= t.len(),
        forall|m: int| 0 <= m < k ==> !is_ws(#[trigger] t[m]),
        k == t.len() || is_ws(t[k]),
    ensures
        word_end(t) == k,
    decreases k,
{
    if k > 0 {
        let u = t.drop_first();
        assert forall|m: int| 0 <= m < k - 1 implies !is_ws(#[trigger] u[m]) by {
            assert(u[m] == t[m + 1]);
        }
        lemma_word_end(u, k - 1);
    }
}

/// First word of a character vector.
fn first_word_exec(s: &Vec<char>) -> (r: Option<Vec<char>>)
    ensures
        match r {
            Some(w) => first_word(s@) == Some(w@),
            None => first_word(s@) is None,
        },
{
    let mut i: usize = 0;
    while i < s.len() && is_whitespace(s[i])
        invariant
            i <= s.len(),
            forall|k: int| 0 <= k < i ==> is_ws(#[trigger] s@[k]),
        decreases s.len() - i,
    {
        i = i + 1;
    }
    proof {
        crate::text::lemma_trim_start_at(s@, i as int);
    }
    if i == s.len() {
        return None;
    }
    let mut j = i;
    while j < s.len() && !is_whitespace(s[j])
        invariant
            i <= j <= s.len(),
            forall|k: int| i <= k < j ==> !is_ws(#[trigger] s@[k]),
        decreases s.len() - j,
    {
        j = j + 1;
    }
    proof {
        let t = s@.subrange(i as int, s.len() as int);
        assert forall|m: int| 0 <= m < j - i implies !is_ws(#[trigger] t[m]) by {
            assert(t[m] == s@[m + i]);
        }
        if j < s.len() {
            assert(t[j - i] == s@[j as int]);
        }
        lemma_word_end(t, j - i);
        assert(t.take(j - i) =~= s@.subrange(i as int, j as int));
    }
    Some(slice_vec(s, i, j))
}

/// Computes [`always_allow_pattern`].
pub fn derive_always_allow_pattern(tool: &str, target: &str) -> (r: String)
    ensures
        r@ == always_allow_pattern(tool@, target@),
{
    let t = chars_of(target);
    if crate::text::str_eq(tool, "Bash") {
        let mut w = match first_word_exec(&t) {
            Some(w) => w,
            None => t,
        };
        extend_str(&mut w, " *");
        string_of(&w)
    } else {
        match rfind_char(&t, '/') {
            Some(i) => {
                if i > 0 {
                    let mut d = slice_vec(&t, 0, i);
                    proof {
                        assert(d@ =~= t@.take(i as int));
                    }
                    extend_str(&mut d, "/**");
                    string_of(&d)
                } else {
                    owned(target)
                }
            },
            None => owned(target),
        }
    }
}

impl PermissionRule {
    /// Validation: tool name and pattern are not blank, and the pattern is a
    /// glob that `globset` accepts.
    pub fn validate(&self) -> (r: Result<(), DomainError>)
        ensures
            r is Ok == (!is_blank(self.tool@) && !is_blank(self.pattern@) && glob_valid(
                self.pattern@,
            )),
            is_blank(self.tool@) ==> (r matches Err(DomainError::Validation(m)) && m@
                == "规则工具名不能为空"@),
            !is_blank(self.tool@) && is_blank(self.pattern@) ==> (r matches Err(
                DomainError::Validation(m),
            ) && m@ == "规则 pattern 不能为空"@),
            !is_blank(self.tool@) && !is_blank(self.pattern@) && !glob_valid(self.pattern@)
                ==> (r matches Err(DomainError::Validation(m)) && crate::text::has_prefix(
                m@,
                "非法 glob pattern："@,
            )),
    {
        let tool = chars_of(self.tool.as_str());
        if is_blank_vec(&tool) {
            return Err(DomainError::Validation(owned("规则工具名不能为空")));
        }
        let pattern = chars_of(self.pattern.as_str());
        if is_blank_vec(&pattern) {
            return Err(DomainError::Validation(owned("规则 pattern 不能为空")));
        }
        match glob_check(self.pattern.as_str()) {
            Ok(()) => Ok(()),
            Err(e) => {
                let p = chars_of("非法 glob pattern：");
                let d = chars_of(e.as_str());
                let m = concat_vec(&p, &d);
                proof {
                    assert(m@.take(p@.len() as int) =~= p@);
                }
                Err(DomainError::Validation(string_of(&m)))
            },
        }
    }

    /// Whether the rule applies to `tool` acting on `target`.
    pub fn matches(&self, tool: &str, target: &str) -> (r: bool)
        ensures
            r == rule_hits(*self, tool@, target@),
    {
        let own = chars_of(self.tool.as_str());
        let tool_ok = crate::text::eq_str(&own, "*") || crate::text::str_eq(
            self.tool.as_str(),
            tool,
        );
        if !tool_ok {
            return false;
        }
        match glob_match(self.pattern.as_str(), target) {
            Some(b) => b,
            None => false,
        }
    }

    /// The rule an "always allow" approval of `tool` on `target` derives: an
    /// `allow` rule with the derived pattern, sort 0, global scope, stamped
    /// with the current time.
    pub fn always_allow_from(tool: &str, target: &str) -> (r: PermissionRule)
        ensures
            r.tool@ == tool@,
            r.pattern@ == always_allow_pattern(tool@, target@),
            r.action == PermAction::Allow,
            r.sort == 0,
            r.id == 0,
            r.project_id is None,
            r.session_id is None,
            r.plugin_origin is None,
            r.deleted_at is None,
            r.created_at == r.updated_at,
    {
        let pattern = derive_always_allow_pattern(tool, target);
        let now = local_now();
        PermissionRule {
            id: 0,
            project_id: None,
            session_id: None,
            tool: owned(tool),
            pattern,
            action: PermAction::Allow,
            sort: 0,
            plugin_origin: None,
            created_at: now,
            updated_at: now,
            deleted_at: None,
        }
    }
}

} // verus!
