//! Skills: a Markdown prompt template per file, the file name being the id.
use vstd::prelude::*;

use crate::domain::DomainError;
use crate::text::{
    chars_of, concat_vec, contains_str, eq_str, extend_str, extend_vec, has_infix, has_prefix,
    has_suffix, is_ascii_digit, is_ascii_lower, is_blank, is_blank_vec, is_digit, is_lower, occurs_at,
    occurs_at_exec, owned, string_of,
};

verus! {

/// Where a skill comes from.
#[derive(Debug, Clone, PartialEq, Eq)]
pub enum SkillSource {
    /// Global (`~/.cyan/skills/`).
    Global,
    /// The project's own (`<root>/.cyan/skills/`); wins over the others.
    Project,
    /// Carried by the named plugin; wins over global skills.
    Plugin(String),
}

/// The scope a request string names (only the writable ones).
pub open spec fn parse_source(s: Seq<char>) -> Option<SkillSource> {
    if s == "global"@ {
        Some(SkillSource::Global)
    } else if s == "project"@ {
        Some(SkillSource::Project)
    } else {
        None
    }
}

/// Output string of a scope.
pub open spec fn source_str(s: SkillSource) -> Seq<char> {
    match s {
        SkillSource::Global => "global"@,
        SkillSource::Project => "project"@,
        SkillSource::Plugin(_) => "plugin"@,
    }
}

impl SkillSource {
    /// Output string.
    pub fn as_str(&self) -> (r: &'static str)
        ensures
            r@ == source_str(*self),
    {
        match self {
            SkillSource::Global => "global",
            SkillSource::Project => "project",
            SkillSource::Plugin(_) => "plugin",
        }
    }

    /// The plugin a plugin skill comes from.
    pub fn plugin_name(&self) -> (r: Option<String>)
        ensures
            match *self {
                SkillSource::Plugin(n) => r == Some(n),
                _ => r is None,
            },
    {
        match self {
            SkillSource::Plugin(name) => Some(name.clone()),
            _ => None,
        }
    }

    /// Parses a request string (`global` or `project`); anything else is a
    /// validation error naming it.
    pub fn parse(s: &str) -> (r: Result<SkillSource, DomainError>)
        ensures
            match parse_source(s@) {
                Some(src) => r == Ok::<SkillSource, DomainError>(src),
                None => r matches Err(DomainError::Validation(m)) && m@ == "非法技能作用域："@ + s@,
            },
    {
        let v = chars_of(s);
        if eq_str(&v, "global") {
            Ok(SkillSource::Global)
        } else if eq_str(&v, "project") {
            Ok(SkillSource::Project)
        } else {
            Err(DomainError::Validation(string_of(&concat_vec(&chars_of("非法技能作用域："), &v))))
        }
    }
}

/// Parsing the string of a writable scope gives the scope back.
pub proof fn lemma_source_roundtrip(s: SkillSource)
    requires
        s == SkillSource::Global || s == SkillSource::Project,
    ensures
        parse_source(source_str(s)) == Some(s),
{
    reveal_strlit("global");
    reveal_strlit("project");
    assert("global"@.len() != "project"@.len());
}

/// A skill.
#[derive(Debug, Clone, PartialEq, Eq)]
pub struct Skill {
    /// Id: the file name, in kebab-case, without extension.
    pub id: String,
    /// Name (front matter `name`, else the id).
    pub name: String,
    /// Description (front matter `description`).
    pub description: String,
    /// Whether it is enabled (front matter `enabled`, else true).
    pub enabled: bool,
    /// Scope.
    pub source: SkillSource,
    /// Market repository it came from (`owner/repo`).
    pub market_repo: Option<String>,
    /// Prompt template (with `$ARGUMENTS` placeholders).
    pub content: String,
}

/// Whether `id` is kebab-case: lower-case letters, digits and single
/// hyphens, not at either end.
pub open spec fn kebab_id(id: Seq<char>) -> bool {
    &&& forall|i: int| 0 <= i < id.len() ==> (is_lower(#[trigger] id[i]) || is_digit(id[i]) || id[i] == '-')
    &&& !has_prefix(id, "-"@)
    &&& !has_suffix(id, "-"@)
    &&& !has_infix(id, "--"@)
}

/// Why a skill id is refused, if it is.
pub open spec fn skill_id_invalid(id: Seq<char>) -> Option<Seq<char>> {
    if id.len() == 0 {
        Some("技能文件名不能为空"@)
    } else if !kebab_id(id) {
        Some("技能文件名须为 kebab-case（小写字母/数字/连字符）："@ + id)
    } else {
        None
    }
}

/// `s` with every `p` replaced by `r`, left to right.
pub open spec fn replaced(s: Seq<char>, p: Seq<char>, r: Seq<char>) -> Seq<char>
    decreases s.len(),
{
    if p.len() == 0 || s.len() < p.len() {
        s
    } else if s.take(p.len() as int) == p {
        r + replaced(s.skip(p.len() as int), p, r)
    } else {
        seq![s[0]] + replaced(s.drop_first(), p, r)
    }
}

/// The text a skill expands to for `args`: every `$ARGUMENTS` replaced by
/// them; without a placeholder, the arguments after a blank line (or the
/// content alone when they are blank).
pub open spec fn expanded(content: Seq<char>, args: Seq<char>) -> Seq<char> {
    if has_infix(content, "$ARGUMENTS"@) {
        replaced(content, "$ARGUMENTS"@, args)
    } else if is_blank(args) {
        content
    } else {
        content + "\n\n"@ + args
    }
}

fn replace_all(s: &Vec<char>, p: &Vec<char>, r: &Vec<char>) -> (out: Vec<char>)
    requires
        p.len() > 0,
    ensures
        out@ == replaced(s@, p@, r@),
{
    let mut out: Vec<char> = Vec::new();
    let mut i: usize = 0;
    assert(s@.skip(0) =~= s@);
    while i < s.len()
        invariant
            i <= s.len(),
            p.len() > 0,
            out@ + replaced(s@.skip(i as int), p@, r@) == replaced(s@, p@, r@),
        decreases s.len() - i,
    {
        let ghost rest = s@.skip(i as int);
        if occurs_at_exec(s, p, i) {
            proof {
                assert(rest.take(p@.len() as int) =~= s@.subrange(i as int, i + p@.len()));
                assert(rest.skip(p@.len() as int) =~= s@.skip(i + p@.len()));
                assert(out@ + r@ + replaced(s@.skip(i + p@.len()), p@, r@) =~= out@ + (r@ + replaced(rest.skip(p@.len() as int), p@, r@)));
            }
            extend_vec(&mut out, r);
            i = i + p.len();
        } else {
            proof {
                if rest.len() >= p@.len() {
                    assert(rest.take(p@.len() as int) =~= s@.subrange(i as int, i + p@.len()));
                    assert(rest.take(p@.len() as int) != p@);
                    assert(rest.drop_first() =~= s@.skip(i + 1));
                    assert(out@.push(s@[i as int]) + replaced(s@.skip(i + 1), p@, r@) =~= out@ + (seq![rest[0]] + replaced(rest.drop_first(), p@, r@)));
                    assert(rest[0] == s@[i as int]);
                } else {
                    assert(replaced(rest, p@, r@) == rest);
                    let j = s.len() - i;
                    assert(rest.drop_first() =~= s@.skip(i + 1));
                    assert(s@.skip(i + 1).len() < p@.len());
                    assert(replaced(s@.skip(i + 1), p@, r@) == s@.skip(i + 1));
                    assert(out@.push(s@[i as int]) + s@.skip(i + 1) =~= out@ + rest);
                }
            }
            out.push(s[i]);
            i = i + 1;
        }
    }
    assert(s@.skip(i as int) =~= Seq::<char>::empty());
    assert(out@ + Seq::<char>::empty() =~= out@);
    out
}

impl Skill {
    /// Validates a skill id (see [`skill_id_invalid`]).
    pub fn validate_id(id: &str) -> (r: Result<(), DomainError>)
        ensures
            match skill_id_invalid(id@) {
                None => r is Ok,
                Some(m) => r matches Err(DomainError::Validation(e)) && e@ == m,
            },
    {
        let v = chars_of(id);
        if v.len() == 0 {
            return Err(DomainError::Validation(owned("技能文件名不能为空")));
        }
        let mut kebab = true;
        for i in 0..v.len()
            invariant
                kebab == (forall|k: int| 0 <= k < i ==> (is_lower(#[trigger] v@[k]) || is_digit(v@[k]) || v@[k] == '-')),
        {
            let c = v[i];
            if !(is_ascii_lower(c) || is_ascii_digit(c) || c == '-') {
                kebab = false;
            }
        }
        let well_formed = !crate::text::starts_with_str(&v, "-") && !crate::text::ends_with_str(&v, "-")
            && !contains_str(&v, "--");
        if !kebab || !well_formed {
            let m = concat_vec(&chars_of("技能文件名须为 kebab-case（小写字母/数字/连字符）："), &v);
            return Err(DomainError::Validation(string_of(&m)));
        }
        Ok(())
    }

    /// Validation: a valid id and a name that is not blank.
    pub fn validate(&self) -> (r: Result<(), DomainError>)
        ensures
            match skill_id_invalid(self.id@) {
                Some(m) => r matches Err(DomainError::Validation(e)) && e@ == m,
                None => if is_blank(self.name@) {
                    r matches Err(DomainError::Validation(e)) && e@ == "技能名称不能为空"@
                } else {
                    r is Ok
                },
            },
    {
        Skill::validate_id(self.id.as_str())?;
        if is_blank_vec(&chars_of(self.name.as_str())) {
            return Err(DomainError::Validation(owned("技能名称不能为空")));
        }
        Ok(())
    }

    /// Expands the template for `args` (see [`expanded`]).
    pub fn expand(&self, args: &str) -> (r: String)
        ensures
            r@ == expanded(self.content@, args@),
    {
        let c = chars_of(self.content.as_str());
        let a = chars_of(args);
        if contains_str(&c, "$ARGUMENTS") {
            let p = chars_of("$ARGUMENTS");
            proof {
                reveal_strlit("$ARGUMENTS");
            }
            string_of(&replace_all(&c, &p, &a))
        } else if is_blank_vec(&a) {
            owned(self.content.as_str())
        } else {
            let mut v = c;
            extend_str(&mut v, "\n\n");
            extend_vec(&mut v, &a);
            string_of(&v)
        }
    }
}

} // verus!
