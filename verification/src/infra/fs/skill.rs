//! Skill files: a front matter of `key: value` lines between `---` lines
//! (name, description, enabled, market), then the prompt template.
use vstd::prelude::*;

use crate::domain::skill::skill::{skill_id_invalid, Skill, SkillSource};
use crate::domain::shared::ProjectPath;
use crate::domain::shared::project_path::resolved;
use crate::domain::DomainError;
use crate::infra::db::datasource::cyan_home;
use crate::infra::fs::lemma_lex_all;
use crate::infra::mcp::{byte_len, utf8_len};
use crate::support::path::{
    joined, path_join,
    extension_of, path_extension, file_name_of, file_stem_of, parent_of, path_before, path_file_name, path_file_stem, path_lt,
    path_parent,
};
use crate::text::{
    lex_lt, chars_of, eq_str, extend_str, first_index_of, has_prefix, is_blank, is_blank_vec, lower_seq,
    owned, slice_vec, string_of, to_ascii_lower, trim, trim_vec, find_char_from,
};

verus! {

/// The global skills directory, `skills` in the data directory.
pub fn global_skills_dir() -> (r: Result<String, String>)
    ensures
        r matches Ok(p) ==> exists|h: Seq<char>| p@ == joined(joined(h, ".cyan"@), "skills"@),
        r matches Err(m) ==> m@ == "无法定位用户主目录"@,
{
    let home = cyan_home()?;
    let d = path_join(home.as_str(), "skills");
    proof {
        let h = choose|h: Seq<char>| home@ == joined(h, ".cyan"@);
        assert(d@ == joined(joined(h, ".cyan"@), "skills"@));
    }
    Ok(d)
}

/// A project's skills directory, `.cyan/skills` resolved inside the
/// project (see [`ProjectPath::resolve`]).
pub fn project_skills_dir(root: &ProjectPath) -> (r: Result<String, DomainError>)
    ensures
        resolved(root.root_view(), ".cyan/skills"@, r),
        r matches Ok(p) ==> crate::support::path::path_within(p@, root.root_view()),
        r matches Err(e) ==> (e is Validation || e is Denied),
{
    root.resolve(".cyan/skills")
}

/// The skills directory of a scope: the global one, the project's (which
/// needs a project), never a plugin's (the plugin service keeps those).
pub fn skills_dir(source: &SkillSource, root: Option<&ProjectPath>) -> (r: Result<String, DomainError>)
    ensures
        source is Global ==> match r {
            Ok(p) => exists|h: Seq<char>| p@ == joined(joined(h, ".cyan"@), "skills"@),
            Err(e) => e matches DomainError::Validation(m) && m@ == "定位全局技能目录失败："@ + "无法定位用户主目录"@,
        },
        source is Project && root is None ==> (r matches Err(DomainError::Validation(m))
            && m@ == "项目级技能需要 projectPath"@),
        source is Project && root is Some ==> resolved(root.unwrap().root_view(), ".cyan/skills"@, r),
        source is Project && root is Some ==> (r matches Ok(p) ==> crate::support::path::path_within(p@, root.unwrap().root_view())),
        source matches SkillSource::Plugin(name) ==> (r matches Err(DomainError::Validation(m))
            && m@ == "插件技能目录由插件服务管理："@ + name@),
{
    match source {
        SkillSource::Global => match global_skills_dir() {
            Ok(d) => Ok(d),
            Err(e) => {
                let mut m = chars_of("定位全局技能目录失败：");
                extend_str(&mut m, e.as_str());
                Err(DomainError::Validation(string_of(&m)))
            },
        },
        SkillSource::Project => match root {
            Some(r) => project_skills_dir(r),
            None => Err(DomainError::Validation(owned("项目级技能需要 projectPath"))),
        },
        SkillSource::Plugin(name) => {
            let mut m = chars_of("插件技能目录由插件服务管理：");
            extend_str(&mut m, name.as_str());
            Err(DomainError::Validation(string_of(&m)))
        },
    }
}

/// A line without the carriage return before its line feed.
pub open spec fn strip_cr(l: Seq<char>) -> Seq<char> {
    if l.len() > 0 && l.last() == '\r' {
        l.drop_last()
    } else {
        l
    }
}

/// The lines of a text, as `str::lines` gives them: split at line feeds
/// (a carriage return before one is dropped), the last line feed optional.
pub open spec fn lines_of(t: Seq<char>) -> Seq<Seq<char>>
    decreases t.len(),
{
    match first_index_of(t, '\n') {
        None => if t.len() == 0 {
            Seq::empty()
        } else {
            seq![t]
        },
        Some(p) => if 0 <= p < t.len() {
            seq![strip_cr(t.take(p))] + lines_of(t.skip(p + 1))
        } else {
            Seq::empty()
        },
    }
}

/// Front matter being read: the fields so far, the byte offset of the
/// current line (counted as the line's bytes plus one), and where the body
/// starts (0 until the closing `---`).
pub struct Front {
    pub name: Seq<char>,
    pub description: Seq<char>,
    pub enabled: bool,
    pub market: Option<Seq<char>>,
    pub offset: int,
    pub body_start: int,
}

/// One front matter line (not `---`): `key: value` sets a known key (the
/// value trimmed; `enabled` is false only for `false`; an empty `market`
/// clears it); other lines are skipped.
pub open spec fn front_line(st: Front, line: Seq<char>) -> Front {
    let next = st.offset + byte_len(line) + 1;
    match first_index_of(line, ':') {
        None => Front { offset: next, ..st },
        Some(i) => {
            let key = trim(line.take(i));
            let value = trim(line.skip(i + 1));
            if key == "name"@ {
                Front { name: value, offset: next, ..st }
            } else if key == "description"@ {
                Front { description: value, offset: next, ..st }
            } else if key == "enabled"@ {
                Front { enabled: value != "false"@, offset: next, ..st }
            } else if key == "market"@ {
                Front { market: if value.len() > 0 { Some(value) } else { None }, offset: next, ..st }
            } else {
                Front { offset: next, ..st }
            }
        },
    }
}

/// The front matter lines up to the closing `---` (which sets the body
/// start).
pub open spec fn front_scan(st: Front, lines: Seq<Seq<char>>) -> Front
    decreases lines.len(),
{
    if lines.len() == 0 {
        st
    } else if trim(lines[0]) == "---"@ {
        Front { body_start: st.offset + byte_len(lines[0]) + 1, ..st }
    } else {
        front_scan(front_line(st, lines[0]), lines.drop_first())
    }
}

/// The text from byte `b` on, if `b` is a character boundary within it.
pub open spec fn from_byte(t: Seq<char>, b: int) -> Option<Seq<char>> {
    if exists|k: int| 0 <= k <= t.len() && byte_len(t.take(k)) == b {
        Some(t.skip(choose|k: int| 0 <= k <= t.len() && byte_len(t.take(k)) == b))
    } else {
        None
    }
}

/// The front matter a text gives for `id`: read only when the first line
/// (trimmed) is `---`, counting the first line as four bytes.
pub open spec fn front_of(id: Seq<char>, text: Seq<char>) -> Front {
    let init = Front { name: id, description: Seq::empty(), enabled: true, market: None, offset: 4, body_start: 0 };
    let ls = lines_of(text);
    if ls.len() > 0 && trim(ls[0]) == "---"@ {
        front_scan(init, ls.drop_first())
    } else {
        init
    }
}

/// The template a text gives: after the front matter, trimmed (empty when
/// the body start is not a character boundary); the whole text when there is
/// no closed front matter.
pub open spec fn body_of(id: Seq<char>, text: Seq<char>) -> Seq<char> {
    let f = front_of(id, text);
    if f.body_start > 0 {
        match from_byte(text, f.body_start) {
            Some(s) => trim(s),
            None => Seq::empty(),
        }
    } else {
        text
    }
}

/// Whether `s` has the id, name, description, enabled flag, scope and
/// template a file with id `id` and text `text` gives.
pub open spec fn parsed_fields(s: Skill, id: Seq<char>, text: Seq<char>, source: SkillSource) -> bool {
    let f = front_of(id, text);
    &&& s.id@ == id
    &&& s.name@ == f.name
    &&& s.description@ == f.description
    &&& s.enabled == f.enabled
    &&& s.source == source
    &&& s.content@ == body_of(id, text)
}

/// Whether `s` is the skill a file with id `id` and text `text` holds.
pub open spec fn parsed_skill(s: Skill, id: Seq<char>, text: Seq<char>, source: SkillSource) -> bool {
    &&& parsed_fields(s, id, text, source)
    &&& match front_of(id, text).market {
        Some(m) => s.market_repo matches Some(r) && r@ == m,
        None => s.market_repo is None,
    }
}

/// The lines of a skill file's front matter: those after an opening `---`
/// line and before the closing one (all the rest when it is not closed);
/// none when the file does not open with `---`.
pub open spec fn front_matter_lines(text: Seq<char>) -> Seq<Seq<char>> {
    let ls = lines_of(text);
    if ls.len() > 0 && trim(ls[0]) == "---"@ {
        lines_before_close(ls.drop_first())
    } else {
        Seq::empty()
    }
}

/// The lines before the first `---` line.
pub open spec fn lines_before_close(ls: Seq<Seq<char>>) -> Seq<Seq<char>>
    decreases ls.len(),
{
    if ls.len() == 0 || trim(ls[0]) == "---"@ {
        Seq::empty()
    } else {
        seq![ls[0]] + lines_before_close(ls.drop_first())
    }
}

/// The key and the value of a `key: value` line, both trimmed.
pub open spec fn line_field(line: Seq<char>) -> Option<(Seq<char>, Seq<char>)> {
    match first_index_of(line, ':') {
        None => None,
        Some(i) => Some((trim(line.take(i)), trim(line.skip(i + 1)))),
    }
}

/// Whether a line sets the key `enabled`.
pub open spec fn sets_enabled(line: Seq<char>) -> bool {
    line_field(line) matches Some(f) && f.0 == "enabled"@
}

/// The value of the last `enabled` line.
spec fn last_enabled(fl: Seq<Seq<char>>) -> Option<Seq<char>>
    decreases fl.len(),
{
    if fl.len() == 0 {
        None
    } else {
        match last_enabled(fl.drop_first()) {
            Some(v) => Some(v),
            None => if sets_enabled(fl[0]) {
                Some(line_field(fl[0]).unwrap().1)
            } else {
                None
            },
        }
    }
}

proof fn lemma_scan_enabled(st: Front, ls: Seq<Seq<char>>)
    ensures
        front_scan(st, ls).enabled == match last_enabled(lines_before_close(ls)) {
            Some(v) => v != "false"@,
            None => st.enabled,
        },
    decreases ls.len(),
{
    reveal_strlit("name");
    reveal_strlit("description");
    reveal_strlit("enabled");
    if ls.len() > 0 && trim(ls[0]) != "---"@ {
        let rest = ls.drop_first();
        lemma_scan_enabled(front_line(st, ls[0]), rest);
        let fl = lines_before_close(ls);
        assert(fl.drop_first() =~= lines_before_close(rest));
        assert(fl[0] == ls[0]);
        let st2 = front_line(st, ls[0]);
        assert(front_scan(st, ls) == front_scan(st2, rest));
        if sets_enabled(ls[0]) {
            let f = line_field(ls[0]).unwrap();
            assert(f.0 == "enabled"@);
            assert(f.0 != "name"@);
            assert(f.0 != "description"@);
            assert(st2.enabled == (f.1 != "false"@));
        } else {
            match first_index_of(ls[0], ':') {
                None => {},
                Some(i) => {
                    assert(trim(ls[0].take(i)) != "enabled"@);
                },
            }
            assert(st2.enabled == st.enabled);
        }
    }
}

proof fn lemma_last_enabled(fl: Seq<Seq<char>>)
    ensures
        last_enabled(fl) is None <==> forall|j: int| 0 <= j < fl.len() ==> !sets_enabled(#[trigger] fl[j]),
        last_enabled(fl) matches Some(v) ==> exists|j: int|
            0 <= j < fl.len() && sets_enabled(#[trigger] fl[j]) && line_field(fl[j]).unwrap().1 == v
                && forall|k: int| j < k < fl.len() ==> !sets_enabled(#[trigger] fl[k]),
    decreases fl.len(),
{
    if fl.len() > 0 {
        let rest = fl.drop_first();
        lemma_last_enabled(rest);
        assert forall|j: int| 0 < j < fl.len() implies fl[j] == rest[j - 1] by {}
        match last_enabled(rest) {
            Some(v) => {
                let j = choose|j: int|
                    0 <= j < rest.len() && sets_enabled(#[trigger] rest[j]) && line_field(rest[j]).unwrap().1 == v
                        && forall|k: int| j < k < rest.len() ==> !sets_enabled(#[trigger] rest[k]);
                assert(fl[j + 1] == rest[j]);
                assert forall|k: int| j + 1 < k < fl.len() implies !sets_enabled(#[trigger] fl[k]) by {
                    assert(fl[k] == rest[k - 1]);
                }
                assert(!(forall|j: int| 0 <= j < fl.len() ==> !sets_enabled(#[trigger] fl[j])));
            },
            None => {
                if sets_enabled(fl[0]) {
                    assert forall|k: int| 0 < k < fl.len() implies !sets_enabled(#[trigger] fl[k]) by {
                        assert(fl[k] == rest[k - 1]);
                    }
                } else {
                    assert forall|j: int| 0 <= j < fl.len() implies !sets_enabled(#[trigger] fl[j]) by {
                        if j > 0 {
                            assert(fl[j] == rest[j - 1]);
                        }
                    }
                }
            },
        }
    }
}

/// A skill is off exactly when its front matter has an `enabled` line whose
/// value is `false` and no `enabled` line after it; so a front matter with
/// no `enabled` line (or no front matter at all) leaves the skill on.
pub proof fn lemma_enabled_flag(id: Seq<char>, text: Seq<char>)
    ensures
        !front_of(id, text).enabled <==> exists|j: int|
            0 <= j < front_matter_lines(text).len() && sets_enabled(#[trigger] front_matter_lines(text)[j])
                && line_field(front_matter_lines(text)[j]).unwrap().1 == "false"@
                && forall|k: int| j < k < front_matter_lines(text).len() ==> !sets_enabled(
                #[trigger] front_matter_lines(text)[k],
            ),
        (forall|j: int| 0 <= j < front_matter_lines(text).len() ==> !sets_enabled(
            #[trigger] front_matter_lines(text)[j],
        )) ==> front_of(id, text).enabled,
{
    let ls = lines_of(text);
    let fl = front_matter_lines(text);
    let init = Front { name: id, description: Seq::empty(), enabled: true, market: None, offset: 4, body_start: 0 };
    if ls.len() > 0 && trim(ls[0]) == "---"@ {
        lemma_scan_enabled(init, ls.drop_first());
    }
    lemma_last_enabled(fl);
    assert(front_of(id, text).enabled == match last_enabled(fl) {
        Some(v) => v != "false"@,
        None => true,
    });
    if exists|j: int|
        0 <= j < fl.len() && sets_enabled(#[trigger] fl[j]) && line_field(fl[j]).unwrap().1 == "false"@
            && forall|k: int| j < k < fl.len() ==> !sets_enabled(#[trigger] fl[k]) {
        let j = choose|j: int|
            0 <= j < fl.len() && sets_enabled(#[trigger] fl[j]) && line_field(fl[j]).unwrap().1 == "false"@
                && forall|k: int| j < k < fl.len() ==> !sets_enabled(#[trigger] fl[k]);
        let v = last_enabled(fl).unwrap();
        let j2 = choose|j2: int|
            0 <= j2 < fl.len() && sets_enabled(#[trigger] fl[j2]) && line_field(fl[j2]).unwrap().1 == v
                && forall|k: int| j2 < k < fl.len() ==> !sets_enabled(#[trigger] fl[k]);
        assert(j == j2);
    }
}

fn byte_count(v: &Vec<char>) -> (n: u128)
    ensures
        n == byte_len(v@),
        n <= 4 * v.len(),
{
    let mut n: u128 = 0;
    let mut i = v.len();
    assert(v@.skip(v.len() as int) =~= Seq::<char>::empty());
    while i > 0
        invariant
            i <= v.len(),
            n == byte_len(v@.skip(i as int)),
            n <= 4 * (v.len() - i),
        decreases i,
    {
        i = i - 1;
        assert(v@.skip(i as int).drop_first() =~= v@.skip(i + 1));
        n = n + crate::infra::mcp::char_bytes(v[i]) as u128;
    }
    assert(v@.skip(0) =~= v@);
    n
}

proof fn lemma_byte_len_take(t: Seq<char>, k: int)
    requires
        0 <= k < t.len(),
    ensures
        byte_len(t.take(k + 1)) == byte_len(t.take(k)) + utf8_len(t[k]),
        byte_len(t.take(k + 1)) > byte_len(t.take(k)),
    decreases k,
{
    if k > 0 {
        let u = t.drop_first();
        lemma_byte_len_take(u, k - 1);
        assert(t.take(k + 1).drop_first() =~= u.take(k));
        assert(t.take(k).drop_first() =~= u.take(k - 1));
    } else {
        assert(t.take(1).drop_first() =~= Seq::<char>::empty());
        assert(t.take(0) =~= Seq::<char>::empty());
    }
}

proof fn lemma_byte_len_mono(t: Seq<char>, j: int, k: int)
    requires
        0 <= j < k <= t.len(),
    ensures
        byte_len(t.take(j)) < byte_len(t.take(k)),
    decreases k - j,
{
    lemma_byte_len_take(t, k - 1);
    if j < k - 1 {
        lemma_byte_len_mono(t, j, k - 1);
    }
}

/// The text from byte `b` on (see [`from_byte`]).
fn suffix_from_byte(t: &Vec<char>, b: u128) -> (r: Option<Vec<char>>)
    ensures
        match r {
            Some(s) => from_byte(t@, b as int) == Some(s@),
            None => from_byte(t@, b as int) is None,
        },
{
    let mut k: usize = 0;
    let mut acc: u128 = 0;
    assert(t@.take(0) =~= Seq::<char>::empty());
    while k < t.len() && acc < b
        invariant
            k <= t.len(),
            acc == byte_len(t@.take(k as int)),
            acc <= 4 * k,
            forall|j: int| 0 <= j < k ==> byte_len(#[trigger] t@.take(j)) < b,
        decreases t.len() - k,
    {
        proof {
            lemma_byte_len_take(t@, k as int);
        }
        acc = acc + crate::infra::mcp::char_bytes(t[k]) as u128;
        k = k + 1;
    }
    if acc == b {
        let s = slice_vec(t, k, t.len());
        proof {
            assert(s@ =~= t@.skip(k as int));
            assert forall|j: int| 0 <= j <= t@.len() && byte_len(t@.take(j)) == b implies j == k by {
                if j < k {
                    lemma_byte_len_mono(t@, j, k as int);
                } else if j > k {
                    lemma_byte_len_mono(t@, k as int, j);
                }
            }
        }
        Some(s)
    } else {
        proof {
            assert forall|j: int| 0 <= j <= t@.len() implies byte_len(#[trigger] t@.take(j)) != b by {
                if j > k {
                    lemma_byte_len_mono(t@, k as int, j);
                }
            }
        }
        None
    }
}

/// The front matter state held in the reader's variables.
pub open spec fn front_state(
    name: Seq<char>,
    description: Seq<char>,
    enabled: bool,
    market: Option<Vec<char>>,
    offset: int,
    body_start: int,
) -> Front {
    Front {
        name,
        description,
        enabled,
        market: match market {
            Some(m) => Some(m@),
            None => None,
        },
        offset,
        body_start,
    }
}

/// The first line of `t` from `start` and where the next one starts.
pub(crate) fn next_line(t: &Vec<char>, start: usize) -> (r: (Vec<char>, usize))
    requires
        start < t.len(),
    ensures
        start < r.1 <= t.len(),
        r.1 >= start + r.0.len(),
        r.1 == start + r.0.len() ==> r.0.len() >= 1,
        lines_of(t@.skip(start as int)).len() > 0,
        lines_of(t@.skip(start as int))[0] == r.0@,
        lines_of(t@.skip(start as int)).drop_first() == lines_of(t@.skip(r.1 as int)),
{
    let ghost rest = t@.skip(start as int);
    match find_char_from(t, '\n', start) {
        Some(q) => {
            let raw = slice_vec(t, start, q);
            let l = if q > start && t[q - 1] == '\r' {
                slice_vec(t, start, q - 1)
            } else {
                raw
            };
            proof {
                assert(rest.take(q - start) =~= raw@);
                if q > start && t@[q - 1] == '\r' {
                    assert(l@ =~= raw@.drop_last());
                }
                assert(rest.skip(q - start + 1) =~= t@.skip(q + 1));
                assert(lines_of(rest) =~= seq![l@] + lines_of(t@.skip(q + 1)));
                assert(lines_of(rest).drop_first() =~= lines_of(t@.skip(q + 1)));
            }
            (l, q + 1)
        },
        None => {
            let l = slice_vec(t, start, t.len());
            proof {
                assert(l@ =~= rest);
                assert(lines_of(rest) =~= seq![l@]);
                assert(t@.skip(t.len() as int) =~= Seq::<char>::empty());
                assert(lines_of(t@.skip(t.len() as int)) =~= Seq::<Seq<char>>::empty());
                assert(seq![l@].drop_first() =~= Seq::<Seq<char>>::empty());
            }
            (l, t.len())
        },
    }
}

/// Applies one front matter line to the fields (see [`front_line`]).
fn apply_front_line(
    name: &mut Vec<char>,
    description: &mut Vec<char>,
    enabled: &mut bool,
    market: &mut Option<Vec<char>>,
    line: &Vec<char>,
)
    ensures
        ({
            let before = front_state(old(name)@, old(description)@, *old(enabled), *old(market), 0, 0);
            let after = front_line(before, line@);
            &&& final(name)@ == after.name
            &&& final(description)@ == after.description
            &&& *final(enabled) == after.enabled
            &&& front_state(final(name)@, final(description)@, *final(enabled), *final(market), 0, 0).market == after.market
        }),
{
    assert(line@.skip(0) =~= line@);
    match find_char_from(line, ':', 0) {
        None => {},
        Some(i) => {
            let kv = slice_vec(line, 0, i);
            let vv = slice_vec(line, i + 1, line.len());
            assert(kv@ =~= line@.take(i as int));
            assert(vv@ =~= line@.skip(i + 1));
            let key = trim_vec(&kv);
            let value = trim_vec(&vv);
            if eq_str(&key, "name") {
                *name = value;
            } else if eq_str(&key, "description") {
                *description = value;
            } else if eq_str(&key, "enabled") {
                *enabled = !eq_str(&value, "false");
            } else if eq_str(&key, "market") {
                *market = if value.len() > 0 {
                    Some(value)
                } else {
                    None
                };
            }
        },
    }
}

/// Reads a skill file (see [`parsed_skill`]): the id must be valid and the
/// name it ends up with must not be blank.
#[verifier::rlimit(40)]
pub fn parse_skill(id: &str, text: &str, source: SkillSource) -> (r: Result<Skill, DomainError>)
    ensures
        match skill_id_invalid(id@) {
            Some(m) => r matches Err(DomainError::Validation(e)) && e@ == m,
            None => if is_blank(front_of(id@, text@).name) {
                r matches Err(DomainError::Validation(e)) && e@ == "技能名称不能为空"@
            } else {
                r matches Ok(s) && parsed_skill(s, id@, text@, source)
            },
        },
{
    Skill::validate_id(id)?;
    let t = chars_of(text);
    let mut name = chars_of(id);
    let mut description: Vec<char> = Vec::new();
    let mut enabled = true;
    let mut market: Option<Vec<char>> = None;
    let mut offset: u128 = 4;
    let mut body_start: u128 = 0;
    let first_end = find_char_from(&t, '\n', 0);
    assert(t@.skip(0) =~= t@);
    let has_front = match first_end {
        Some(p) => {
            let raw = slice_vec(&t, 0, p);
            let first = if p > 0 && t[p - 1] == '\r' {
                slice_vec(&t, 0, p - 1)
            } else {
                raw
            };
            proof {
                assert(t@.take(p as int) =~= raw@);
                if p > 0 && t@[p - 1] == '\r' {
                    assert(first@ =~= raw@.drop_last());
                }
                assert(first@ == strip_cr(t@.take(p as int)));
                assert(lines_of(t@)[0] == first@);
            }
            let ft = trim_vec(&first);
            eq_str(&ft, "---")
        },
        None => {
            if t.len() > 0 {
                assert(lines_of(t@) =~= seq![t@]);
            }
            let ft = trim_vec(&t);
            t.len() > 0 && eq_str(&ft, "---")
        },
    };
    let mut content = owned(text);
    if has_front {
        let mut start: usize = match first_end {
            Some(p) => p + 1,
            None => t.len(),
        };
        proof {
            match first_end {
                Some(p) => {
                    assert(lines_of(t@).drop_first() =~= lines_of(t@.skip(p + 1)));
                },
                None => {
                    assert(t@.skip(t.len() as int) =~= Seq::<char>::empty());
                    assert(lines_of(t@).drop_first() =~= Seq::<Seq<char>>::empty());
                    assert(lines_of(t@.skip(start as int)) =~= Seq::<Seq<char>>::empty());
                },
            }
        }
        let mut done = false;
        while !done && start < t.len()
            invariant
                start <= t.len(),
                t@ == text@,
                offset <= 4 + 5 * start,
                !done ==> body_start == 0,
                !done ==> front_of(id@, t@) == front_scan(
                    front_state(name@, description@, enabled, market, offset as int, 0),
                    lines_of(t@.skip(start as int)),
                ),
                done ==> front_of(id@, t@) == front_state(
                    name@,
                    description@,
                    enabled,
                    market,
                    offset as int,
                    body_start as int,
                ),
                done ==> body_start > 0,
            decreases t.len() - start,
        {
            let (line, next) = next_line(&t, start);
            let lt = trim_vec(&line);
            let nbytes = byte_count(&line);
            if eq_str(&lt, "---") {
                body_start = offset + nbytes + 1;
                done = true;
            } else {
                apply_front_line(&mut name, &mut description, &mut enabled, &mut market, &line);
                offset = offset + nbytes + 1;
            }
            start = next;
        }
        proof {
            if !done {
                assert(t@.skip(start as int) =~= Seq::<char>::empty());
                assert(lines_of(t@.skip(start as int)) =~= Seq::<Seq<char>>::empty());
            }
        }
        if body_start > 0 {
            content = match suffix_from_byte(&t, body_start) {
                Some(s) => string_of(&trim_vec(&s)),
                None => String::new(),
            };
        }
    }
    let skill = Skill {
        id: owned(id),
        name: string_of(&name),
        description: string_of(&description),
        enabled,
        source,
        market_repo: match market {
            Some(m) => Some(string_of(&m)),
            None => None,
        },
        content,
    };
    skill.validate()?;
    Ok(skill)
}

/// The text of a skill file: the front matter (`market` only when given)
/// and the template.
pub open spec fn skill_text(
    name: Seq<char>,
    description: Seq<char>,
    enabled: bool,
    market: Option<Seq<char>>,
    content: Seq<char>,
) -> Seq<char> {
    "---\nname: "@ + name + "\ndescription: "@ + description + "\nenabled: "@ + (if enabled {
        "true"@
    } else {
        "false"@
    }) + "\n"@ + (match market {
        Some(m) => "market: "@ + m + "\n"@,
        None => Seq::empty(),
    }) + "---\n"@ + content + "\n"@
}

/// Writes the text of a skill file (see [`skill_text`]).
pub fn serialize_skill(
    name: &str,
    description: &str,
    enabled: bool,
    market_repo: Option<&str>,
    content: &str,
) -> (r: String)
    ensures
        r@ == skill_text(name@, description@, enabled, match market_repo {
            Some(m) => Some(m@),
            None => None,
        }, content@),
{
    let mut v = chars_of("---\nname: ");
    extend_str(&mut v, name);
    extend_str(&mut v, "\ndescription: ");
    extend_str(&mut v, description);
    extend_str(&mut v, "\nenabled: ");
    extend_str(&mut v, if enabled { "true" } else { "false" });
    extend_str(&mut v, "\n");
    match market_repo {
        Some(m) => {
            extend_str(&mut v, "market: ");
            extend_str(&mut v, m);
            extend_str(&mut v, "\n");
        },
        None => {
            assert(v@ + Seq::<char>::empty() =~= v@);
        },
    }
    extend_str(&mut v, "---\n");
    extend_str(&mut v, content);
    extend_str(&mut v, "\n");
    string_of(&v)
}

/// The id of a skill file: for `SKILL.md` (any case) the name of its
/// directory, otherwise the file name without extension.
pub open spec fn skill_id_from_path(path: Seq<char>) -> Option<Seq<char>> {
    match file_name_of(path) {
        None => None,
        Some(f) => if lower_seq(f) == "skill.md"@ {
            match parent_of(path) {
                Some(d) => file_name_of(d),
                None => None,
            }
        } else {
            file_stem_of(path)
        },
    }
}

/// The id of a skill file (see [`skill_id_from_path`]).
pub fn skill_id_of(path: &str) -> (r: Option<String>)
    ensures
        match r {
            Some(id) => skill_id_from_path(path@) == Some(id@),
            None => skill_id_from_path(path@) is None,
        },
{
    let f = path_file_name(path)?;
    if eq_str(&to_ascii_lower(&chars_of(f.as_str())), "skill.md") {
        let dir = path_parent(path)?;
        return path_file_name(dir.as_str());
    }
    path_file_stem(path)
}

/// Whether a top-level file is kept: it has a name and is not
/// `README.md` (any case).
pub open spec fn top_file_kept(path: Seq<char>) -> bool {
    match file_name_of(path) {
        Some(n) => lower_seq(n) != "readme.md"@,
        None => false,
    }
}

/// The top-level files kept, in order.
pub open spec fn kept_top(files: Seq<String>) -> Seq<Seq<char>>
    decreases files.len(),
{
    if files.len() == 0 {
        Seq::empty()
    } else if top_file_kept(files.last()@) {
        kept_top(files.drop_last()).push(files.last()@)
    } else {
        kept_top(files.drop_last())
    }
}

/// The files whose skill id is valid and not taken by an earlier file, in
/// order (`seen` holds the ids taken before).
pub open spec fn first_per_id(files: Seq<Seq<char>>, seen: Seq<Seq<char>>) -> Seq<Seq<char>>
    decreases files.len(),
{
    if files.len() == 0 {
        Seq::empty()
    } else {
        match skill_id_from_path(files[0]) {
            Some(id) => if skill_id_invalid(id) is None && !seen.contains(id) {
                seq![files[0]] + first_per_id(files.drop_first(), seen.push(id))
            } else {
                first_per_id(files.drop_first(), seen)
            },
            None => first_per_id(files.drop_first(), seen),
        }
    }
}

/// `p` inserted after every path that does not order after it.
pub open spec fn insert_path(s: Seq<Seq<char>>, p: Seq<char>) -> Seq<Seq<char>>
    decreases s.len(),
{
    if s.len() == 0 || !path_before(p, s.last()) {
        s.push(p)
    } else {
        insert_path(s.drop_last(), p).push(s.last())
    }
}

/// Paths sorted by insertion, in the order of `std::path::Path`.
pub open spec fn sorted_paths(s: Seq<Seq<char>>) -> Seq<Seq<char>>
    decreases s.len(),
{
    if s.len() == 0 {
        s
    } else {
        insert_path(sorted_paths(s.drop_last()), s.last())
    }
}

proof fn lemma_insert_path(s: Seq<Seq<char>>, p: Seq<char>)
    ensures
        insert_path(s, p).to_multiset() =~= s.to_multiset().insert(p),
    decreases s.len(),
{
    broadcast use vstd::seq_lib::group_to_multiset_ensures, vstd::multiset::group_multiset_axioms;
    if s.len() > 0 && path_before(p, s.last()) {
        lemma_insert_path(s.drop_last(), p);
        assert(s =~= s.drop_last().push(s.last()));
    }
}

/// Sorting paths keeps them, with their multiplicity.
pub proof fn lemma_sorted_paths(s: Seq<Seq<char>>)
    ensures
        sorted_paths(s).to_multiset() =~= s.to_multiset(),
    decreases s.len(),
{
    broadcast use vstd::seq_lib::group_to_multiset_ensures, vstd::multiset::group_multiset_axioms;
    if s.len() > 0 {
        let p = s.drop_last();
        lemma_sorted_paths(p);
        lemma_insert_path(sorted_paths(p), s.last());
        assert(s =~= p.push(s.last()));
    }
}

/// The skill files of an unpacked repository, given the Markdown files of
/// its top level, of its `skills/` directory and the `SKILL.md` files one
/// directory down: top-level files other than `README.md`, then the others;
/// one file per valid skill id (the first found); sorted by path.
pub open spec fn selected_skill_files(top: Seq<String>, inner: Seq<String>, dir_style: Seq<String>) -> Seq<Seq<char>> {
    sorted_paths(first_per_id(
        kept_top(top) + inner.map_values(|x: String| x@) + dir_style.map_values(|x: String| x@),
        Seq::empty(),
    ))
}

/// No path orders before one that comes earlier (`<` of `std::path::Path`).
pub open spec fn paths_sorted(s: Seq<Seq<char>>) -> bool {
    forall|i: int, j: int| 0 <= i < j < s.len() ==> !path_before(#[trigger] s[j], #[trigger] s[i])
}

fn insert_path_exec(v: &mut Vec<String>, p: String)
    ensures
        final(v)@.map_values(|x: String| x@) == insert_path(old(v)@.map_values(|x: String| x@), p@),
        paths_sorted(old(v)@.map_values(|x: String| x@)) ==> paths_sorted(final(v)@.map_values(|x: String| x@)),
{
    let ghost s0 = old(v)@.map_values(|x: String| x@);
    let mut k = v.len();
    assert(s0.take(k as int) =~= s0);
    assert(s0 + s0.skip(k as int) =~= s0);
    loop
        invariant_except_break
            k <= v.len(),
            v@.map_values(|x: String| x@) == s0,
            insert_path(s0, p@) == insert_path(s0.take(k as int), p@) + s0.skip(k as int),
            forall|j: int| k <= j < s0.len() ==> path_before(p@, #[trigger] s0[j]) && !path_before(s0[j], p@),
        ensures
            k <= v.len(),
            v@.map_values(|x: String| x@) == s0,
            insert_path(s0, p@) == insert_path(s0.take(k as int), p@) + s0.skip(k as int),
            forall|j: int| k <= j < s0.len() ==> path_before(p@, #[trigger] s0[j]) && !path_before(s0[j], p@),
            k == 0 || (!path_before(p@, s0[k - 1]) && forall|z: Seq<char>| #[trigger] path_before(p@, z) ==> path_before(s0[k - 1], z)),
        decreases k,
    {
        if k == 0 {
            break;
        }
        let lt = path_lt(p.as_str(), v[k - 1].as_str());
        if !lt {
            break;
        }
        proof {
            let t = s0.take(k as int);
            assert(t.last() == s0[k - 1]);
            assert(t.drop_last() =~= s0.take(k - 1));
            assert(insert_path(t, p@) == insert_path(t.drop_last(), p@).push(t.last()));
            assert(insert_path(s0.take(k - 1), p@).push(s0[k - 1]) + s0.skip(k as int) =~= insert_path(s0.take(k - 1), p@) + s0.skip(k - 1));
        }
        k = k - 1;
    }
    proof {
        let t = s0.take(k as int);
        assert(insert_path(t, p@) == t.push(p@));
    }
    v.insert(k, p);
    let ghost w = v@.map_values(|x: String| x@);
    assert(w =~= s0.take(k as int).push(p@) + s0.skip(k as int));
    proof {
        if paths_sorted(s0) {
            assert forall|i: int, j: int| 0 <= i < j < w.len() implies !path_before(#[trigger] w[j], #[trigger] w[i]) by {
                if j < k {
                    assert(w[i] == s0[i] && w[j] == s0[j]);
                } else if j == k {
                    assert(w[j] == p@ && w[i] == s0[i]);
                    if path_before(p@, s0[i]) {
                        assert(path_before(s0[k - 1], s0[i]));
                        if i < k - 1 {
                            assert(!path_before(s0[k - 1], s0[i]));
                        }
                    }
                } else if i == k {
                    assert(w[i] == p@ && w[j] == s0[j - 1]);
                } else if i < k {
                    assert(w[i] == s0[i] && w[j] == s0[j - 1]);
                } else {
                    assert(w[i] == s0[i - 1] && w[j] == s0[j - 1]);
                }
            }
        }
    }
}

/// Selects the skill files of an unpacked repository (see
/// [`selected_skill_files`]).
pub fn select_skill_files(top: Vec<String>, inner: Vec<String>, dir_style: Vec<String>) -> (r: Vec<String>)
    ensures
        r@.map_values(|x: String| x@) == selected_skill_files(top@, inner@, dir_style@),
        paths_sorted(r@.map_values(|x: String| x@)),
{
    let ghost all = kept_top(top@) + inner@.map_values(|x: String| x@) + dir_style@.map_values(|x: String| x@);
    let mut files: Vec<String> = Vec::new();
    let mut i: usize = 0;
    let mut t = top;
    let ghost top0 = t@;
    assert(top0.take(0) =~= Seq::<String>::empty());
    while i < t.len()
        invariant
            i <= t.len(),
            t@ == top0,
            files@.map_values(|x: String| x@) == kept_top(top0.take(i as int)),
        decreases t.len() - i,
    {
        let keep = match path_file_name(t[i].as_str()) {
            Some(n) => !eq_str(&to_ascii_lower(&chars_of(n.as_str())), "readme.md"),
            None => false,
        };
        proof {
            assert(top0.take(i + 1).drop_last() =~= top0.take(i as int));
            assert(top0.take(i + 1).last() == t@[i as int]);
        }
        if keep {
            let ghost before = files@;
            files.push(t[i].clone());
            assert(files@.map_values(|x: String| x@) =~= before.map_values(|x: String| x@).push(t@[i as int]@));
        }
        i = i + 1;
    }
    assert(top0.take(i as int) =~= top0);
    for k in 0..inner.len()
        invariant
            files@.map_values(|x: String| x@) == kept_top(top0) + inner@.map_values(|x: String| x@).take(k as int),
    {
        let ghost before = files@;
        files.push(inner[k].clone());
        assert(files@.map_values(|x: String| x@) =~= before.map_values(|x: String| x@).push(inner@[k as int]@));
        assert(inner@.map_values(|x: String| x@).take(k + 1) =~= inner@.map_values(|x: String| x@).take(k as int).push(inner@[k as int]@));
    }
    assert(inner@.map_values(|x: String| x@).take(inner.len() as int) =~= inner@.map_values(|x: String| x@));
    for k in 0..dir_style.len()
        invariant
            files@.map_values(|x: String| x@) == kept_top(top0) + inner@.map_values(|x: String| x@) + dir_style@.map_values(|x: String| x@).take(k as int),
    {
        let ghost before = files@;
        files.push(dir_style[k].clone());
        assert(files@.map_values(|x: String| x@) =~= before.map_values(|x: String| x@).push(dir_style@[k as int]@));
        assert(dir_style@.map_values(|x: String| x@).take(k + 1) =~= dir_style@.map_values(|x: String| x@).take(k as int).push(dir_style@[k as int]@));
    }
    assert(dir_style@.map_values(|x: String| x@).take(dir_style.len() as int) =~= dir_style@.map_values(|x: String| x@));
    assert(files@.map_values(|x: String| x@) == all);
    // one file per valid id, the first found
    let mut unique: Vec<String> = Vec::new();
    let mut seen: Vec<String> = Vec::new();
    assert(all.skip(0) =~= all);
    assert(unique@.map_values(|x: String| x@) =~= Seq::<Seq<char>>::empty());
    for k in 0..files.len()
        invariant
            files@.map_values(|x: String| x@) == all,
            first_per_id(all, Seq::empty()) == unique@.map_values(|x: String| x@) + first_per_id(all.skip(k as int), seen@.map_values(|x: String| x@)),
    {
        let f = &files[k];
        assert(all.skip(k as int)[0] == f@);
        assert(all.skip(k as int).drop_first() =~= all.skip(k + 1));
        match skill_id_of(f.as_str()) {
            Some(id) => {
                let valid = Skill::validate_id(id.as_str()).is_ok();
                let mut taken = false;
                for j in 0..seen.len()
                    invariant
                        taken == (exists|m: int| 0 <= m < j && seen@[m]@ == id@),
                {
                    if crate::text::str_eq(seen[j].as_str(), id.as_str()) {
                        taken = true;
                    }
                }
                proof {
                    let sv = seen@.map_values(|x: String| x@);
                    if taken {
                        let m = choose|m: int| 0 <= m < seen.len() && seen@[m]@ == id@;
                        assert(sv[m] == id@);
                    }
                    if sv.contains(id@) {
                        let m = choose|m: int| 0 <= m < sv.len() && sv[m] == id@;
                        assert(seen@[m]@ == id@);
                    }
                }
                if valid && !taken {
                    let ghost before = unique@;
                    let ghost sbefore = seen@;
                    unique.push(f.clone());
                    seen.push(id);
                    proof {
                        assert(unique@.map_values(|x: String| x@) =~= before.map_values(|x: String| x@).push(f@));
                        assert(seen@.map_values(|x: String| x@) =~= sbefore.map_values(|x: String| x@).push(seen@.last()@));
                        assert(before.map_values(|x: String| x@) + (seq![f@] + first_per_id(all.skip(k + 1), seen@.map_values(|x: String| x@)))
                            =~= unique@.map_values(|x: String| x@) + first_per_id(all.skip(k + 1), seen@.map_values(|x: String| x@)));
                    }
                }
            },
            None => {},
        }
    }
    assert(all.skip(files.len() as int) =~= Seq::<Seq<char>>::empty());
    assert(unique@.map_values(|x: String| x@) + Seq::<Seq<char>>::empty() =~= unique@.map_values(|x: String| x@));
    // sorted by path
    let ghost u = unique@.map_values(|x: String| x@);
    let mut sorted: Vec<String> = Vec::new();
    let mut src = unique;
    let mut n: usize = 0;
    let total = src.len();
    assert(u.take(0) =~= Seq::<Seq<char>>::empty());
    assert(u.skip(0) =~= u);
    assert(sorted@.map_values(|x: String| x@) =~= Seq::<Seq<char>>::empty());
    while src.len() > 0
        invariant
            n <= u.len(),
            u.len() == total,
            src@.map_values(|x: String| x@) == u.skip(n as int),
            sorted@.map_values(|x: String| x@) == sorted_paths(u.take(n as int)),
            paths_sorted(sorted@.map_values(|x: String| x@)),
        decreases src.len(),
    {
        let ghost sb = src@;
        assert(sb.map_values(|x: String| x@).len() == sb.len());
        assert(n < u.len());
        let p = src.remove(0);
        proof {
            assert(src@ =~= sb.drop_first());
            assert(src@.map_values(|x: String| x@) =~= sb.map_values(|x: String| x@).drop_first());
            assert(sb.map_values(|x: String| x@)[0] == p@);
            assert(u.skip(n as int)[0] == p@);
            assert(src@.map_values(|x: String| x@) =~= u.skip(n + 1));
            assert(u.take(n + 1).drop_last() =~= u.take(n as int));
            assert(u.take(n + 1).last() == p@);
        }
        insert_path_exec(&mut sorted, p);
        n = n + 1;
    }
    assert(u.take(n as int) =~= u);
    sorted
}

/// Why a file of a repository cannot be installed as a skill, if it
/// cannot: no id, an invalid id, a failed read, or a blank name.
pub open spec fn install_problem(path: Seq<char>, read: Result<Seq<char>, Seq<char>>) -> Option<Seq<char>> {
    match skill_id_from_path(path) {
        None => Some("非法技能文件名："@ + path),
        Some(id) => match skill_id_invalid(id) {
            Some(m) => Some(m),
            None => match read {
                Err(e) => Some("读取技能文件失败："@ + e),
                Ok(text) => if is_blank(front_of(id, text).name) {
                    Some("技能名称不能为空"@)
                } else {
                    None
                },
            },
        },
    }
}

/// The view of a read outcome.
pub open spec fn read_view(r: Result<String, String>) -> Result<Seq<char>, Seq<char>> {
    match r {
        Ok(t) => Ok(t@),
        Err(e) => Err(e@),
    }
}

/// Reads the skills of a repository for installation, given each file's
/// path and what reading it gave: nothing to install is refused; the first
/// file that cannot be installed refuses all (see [`install_problem`]);
/// otherwise every skill, global, marked with the market repository.
pub fn prepare_install(market_repo: &str, files: Vec<(String, Result<String, String>)>) -> (r: Result<Vec<Skill>, DomainError>)
    ensures
        files@.len() == 0 ==> (r matches Err(DomainError::Validation(m)) && m@ == "仓库中没有技能文件"@),
        files@.len() > 0 && (forall|i: int| 0 <= i < files@.len() ==> install_problem(#[trigger] files@[i].0@, read_view(files@[i].1)) is None)
            ==> (r matches Ok(v) && v@.len() == files@.len() && forall|i: int| 0 <= i < v@.len() ==> {
                let id = skill_id_from_path(files@[i].0@)->0;
                let text = read_view(files@[i].1)->Ok_0;
                &&& parsed_fields(#[trigger] v@[i], id, text, SkillSource::Global)
                &&& v@[i].market_repo matches Some(m) && m@ == market_repo@
            }),
        files@.len() > 0 && (exists|i: int| 0 <= i < files@.len() && install_problem(#[trigger] files@[i].0@, read_view(files@[i].1)) is Some)
            ==> (r matches Err(DomainError::Validation(m)) && exists|i: int| 0 <= i < files@.len() && (forall|j: int| 0 <= j < i ==> install_problem(#[trigger] files@[j].0@, read_view(files@[j].1)) is None)
                && install_problem(files@[i].0@, read_view(files@[i].1)) == Some(m@)),
{
    if files.len() == 0 {
        return Err(DomainError::Validation(owned("仓库中没有技能文件")));
    }
    let mut skills: Vec<Skill> = Vec::new();
    for i in 0..files.len()
        invariant
            files@.len() > 0,
            skills@.len() == i,
            forall|j: int| 0 <= j < i ==> install_problem(#[trigger] files@[j].0@, read_view(files@[j].1)) is None,
            forall|j: int| 0 <= j < i ==> {
                let id = skill_id_from_path(files@[j].0@)->0;
                let text = read_view(files@[j].1)->Ok_0;
                &&& parsed_fields(#[trigger] skills@[j], id, text, SkillSource::Global)
                &&& skills@[j].market_repo matches Some(m) && m@ == market_repo@
            },
    {
        let path = files[i].0.as_str();
        let id = match skill_id_of(path) {
            Some(id) => id,
            None => {
                let m = crate::text::concat_vec(&chars_of("非法技能文件名："), &chars_of(path));
                return Err(DomainError::Validation(string_of(&m)));
            },
        };
        Skill::validate_id(id.as_str())?;
        let text = match &files[i].1 {
            Ok(t) => t,
            Err(e) => {
                let m = crate::text::concat_vec(&chars_of("读取技能文件失败："), &chars_of(e.as_str()));
                return Err(DomainError::Validation(string_of(&m)));
            },
        };
        let mut skill = parse_skill(id.as_str(), text.as_str(), SkillSource::Global)?;
        skill.market_repo = Some(owned(market_repo));
        skills.push(skill);
    }
    Ok(skills)
}

/// Whether installing refuses because a skill's file is already in the
/// global directory: `present[i]` tells whether `<id>.md` of `skills[i]`
/// exists. The first skill whose file exists is named in a `Conflict`;
/// otherwise nothing is refused (and nothing has been written yet).
pub fn install_conflict(skills: &Vec<Skill>, present: &[bool]) -> (r: Result<(), DomainError>)
    requires
        present@.len() == skills@.len(),
    ensures
        (forall|i: int| 0 <= i < present@.len() ==> !#[trigger] present@[i]) ==> r is Ok,
        (exists|i: int| 0 <= i < present@.len() && #[trigger] present@[i]) ==> r is Err,
        r matches Err(e) ==> exists|i: int| 0 <= i < present@.len() && #[trigger] present@[i]
            && (forall|j: int| 0 <= j < i ==> !present@[j])
            && (e matches DomainError::Conflict(m) && m@ == "全局技能已存在同名："@ + skills@[i].id@),
{
    for i in 0..present.len()
        invariant
            present@.len() == skills@.len(),
            forall|j: int| 0 <= j < i ==> !#[trigger] present@[j],
    {
        if present[i] {
            let mut m = chars_of("全局技能已存在同名：");
            extend_str(&mut m, skills[i].id.as_str());
            return Err(DomainError::Conflict(string_of(&m)));
        }
    }
    Ok(())
}

/// The files an installation writes, in order: `<id>.md` with the skill's
/// text (see [`skill_text`]), which carries its market repository.
pub fn install_files(skills: &Vec<Skill>) -> (r: Vec<(String, String)>)
    ensures
        r@.len() == skills@.len(),
        forall|i: int| 0 <= i < r@.len() ==> {
            let s = #[trigger] skills@[i];
            &&& r@[i].0@ == s.id@ + ".md"@
            &&& r@[i].1@ == skill_text(s.name@, s.description@, s.enabled, match s.market_repo {
                Some(m) => Some(m@),
                None => None,
            }, s.content@)
        },
{
    let mut out: Vec<(String, String)> = Vec::new();
    for i in 0..skills.len()
        invariant
            out@.len() == i,
            forall|k: int| 0 <= k < i ==> {
                let s = #[trigger] skills@[k];
                &&& out@[k].0@ == s.id@ + ".md"@
                &&& out@[k].1@ == skill_text(s.name@, s.description@, s.enabled, match s.market_repo {
                    Some(m) => Some(m@),
                    None => None,
                }, s.content@)
            },
    {
        let s = &skills[i];
        let mut name = chars_of(s.id.as_str());
        extend_str(&mut name, ".md");
        let market: Option<&str> = match &s.market_repo {
            Some(m) => Some(m.as_str()),
            None => None,
        };
        let text = serialize_skill(s.name.as_str(), s.description.as_str(), s.enabled, market, s.content.as_str());
        out.push((string_of(&name), text));
    }
    out
}

/// The error of a write that failed after `written` files were written
/// (and removed again).
pub fn rollback_error(written: usize, reason: &str) -> (e: DomainError)
    ensures
        e matches DomainError::Validation(m) && m@ == "写入技能文件失败（已回滚 "@ + crate::support::num::nat_text(written as nat) + " 个文件）："@ + reason@,
{
    let mut v = chars_of("写入技能文件失败（已回滚 ");
    let n = crate::support::num::usize_text(written);
    crate::text::extend_vec(&mut v, &n);
    extend_str(&mut v, " 个文件）：");
    extend_str(&mut v, reason);
    DomainError::Validation(string_of(&v))
}

/// `s` inserted after every skill whose id does not order after its id.
pub open spec fn insert_by_id(v: Seq<Skill>, s: Skill) -> Seq<Skill>
    decreases v.len(),
{
    if v.len() == 0 || !lex_lt(s.id@, v.last().id@) {
        v.push(s)
    } else {
        insert_by_id(v.drop_last(), s).push(v.last())
    }
}

/// Whether a directory entry is read as a skill: a `.md` file with a stem,
/// read without error.
pub open spec fn scan_entry_id(path: Seq<char>, read: Result<Seq<char>, Seq<char>>) -> Option<Seq<char>> {
    if extension_of(path) == Some("md"@) && read is Ok {
        file_stem_of(path)
    } else {
        None
    }
}

/// Whether the entry gives a skill (its id and text parse).
pub open spec fn scan_entry_ok(path: Seq<char>, read: Result<Seq<char>, Seq<char>>) -> bool {
    match scan_entry_id(path, read) {
        Some(id) => skill_id_invalid(id) is None && !is_blank(front_of(id, read->Ok_0).name),
        None => false,
    }
}

/// The skills of a directory's entries, in the order given (before
/// sorting).
pub open spec fn scanned(entries: Seq<(String, Result<String, String>)>) -> Seq<(Seq<char>, Seq<char>)>
    decreases entries.len(),
{
    if entries.len() == 0 {
        Seq::empty()
    } else {
        let e = entries.last();
        let rest = scanned(entries.drop_last());
        if scan_entry_ok(e.0@, read_view(e.1)) {
            rest.push((scan_entry_id(e.0@, read_view(e.1))->0, read_view(e.1)->Ok_0))
        } else {
            rest
        }
    }
}

/// Skills sorted by id, by insertion (stable).
pub open spec fn sorted_by_id(v: Seq<Skill>) -> Seq<Skill>
    decreases v.len(),
{
    if v.len() == 0 {
        v
    } else {
        insert_by_id(sorted_by_id(v.drop_last()), v.last())
    }
}

/// No skill's id orders before the id of one that comes earlier.
pub open spec fn skills_sorted(v: Seq<Skill>) -> bool {
    forall|i: int, j: int| 0 <= i < j < v.len() ==> !lex_lt(#[trigger] v[j].id@, #[trigger] v[i].id@)
}

proof fn lemma_insert_by_id(s: Seq<Skill>, x: Skill)
    ensures
        insert_by_id(s, x).to_multiset() =~= s.to_multiset().insert(x),
        skills_sorted(s) ==> skills_sorted(insert_by_id(s, x)),
    decreases s.len(),
{
    broadcast use vstd::seq_lib::group_to_multiset_ensures, vstd::multiset::group_multiset_axioms;
    let r = insert_by_id(s, x);
    if s.len() == 0 || !lex_lt(x.id@, s.last().id@) {
        if skills_sorted(s) && s.len() > 0 {
            assert forall|i: int, j: int| 0 <= i < j < r.len() implies !lex_lt(#[trigger] r[j].id@, #[trigger] r[i].id@) by {
                if j == s.len() {
                    lemma_lex_all(x.id@, s.last().id@, s[i].id@);
                    if i < s.len() - 1 {
                        assert(!lex_lt(s[s.len() - 1].id@, s[i].id@));
                    }
                } else {
                    assert(r[i] == s[i] && r[j] == s[j]);
                }
            }
        }
    } else {
        let p = s.drop_last();
        let l = s.last();
        lemma_insert_by_id(p, x);
        let q = insert_by_id(p, x);
        assert(s =~= p.push(l));
        assert(r == q.push(l));
        if skills_sorted(s) {
            assert(skills_sorted(p)) by {
                assert forall|i: int, j: int| 0 <= i < j < p.len() implies !lex_lt(#[trigger] p[j].id@, #[trigger] p[i].id@) by {
                    assert(p[i] == s[i] && p[j] == s[j]);
                }
            }
            assert forall|i: int, j: int| 0 <= i < j < r.len() implies !lex_lt(#[trigger] r[j].id@, #[trigger] r[i].id@) by {
                if j == q.len() {
                    let e = q[i];
                    assert(q.to_multiset().count(e) > 0);
                    if e == x {
                        lemma_lex_all(x.id@, l.id@, l.id@);
                    } else {
                        assert(p.to_multiset().count(e) > 0);
                        assert(p.contains(e));
                        let m = choose|m: int| 0 <= m < p.len() && p[m] == e;
                        assert(s[m] == e);
                        assert(!lex_lt(s[s.len() - 1].id@, s[m].id@));
                    }
                } else {
                    assert(r[i] == q[i] && r[j] == q[j]);
                }
            }
        }
    }
}

/// Sorting skills by id keeps them (with their multiplicity) and puts their
/// ids in ascending order.
pub proof fn lemma_sorted_by_id(v: Seq<Skill>)
    ensures
        sorted_by_id(v).to_multiset() =~= v.to_multiset(),
        skills_sorted(sorted_by_id(v)),
    decreases v.len(),
{
    broadcast use vstd::seq_lib::group_to_multiset_ensures, vstd::multiset::group_multiset_axioms;
    if v.len() > 0 {
        let p = v.drop_last();
        lemma_sorted_by_id(p);
        lemma_insert_by_id(sorted_by_id(p), v.last());
        assert(v =~= p.push(v.last()));
    }
}

fn copy_source(s: &SkillSource) -> (r: SkillSource)
    ensures
        r == *s,
{
    match s {
        SkillSource::Global => SkillSource::Global,
        SkillSource::Project => SkillSource::Project,
        SkillSource::Plugin(n) => SkillSource::Plugin(n.clone()),
    }
}

fn insert_skill(v: &mut Vec<Skill>, s: Skill)
    ensures
        final(v)@ == insert_by_id(old(v)@, s),
{
    let ghost s0 = old(v)@;
    let mut k = v.len();
    assert(s0.take(k as int) =~= s0);
    assert(s0 + s0.skip(k as int) =~= s0);
    while k > 0 && crate::text::str_lt(s.id.as_str(), v[k - 1].id.as_str())
        invariant
            k <= v.len(),
            v@ == s0,
            insert_by_id(s0, s) == insert_by_id(s0.take(k as int), s) + s0.skip(k as int),
        decreases k,
    {
        proof {
            let t = s0.take(k as int);
            assert(t.last() == s0[k - 1]);
            assert(t.drop_last() =~= s0.take(k - 1));
            assert(insert_by_id(s0.take(k - 1), s).push(s0[k - 1]) + s0.skip(k as int) =~= insert_by_id(s0.take(k - 1), s) + s0.skip(k - 1));
        }
        k = k - 1;
    }
    v.insert(k, s);
    assert(v@ =~= s0.take(k as int).push(s) + s0.skip(k as int));
}

/// The skills of a directory, given each entry's path and what reading it
/// gave: `.md` files whose id and text parse, sorted by id (entries with
/// equal ids keep their order). Files that do not parse are skipped.
pub fn scan_entries(entries: Vec<(String, Result<String, String>)>, source: SkillSource) -> (r: Vec<Skill>)
    ensures
        exists|ps: Seq<Skill>| {
            &&& ps.len() == scanned(entries@).len()
            &&& forall|k: int| 0 <= k < ps.len() ==> parsed_skill(#[trigger] ps[k], scanned(entries@)[k].0, scanned(entries@)[k].1, source)
            &&& r@ == sorted_by_id(ps)
        },
{
    let mut out: Vec<Skill> = Vec::new();
    let ghost mut ps: Seq<Skill> = Seq::empty();
    for i in 0..entries.len()
        invariant
            ps.len() == scanned(entries@.take(i as int)).len(),
            forall|k: int| 0 <= k < ps.len() ==> parsed_skill(#[trigger] ps[k], scanned(entries@.take(i as int))[k].0, scanned(entries@.take(i as int))[k].1, source),
            out@ == sorted_by_id(ps),
    {
        let path = entries[i].0.as_str();
        proof {
            assert(entries@.take(i + 1).drop_last() =~= entries@.take(i as int));
            assert(entries@.take(i + 1).last() == entries@[i as int]);
        }
        let is_md = match path_extension(path) {
            Some(e) => crate::text::str_eq(e.as_str(), "md"),
            None => false,
        };
        proof {
            reveal_strlit("md");
        }
        match &entries[i].1 {
            Ok(t) => {
                if is_md {
                    match path_file_stem(path) {
                        Some(id) => match parse_skill(id.as_str(), t.as_str(), copy_source(&source)) {
                            Ok(skill) => {
                                proof {
                                    assert(scan_entry_ok(entries@[i as int].0@, read_view(entries@[i as int].1)));
                                    assert(sorted_by_id(ps.push(skill)) == insert_by_id(sorted_by_id(ps), skill)) by {
                                        assert(ps.push(skill).drop_last() =~= ps);
                                    }
                                    ps = ps.push(skill);
                                }
                                insert_skill(&mut out, skill);
                            },
                            Err(_) => {
                                assert(!scan_entry_ok(entries@[i as int].0@, read_view(entries@[i as int].1)));
                            },
                        },
                        None => {},
                    }
                }
            },
            Err(_) => {},
        }
    }
    assert(entries@.take(entries.len() as int) =~= entries@);
    out
}

} // verus!
