//! Reading back a written skill file: the text [`skill_text`] writes reads
//! (by [`front_of`] and [`body_of`]) as the fields it was written from.
use vstd::prelude::*;

use crate::infra::fs::skill::{body_of, front_line, front_of, front_scan, from_byte, lines_of, skill_text, Front};
use crate::infra::mcp::{byte_len, utf8_len};
use crate::text::{
    first_index_of, is_ws, lemma_first_index_of, lemma_trim_first, lemma_trim_unchanged, lemma_trim_ws_prefix,
    lemma_trim_ws_suffix, trim,
};

verus! {

/// A field value that survives being written on a line of its own: it has
/// no line feed and no white space at either end.
pub open spec fn clean_value(s: Seq<char>) -> bool {
    trim(s) == s && !s.contains('\n')
}

proof fn lemma_first_index_is(s: Seq<char>, c: char, i: int)
    requires
        0 <= i < s.len(),
        s[i] == c,
        forall|k: int| 0 <= k < i ==> s[k] != c,
    ensures
        first_index_of(s, c) == Some(i),
{
    lemma_first_index_of(s, c);
}

proof fn lemma_lines_cons(line: Seq<char>, rest: Seq<char>)
    requires
        !line.contains('\n'),
        !(line.len() > 0 && line.last() == '\r'),
    ensures
        lines_of(line + seq!['\n'] + rest) == seq![line] + lines_of(rest),
{
    let t = line + seq!['\n'] + rest;
    assert forall|k: int| 0 <= k < line.len() implies t[k] != '\n' by {
        assert(t[k] == line[k]);
    }
    lemma_first_index_is(t, '\n', line.len() as int);
    assert(t.take(line.len() as int) =~= line);
    assert(t.skip(line.len() as int + 1) =~= rest);
}

proof fn lemma_byte_len_concat(a: Seq<char>, b: Seq<char>)
    ensures
        byte_len(a + b) == byte_len(a) + byte_len(b),
    decreases a.len(),
{
    if a.len() == 0 {
        assert(a + b =~= b);
    } else {
        assert((a + b).drop_first() =~= a.drop_first() + b);
        lemma_byte_len_concat(a.drop_first(), b);
    }
}

proof fn lemma_byte_len_take_step(t: Seq<char>, k: int)
    requires
        0 <= k < t.len(),
    ensures
        byte_len(t.take(k)) < byte_len(t.take(k + 1)),
{
    assert(t.take(k + 1) =~= t.take(k) + seq![t[k]]);
    lemma_byte_len_concat(t.take(k), seq![t[k]]);
    assert(seq![t[k]].drop_first() =~= Seq::<char>::empty());
}

proof fn lemma_byte_len_take_mono(t: Seq<char>, j: int, k: int)
    requires
        0 <= j < k <= t.len(),
    ensures
        byte_len(t.take(j)) < byte_len(t.take(k)),
    decreases k - j,
{
    lemma_byte_len_take_step(t, k - 1);
    if j < k - 1 {
        lemma_byte_len_take_mono(t, j, k - 1);
    }
}

proof fn lemma_from_byte_prefix(p: Seq<char>, r: Seq<char>)
    ensures
        from_byte(p + r, byte_len(p) as int) == Some(r),
{
    let t = p + r;
    let n = p.len() as int;
    assert(t.take(n) =~= p);
    assert(0 <= n <= t.len() && byte_len(t.take(n)) == byte_len(p));
    let k = choose|k: int| 0 <= k <= t.len() && byte_len(t.take(k)) == byte_len(p) as int;
    if k < n {
        lemma_byte_len_take_mono(t, k, n);
    } else if k > n {
        lemma_byte_len_take_mono(t, n, k);
    }
    assert(t.skip(n) =~= r);
}

/// A `key: value` line: the first `:` ends the key, and the trimmed parts
/// are the key and the value.
proof fn lemma_key_line(key: Seq<char>, value: Seq<char>)
    requires
        key.len() > 0,
        !key.contains(':'),
        !is_ws(key[0]),
        !is_ws(key.last()),
        trim(value) == value,
    ensures
        first_index_of(key + seq![':', ' '] + value, ':') == Some(key.len() as int),
        trim((key + seq![':', ' '] + value).take(key.len() as int)) == key,
        trim((key + seq![':', ' '] + value).skip(key.len() as int + 1)) == value,
        trim(key + seq![':', ' '] + value).len() > 0,
        trim(key + seq![':', ' '] + value)[0] == key[0],
{
    let line = key + seq![':', ' '] + value;
    assert forall|k: int| 0 <= k < key.len() implies line[k] != ':' by {
        assert(line[k] == key[k]);
    }
    lemma_first_index_is(line, ':', key.len() as int);
    assert(line.take(key.len() as int) =~= key);
    lemma_trim_unchanged(key);
    assert(line.skip(key.len() as int + 1) =~= seq![' '] + value);
    lemma_trim_ws_prefix(' ', value);
    assert(line[0] == key[0]);
    lemma_trim_first(line);
}

proof fn lemma_line_ok(key: Seq<char>, value: Seq<char>)
    requires
        !key.contains('\n'),
        key.len() > 0,
        clean_value(value),
    ensures
        !(key + seq![':', ' '] + value).contains('\n'),
        !((key + seq![':', ' '] + value).len() > 0 && (key + seq![':', ' '] + value).last() == '\r'),
{
    let line = key + seq![':', ' '] + value;
    assert forall|k: int| 0 <= k < line.len() implies line[k] != '\n' by {
        if k < key.len() {
            assert(line[k] == key[k]);
        } else if k >= key.len() + 2 {
            assert(line[k] == value[k - key.len() - 2]);
        }
    }
    if value.len() > 0 {
        assert(line.last() == value.last());
        assert(!is_ws(value.last())) by {
            if is_ws(value.last()) {
                assert(trim(value).len() < value.len()) by {
                    crate::text::lemma_trim_end_index(crate::text::trim_start(value));
                    assert(crate::text::trim_end(crate::text::trim_start(value)).len() <= crate::text::trim_start(value).len());
                    lemma_trim_start_len(value);
                    if crate::text::trim_start(value).len() == value.len() {
                        lemma_trim_start_same(value);
                        assert(crate::text::trim_start(value) == value);
                        assert(crate::text::trim_end(value) == crate::text::trim_end(value.drop_last()));
                        crate::text::lemma_trim_end_index(value.drop_last());
                    }
                }
            }
        }
    }
}

proof fn lemma_trim_start_len(s: Seq<char>)
    ensures
        crate::text::trim_start(s).len() <= s.len(),
    decreases s.len(),
{
    if s.len() > 0 && is_ws(s[0]) {
        lemma_trim_start_len(s.drop_first());
    }
}

proof fn lemma_trim_start_same(s: Seq<char>)
    requires
        crate::text::trim_start(s).len() == s.len(),
    ensures
        crate::text::trim_start(s) == s,
    decreases s.len(),
{
    if s.len() > 0 && is_ws(s[0]) {
        lemma_trim_start_len(s.drop_first());
    }
}

/// The lines joined, each followed by a line feed.
pub open spec fn joined_lines(ls: Seq<Seq<char>>) -> Seq<char>
    decreases ls.len(),
{
    if ls.len() == 0 {
        Seq::empty()
    } else {
        ls[0] + seq!['\n'] + joined_lines(ls.drop_first())
    }
}

/// A line that reads back as itself: no line feed, no final carriage
/// return.
pub open spec fn plain_line(l: Seq<char>) -> bool {
    !l.contains('\n') && !(l.len() > 0 && l.last() == '\r')
}

/// The front matter lines applied in order.
pub open spec fn front_fold(st: Front, ls: Seq<Seq<char>>) -> Front
    decreases ls.len(),
{
    if ls.len() == 0 {
        st
    } else {
        front_fold(front_line(st, ls[0]), ls.drop_first())
    }
}

proof fn lemma_joined_lines(ls: Seq<Seq<char>>, rest: Seq<char>)
    requires
        forall|i: int| 0 <= i < ls.len() ==> plain_line(#[trigger] ls[i]),
    ensures
        lines_of(joined_lines(ls) + rest) == ls + lines_of(rest),
    decreases ls.len(),
{
    if ls.len() > 0 {
        let t = ls.drop_first();
        assert forall|i: int| 0 <= i < t.len() implies plain_line(#[trigger] t[i]) by {
            assert(t[i] == ls[i + 1]);
        }
        lemma_joined_lines(t, rest);
        assert(plain_line(ls[0]));
        lemma_lines_cons(ls[0], joined_lines(t) + rest);
        assert(joined_lines(ls) + rest =~= ls[0] + seq!['\n'] + (joined_lines(t) + rest));
        assert(seq![ls[0]] + (t + lines_of(rest)) =~= ls + lines_of(rest));
    }
}

proof fn lemma_byte_len_nl()
    ensures
        byte_len(seq!['\n']) == 1,
{
    let one = seq!['\n'];
    assert(one.len() == 1);
    assert(one.drop_first() =~= Seq::<char>::empty());
    assert(byte_len(one.drop_first()) == 0);
    assert(utf8_len(one[0]) == 1);
}

proof fn lemma_fold_offset(ls: Seq<Seq<char>>, st: Front)
    ensures
        front_fold(st, ls).offset == st.offset + byte_len(joined_lines(ls)),
    decreases ls.len(),
{
    if ls.len() > 0 {
        let t = ls.drop_first();
        lemma_fold_offset(t, front_line(st, ls[0]));
        lemma_byte_len_concat(ls[0], seq!['\n']);
        lemma_byte_len_concat(ls[0] + seq!['\n'], joined_lines(t));
        assert(seq!['\n'].drop_first() =~= Seq::<char>::empty());
        lemma_byte_len_nl();
        assert(front_line(st, ls[0]).offset == st.offset + byte_len(ls[0]) + 1);
        assert(joined_lines(ls) == ls[0] + seq!['\n'] + joined_lines(t));
    }
}


/// The front matter delimiter, `---`.
pub open spec fn dash() -> Seq<char> {
    seq!['-', '-', '-']
}

/// A `key: value` line.
pub open spec fn field_line(key: Seq<char>, value: Seq<char>) -> Seq<char> {
    key + seq![':', ' '] + value
}

/// How the enabled flag is written.
pub open spec fn enabled_text(enabled: bool) -> Seq<char> {
    if enabled {
        seq!['t', 'r', 'u', 'e']
    } else {
        seq!['f', 'a', 'l', 's', 'e']
    }
}

/// The front matter lines written for a skill.
pub open spec fn field_lines(name: Seq<char>, description: Seq<char>, enabled: bool, market: Option<Seq<char>>) -> Seq<Seq<char>> {
    seq![
        field_line(seq!['n', 'a', 'm', 'e'], name),
        field_line(seq!['d', 'e', 's', 'c', 'r', 'i', 'p', 't', 'i', 'o', 'n'], description),
        field_line(seq!['e', 'n', 'a', 'b', 'l', 'e', 'd'], enabled_text(enabled)),
    ] + match market {
        Some(m) => seq![field_line(seq!['m', 'a', 'r', 'k', 'e', 't'], m)],
        None => Seq::empty(),
    }
}

proof fn lemma_dash_bytes()
    ensures
        byte_len(dash()) == 3,
        trim(dash()) == dash(),
{
    let d = dash();
    assert(d.drop_first().drop_first().drop_first() =~= Seq::<char>::empty());
    assert(byte_len(d.drop_first().drop_first().drop_first()) == 0);
    assert(utf8_len('-') == 1);
    assert(d.drop_first().drop_first()[0] == '-');
    assert(byte_len(d.drop_first().drop_first()) == 1);
    assert(d.drop_first()[0] == '-');
    assert(byte_len(d.drop_first()) == 2);
    lemma_trim_unchanged(d);
}

proof fn lemma_scan_to_close(st: Front, ls: Seq<Seq<char>>, more: Seq<Seq<char>>)
    requires
        forall|i: int| 0 <= i < ls.len() ==> trim(#[trigger] ls[i]) != dash(),
    ensures
        front_scan(st, ls + seq![dash()] + more) == (Front { body_start: front_fold(st, ls).offset + 4, ..front_fold(st, ls) }),
    decreases ls.len(),
{
    lemma_dash_bytes();
    reveal_strlit("---");
    assert(dash() =~= "---"@);
    if ls.len() == 0 {
        assert(ls + seq![dash()] + more =~= seq![dash()] + more);
    } else {
        let t = ls.drop_first();
        assert forall|i: int| 0 <= i < t.len() implies trim(#[trigger] t[i]) != dash() by {
            assert(t[i] == ls[i + 1]);
        }
        lemma_scan_to_close(front_line(st, ls[0]), t, more);
        assert((ls + seq![dash()] + more).drop_first() =~= t + seq![dash()] + more);
        assert((ls + seq![dash()] + more)[0] == ls[0]);
    }
}

proof fn lemma_fold_fields(st: Front, name: Seq<char>, description: Seq<char>, enabled: bool, market: Option<Seq<char>>)
    requires
        clean_value(name),
        clean_value(description),
        market matches Some(m) ==> clean_value(m) && m.len() > 0,
        st.market is None,
    ensures
        front_fold(st, field_lines(name, description, enabled, market)).name == name,
        front_fold(st, field_lines(name, description, enabled, market)).description == description,
        front_fold(st, field_lines(name, description, enabled, market)).enabled == enabled,
        front_fold(st, field_lines(name, description, enabled, market)).market == market,
        forall|i: int| 0 <= i < field_lines(name, description, enabled, market).len()
            ==> trim(#[trigger] field_lines(name, description, enabled, market)[i]) != dash(),
        forall|i: int| 0 <= i < field_lines(name, description, enabled, market).len()
            ==> plain_line(#[trigger] field_lines(name, description, enabled, market)[i]),
{
    reveal_strlit("name");
    reveal_strlit("description");
    reveal_strlit("enabled");
    reveal_strlit("market");
    reveal_strlit("false");
    let k_name = seq!['n', 'a', 'm', 'e'];
    let k_desc = seq!['d', 'e', 's', 'c', 'r', 'i', 'p', 't', 'i', 'o', 'n'];
    let k_en = seq!['e', 'n', 'a', 'b', 'l', 'e', 'd'];
    let k_mk = seq!['m', 'a', 'r', 'k', 'e', 't'];
    assert(k_name =~= "name"@);
    assert(k_desc =~= "description"@);
    assert(k_en =~= "enabled"@);
    assert(k_mk =~= "market"@);
    let ev = enabled_text(enabled);
    assert(ev == "false"@ <==> !enabled) by {
        if enabled {
            assert(ev.len() != "false"@.len());
        } else {
            assert(ev =~= "false"@);
        }
    }
    lemma_trim_unchanged(ev);
    assert(!ev.contains('\n'));
    lemma_key_line(k_name, name);
    lemma_key_line(k_desc, description);
    lemma_key_line(k_en, ev);
    lemma_line_ok(k_name, name);
    lemma_line_ok(k_desc, description);
    lemma_line_ok(k_en, ev);
    let fl = field_lines(name, description, enabled, market);
    let s1 = front_line(st, fl[0]);
    let s2 = front_line(s1, fl[1]);
    let s3 = front_line(s2, fl[2]);
    assert(s1.name == name && s1.market is None);
    assert(s2.name == name && s2.description == description && s2.market is None);
    assert(s3.name == name && s3.description == description && s3.enabled == enabled && s3.market is None);
    assert(fl.drop_first()[0] == fl[1]);
    assert(fl.drop_first().drop_first()[0] == fl[2]);
    assert(front_fold(st, fl) == front_fold(s1, fl.drop_first()));
    assert(front_fold(s1, fl.drop_first()) == front_fold(s2, fl.drop_first().drop_first()));
    assert(front_fold(s2, fl.drop_first().drop_first()) == front_fold(s3, fl.drop_first().drop_first().drop_first()));
    match market {
        Some(m) => {
            lemma_key_line(k_mk, m);
            lemma_line_ok(k_mk, m);
            let s4 = front_line(s3, fl[3]);
            assert(s4.name == name && s4.description == description && s4.enabled == enabled && s4.market == Some(m));
            assert(fl.drop_first().drop_first().drop_first()[0] == fl[3]);
            assert(fl.drop_first().drop_first().drop_first().drop_first() =~= Seq::<Seq<char>>::empty());
            assert(front_fold(s3, fl.drop_first().drop_first().drop_first())
                == front_fold(s4, fl.drop_first().drop_first().drop_first().drop_first()));
            assert(front_fold(s4, Seq::<Seq<char>>::empty()) == s4);
        },
        None => {
            assert(fl.drop_first().drop_first().drop_first() =~= Seq::<Seq<char>>::empty());
            assert(front_fold(s3, Seq::<Seq<char>>::empty()) == s3);
        },
    }
    assert forall|i: int| 0 <= i < fl.len() implies trim(#[trigger] fl[i]) != dash() by {
        if i == 0 {
            assert(trim(fl[0])[0] == 'n');
        } else if i == 1 {
            assert(trim(fl[1])[0] == 'd');
        } else if i == 2 {
            assert(trim(fl[2])[0] == 'e');
        } else {
            let m = market->0;
            lemma_key_line(k_mk, m);
            assert(trim(fl[3])[0] == 'm');
        }
        assert(dash()[0] == '-');
    }
    assert forall|i: int| 0 <= i < fl.len() implies plain_line(#[trigger] fl[i]) by {
        if i == 3 {
            lemma_line_ok(k_mk, market->0);
        }
    }
}


#[verifier::rlimit(60)]
#[verifier::spinoff_prover]
proof fn lemma_skill_layout(name: Seq<char>, description: Seq<char>, enabled: bool, market: Option<Seq<char>>, content: Seq<char>)
    ensures
        skill_text(name, description, enabled, market, content)
            == dash() + seq!['\n'] + joined_lines(field_lines(name, description, enabled, market)) + dash() + seq!['\n']
            + (content + seq!['\n']),
{
    reveal_strlit("---\nname: ");
    reveal_strlit("\ndescription: ");
    reveal_strlit("\nenabled: ");
    reveal_strlit("true");
    reveal_strlit("false");
    reveal_strlit("\n");
    reveal_strlit("market: ");
    reveal_strlit("---\n");
    let nl = seq!['\n'];
    let fl = field_lines(name, description, enabled, market);
    let t1 = fl.drop_first();
    let t2 = t1.drop_first();
    let t3 = t2.drop_first();
    assert(t1[0] == fl[1] && t2[0] == fl[2]);
    let tail3 = match market {
        Some(m) => {
            assert(t3[0] == fl[3]);
            assert(t3.drop_first() =~= Seq::<Seq<char>>::empty());
            assert(joined_lines(t3.drop_first()) =~= Seq::<char>::empty());
            fl[3] + nl
        },
        None => {
            assert(t3 =~= Seq::<Seq<char>>::empty());
            Seq::<char>::empty()
        },
    };
    assert(joined_lines(t3) =~= tail3);
    assert(joined_lines(t2) == fl[2] + nl + joined_lines(t3));
    assert(joined_lines(t1) == fl[1] + nl + joined_lines(t2));
    assert(joined_lines(fl) == fl[0] + nl + joined_lines(t1));
    assert(enabled_text(enabled) =~= (if enabled { "true"@ } else { "false"@ }));
    assert(skill_text(name, description, enabled, market, content)
        =~= dash() + nl + joined_lines(fl) + dash() + nl + (content + nl));
}

/// Reading the text written for a skill gives back its name, description,
/// enabled flag, market repository and template, provided each field
/// survives being written: single-line values without surrounding white
/// space (a market repository not empty), and a template without
/// surrounding white space.
#[verifier::rlimit(40)]
#[verifier::spinoff_prover]
pub proof fn lemma_skill_text_roundtrip(
    id: Seq<char>,
    name: Seq<char>,
    description: Seq<char>,
    enabled: bool,
    market: Option<Seq<char>>,
    content: Seq<char>,
)
    requires
        clean_value(name),
        clean_value(description),
        market matches Some(m) ==> clean_value(m) && m.len() > 0,
        trim(content) == content,
    ensures
        front_of(id, skill_text(name, description, enabled, market, content)).name == name,
        front_of(id, skill_text(name, description, enabled, market, content)).description == description,
        front_of(id, skill_text(name, description, enabled, market, content)).enabled == enabled,
        front_of(id, skill_text(name, description, enabled, market, content)).market == market,
        body_of(id, skill_text(name, description, enabled, market, content)) == content,
{
    let nl = seq!['\n'];
    let fl = field_lines(name, description, enabled, market);
    let r6 = content + nl;
    let text = skill_text(name, description, enabled, market, content);
    lemma_skill_layout(name, description, enabled, market, content);
    let init = Front { name: id, description: Seq::empty(), enabled: true, market: None, offset: 4, body_start: 0 };
    lemma_fold_fields(init, name, description, enabled, market);
    lemma_dash_bytes();
    assert(plain_line(dash()));
    lemma_lines_cons(dash(), r6);
    lemma_joined_lines(fl, dash() + nl + r6);
    lemma_lines_cons(dash(), joined_lines(fl) + dash() + nl + r6);
    assert(text =~= dash() + nl + (joined_lines(fl) + (dash() + nl + r6)));
    assert(joined_lines(fl) + dash() + nl + r6 =~= joined_lines(fl) + (dash() + nl + r6));
    let ls = lines_of(text);
    assert(ls =~= seq![dash()] + (fl + (seq![dash()] + lines_of(r6))));
    reveal_strlit("---");
    assert(dash() =~= "---"@);
    assert(trim(ls[0]) == "---"@);
    assert(ls.drop_first() =~= fl + seq![dash()] + lines_of(r6));
    lemma_scan_to_close(init, fl, lines_of(r6));
    lemma_fold_offset(fl, init);
    let f = front_of(id, text);
    assert(f == (Front { body_start: front_fold(init, fl).offset + 4, ..front_fold(init, fl) }));
    let prefix = dash() + nl + joined_lines(fl) + dash() + nl;
    assert(text =~= prefix + r6);
    lemma_byte_len_nl();
    lemma_byte_len_concat(dash(), nl);
    lemma_byte_len_concat(dash() + nl, joined_lines(fl));
    lemma_byte_len_concat(dash() + nl + joined_lines(fl), dash());
    lemma_byte_len_concat(dash() + nl + joined_lines(fl) + dash(), nl);
    assert(f.body_start == byte_len(prefix));
    lemma_from_byte_prefix(prefix, r6);
    lemma_trim_ws_suffix(content, '\n');
    assert(r6 =~= content.push('\n'));
}

} // verus!
