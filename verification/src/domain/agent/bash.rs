//! Syntax-level analysis of Bash command lines for the built-in deny list:
//! the command is cut into segments at `;`, `|` and `&` outside quotes, each
//! segment is split into words, transparent prefixes and leading assignments
//! are stripped, and the program that remains is judged.
use vstd::prelude::*;

use crate::domain::shared::words::{is_quote, split_words, vec_views, word_init, word_state, word_step, words_of, WordState};
use crate::text::{
    chars_of, contains_str, eq_str, has_infix, has_prefix, is_blank, is_blank_vec, is_whitespace,
    is_ws, starts_with_str, trim, trim_vec, string_of, lemma_trim_unchanged,
};

verus! {

/// Segment splitter state: finished (non-blank) segments, the segment being
/// built, and the open quote.
pub struct SegState {
    pub segs: Seq<Seq<char>>,
    pub cur: Seq<char>,
    pub quote: Option<char>,
}

/// Command separators (`&&` and `||` cut twice, leaving a blank segment).
pub open spec fn is_separator(c: char) -> bool {
    c == ';' || c == '|' || c == '&'
}

/// A finished segment is kept unless it is blank.
pub open spec fn keep_segment(segs: Seq<Seq<char>>, cur: Seq<char>) -> Seq<Seq<char>> {
    if is_blank(cur) {
        segs
    } else {
        segs.push(cur)
    }
}

/// One character of input; quotes stay in the segment text.
pub open spec fn seg_step(st: SegState, c: char) -> SegState {
    match st.quote {
        Some(q) => SegState {
            cur: st.cur.push(c),
            quote: if c == q {
                None
            } else {
                Some(q)
            },
            ..st
        },
        None => if is_quote(c) {
            SegState { cur: st.cur.push(c), quote: Some(c), ..st }
        } else if is_separator(c) {
            SegState { segs: keep_segment(st.segs, st.cur), cur: Seq::empty(), quote: None }
        } else {
            SegState { cur: st.cur.push(c), ..st }
        },
    }
}

/// State after reading all of `s`.
pub open spec fn seg_state(s: Seq<char>) -> SegState
    decreases s.len(),
{
    if s.len() == 0 {
        SegState { segs: Seq::empty(), cur: Seq::empty(), quote: None }
    } else {
        seg_step(seg_state(s.drop_last()), s.last())
    }
}

/// The non-blank segments of a command line.
pub open spec fn shell_segments(s: Seq<char>) -> Seq<Seq<char>> {
    let st = seg_state(s);
    keep_segment(st.segs, st.cur)
}

/// Cuts `cmd` into segments at `;`, `|` and `&` outside quotes, dropping
/// blank segments (see [`shell_segments`]).
pub fn split_shell_segments(cmd: &str) -> (out: Vec<String>)
    ensures
        out@.map_values(|x: String| x@) == shell_segments(cmd@),
{
    let s = chars_of(cmd);
    let mut segs: Vec<String> = Vec::new();
    let mut cur: Vec<char> = Vec::new();
    let mut quote: Option<char> = None;
    assert(s@.take(0) =~= Seq::<char>::empty());
    assert(segs@.map_values(|x: String| x@) =~= Seq::<Seq<char>>::empty());
    for i in 0..s.len()
        invariant
            s@ == cmd@,
            seg_state(s@.take(i as int)) == (SegState {
                segs: segs@.map_values(|x: String| x@),
                cur: cur@,
                quote,
            }),
    {
        let c = s[i];
        proof {
            assert(s@.take(i + 1).drop_last() =~= s@.take(i as int));
            assert(s@.take(i + 1).last() == c);
        }
        match quote {
            Some(q) => {
                cur.push(c);
                if c == q {
                    quote = None;
                }
            },
            None => {
                if c == '"' || c == '\'' {
                    quote = Some(c);
                    cur.push(c);
                } else if c == ';' || c == '|' || c == '&' {
                    if !is_blank_vec(&cur) {
                        let ghost before = segs@;
                        segs.push(string_of(&cur));
                        assert(segs@.map_values(|x: String| x@) =~= before.map_values(
                            |x: String| x@,
                        ).push(cur@));
                    }
                    cur = Vec::new();
                } else {
                    cur.push(c);
                }
            },
        }
    }
    assert(s@.take(s.len() as int) =~= s@);
    if !is_blank_vec(&cur) {
        let ghost before = segs@;
        segs.push(string_of(&cur));
        assert(segs@.map_values(|x: String| x@) =~= before.map_values(|x: String| x@).push(
            cur@,
        ));
    }
    segs
}

/// Splits a segment into words; quotes group and are dropped (see
/// [`words_of`]).
pub fn tokenize(seg: &str) -> (out: Vec<String>)
    ensures
        out@.map_values(|x: String| x@) == words_of(seg@),
{
    let s = chars_of(seg);
    let w = split_words(&s);
    let mut out: Vec<String> = Vec::new();
    for i in 0..w.len()
        invariant
            out@.map_values(|x: String| x@) == vec_views(w@).take(i as int),
    {
        let ghost before = out@;
        out.push(string_of(&w[i]));
        assert(out@.map_values(|x: String| x@) =~= before.map_values(|x: String| x@).push(
            w@[i as int]@,
        ));
        assert(vec_views(w@).take(i + 1) =~= vec_views(w@).take(i as int).push(w@[i as int]@));
    }
    assert(vec_views(w@).take(w.len() as int) =~= vec_views(w@));
    out
}

/// A leading `NAME=value` assignment (not an option such as `--x=1`).
pub open spec fn is_assignment(t: Seq<char>) -> bool {
    t.contains('=') && !has_prefix(t, "-"@)
}

/// Prefixes that run the command that follows them.
pub open spec fn is_transparent(t: Seq<char>) -> bool {
    t == "sudo"@ || t == "doas"@ || t == "nohup"@ || t == "env"@ || t == "command"@
}

/// An option word (`-x`, `--x`), not a lone `-`.
pub open spec fn is_option(t: Seq<char>) -> bool {
    has_prefix(t, "-"@) && t.len() > 1
}

/// A word taken as the value of a prefix's option (`sudo -u admin`): neither
/// an option nor a program the deny list looks for.
pub open spec fn is_option_value(t: Seq<char>) -> bool {
    !has_prefix(t, "-"@) && t != "rm"@ && !has_prefix(t, "mkfs"@)
}

/// After a transparent prefix: one option and, possibly, its value.
pub open spec fn skip_prefix_option(u: Seq<Seq<char>>) -> Seq<Seq<char>> {
    if u.len() > 0 && is_option(u[0]) {
        let v = u.drop_first();
        if v.len() > 0 && is_option_value(v[0]) {
            v.drop_first()
        } else {
            v
        }
    } else {
        u
    }
}

/// The words with leading assignments and transparent prefixes (each with
/// one option and its value) removed, alternately, as long as any lead.
pub open spec fn strip_prefixes(t: Seq<Seq<char>>) -> Seq<Seq<char>>
    decreases t.len(),
{
    if t.len() == 0 {
        t
    } else if is_assignment(t[0]) {
        strip_prefixes(t.drop_first())
    } else if is_transparent(t[0]) {
        strip_prefixes(skip_prefix_option(t.drop_first()))
    } else {
        t
    }
}

/// A deletion target naming the root or the home directory, or a bare
/// wildcard in one of them (trailing slashes ignored; empty means `/`).
pub open spec fn rm_target_norm(t: Seq<char>) -> Seq<char> {
    let n = strip_trailing_slashes(trim(t));
    if n.len() == 0 {
        "/"@
    } else {
        n
    }
}

/// `s` without its trailing `/` characters.
pub open spec fn strip_trailing_slashes(s: Seq<char>) -> Seq<char>
    decreases s.len(),
{
    if s.len() > 0 && s.last() == '/' {
        strip_trailing_slashes(s.drop_last())
    } else {
        s
    }
}

/// Whether deleting `t` is refused.
pub open spec fn is_dangerous_target(t: Seq<char>) -> bool {
    let n = rm_target_norm(t);
    ||| n == "/"@
    ||| n == "~"@
    ||| n == "$HOME"@
    ||| n == "${HOME}"@
    ||| n == "/*"@
    ||| n == "~/*"@
    ||| n == "$HOME/*"@
    ||| n == "${HOME}/*"@
}

/// Whether argument `i` of `rm` is a target: every word after a `--`, and
/// before it every word that is not an option.
pub open spec fn rm_target_at(args: Seq<Seq<char>>, i: int) -> bool {
    (exists|j: int| 0 <= j < i && args[j] == "--"@) || !is_option(args[i])
}

/// Whether some target of `rm` is dangerous.
pub open spec fn rm_dangerous(args: Seq<Seq<char>>) -> bool {
    exists|i: int| 0 <= i < args.len() && rm_target_at(args, i) && is_dangerous_target(#[trigger] args[i])
}

/// Whether a segment runs a refused command: `rm` with a dangerous target, or
/// `mkfs` / `mkfs.*`.
pub open spec fn segment_is_dangerous(seg: Seq<char>) -> bool {
    let t = strip_prefixes(words_of(seg));
    if t.len() == 0 {
        false
    } else if t[0] == "rm"@ {
        rm_dangerous(t.drop_first())
    } else {
        t[0] == "mkfs"@ || has_prefix(t[0], "mkfs."@)
    }
}

/// A plain word: not empty, with no white space and no quote.
pub open spec fn plain_word(p: Seq<char>) -> bool {
    p.len() > 0 && forall|i: int| 0 <= i < p.len() ==> !is_ws(#[trigger] p[i]) && !is_quote(p[i])
}

proof fn lemma_word_state_plain(p: Seq<char>)
    requires
        forall|i: int| 0 <= i < p.len() ==> !is_ws(#[trigger] p[i]) && !is_quote(p[i]),
    ensures
        word_state(p) == (WordState { words: Seq::empty(), cur: p, quote: None, started: p.len() > 0 }),
    decreases p.len(),
{
    if p.len() > 0 {
        let q = p.drop_last();
        assert forall|i: int| 0 <= i < q.len() implies !is_ws(#[trigger] q[i]) && !is_quote(q[i]) by {
            assert(q[i] == p[i]);
        }
        lemma_word_state_plain(q);
        assert(!is_ws(p[p.len() - 1]) && !is_quote(p[p.len() - 1]));
        assert(word_state(p) == word_step(word_state(q), p.last()));
        assert(q.push(p.last()) =~= p);
        assert(word_state(p).cur =~= p);
    } else {
        assert(p =~= Seq::<char>::empty());
    }
}

proof fn lemma_word_state_after(x: Seq<char>, s: Seq<char>)
    requires
        word_state(x).cur.len() == 0,
        word_state(x).quote is None,
        !word_state(x).started,
    ensures
        word_state(x + s) == (WordState { words: word_state(x).words + word_state(s).words, ..word_state(s) }),
    decreases s.len(),
{
    if s.len() == 0 {
        assert(x + s =~= x);
        assert(word_state(x).words + Seq::<Seq<char>>::empty() =~= word_state(x).words);
        assert(word_state(x).cur =~= Seq::<char>::empty());
    } else {
        lemma_word_state_after(x, s.drop_last());
        assert((x + s).drop_last() =~= x + s.drop_last());
        assert((x + s).last() == s.last());
        let w = word_state(x).words;
        let st = word_state(s.drop_last());
        let c = s.last();
        let a = word_state(x + s.drop_last());
        assert(a == (WordState { words: w + st.words, ..st }));
        assert(word_state(x + s) == word_step(a, c));
        assert(word_state(s) == word_step(st, c));
        if st.quote is None && !is_quote(c) && is_ws(c) && (st.started || st.cur.len() > 0) {
            assert(w + st.words.push(st.cur) =~= (w + st.words).push(st.cur));
        }
    }
}

/// The words of a plain word, a space and a segment: the word, then the
/// segment's words.
proof fn lemma_words_after_plain(p: Seq<char>, seg: Seq<char>)
    requires
        plain_word(p),
    ensures
        words_of(p + " "@ + seg) == seq![p] + words_of(seg),
{
    reveal_strlit(" ");
    lemma_word_state_plain(p);
    let x = p + " "@;
    assert(x.drop_last() =~= p);
    assert(x.last() == ' ');
    assert(is_ws(' '));
    assert(word_state(x).words =~= seq![p]);
    lemma_word_state_after(x, seg);
    let ws = word_state(seg);
    if ws.started || ws.cur.len() > 0 {
        assert(seq![p] + ws.words.push(ws.cur) =~= seq![p] + ws.words.push(ws.cur));
        assert((seq![p] + ws.words).push(ws.cur) =~= seq![p] + ws.words.push(ws.cur));
    }
}

/// A transparent prefix (`sudo`, `doas`, `nohup`, `env`, `command`) or a
/// leading `NAME=value` assignment in front of a segment never changes the
/// verdict on it, provided the segment does not start with an option (which
/// the prefix would take as its own).
pub proof fn lemma_prefix_keeps_verdict(p: Seq<char>, seg: Seq<char>)
    requires
        plain_word(p),
        is_transparent(p) || is_assignment(p),
        words_of(seg).len() == 0 || !is_option(words_of(seg)[0]),
    ensures
        segment_is_dangerous(p + " "@ + seg) == segment_is_dangerous(seg),
{
    lemma_words_after_plain(p, seg);
    let t = words_of(seg);
    let u = seq![p] + t;
    assert(u.drop_first() =~= t);
    assert(u[0] == p);
    if !is_assignment(p) {
        assert(skip_prefix_option(t) == t);
    }
}

/// `s` with all white space removed.
pub open spec fn squeeze(s: Seq<char>) -> Seq<char>
    decreases s.len(),
{
    if s.len() == 0 {
        s
    } else if is_ws(s.last()) {
        squeeze(s.drop_last())
    } else {
        squeeze(s.drop_last()).push(s.last())
    }
}

/// Whether a Bash command line is refused: the fork bomb anywhere (white space
/// ignored), or a dangerous segment.
pub open spec fn bash_is_dangerous(cmd: Seq<char>) -> bool {
    ||| has_infix(squeeze(cmd), ":(){:|:&};:"@)
    ||| exists|k: int| 0 <= k < shell_segments(cmd).len() && segment_is_dangerous(
        #[trigger] shell_segments(cmd)[k],
    )
}

/// `n` slashes.
pub open spec fn slashes(n: nat) -> Seq<char> {
    Seq::new(n, |_i: int| '/')
}

proof fn lemma_strip_slashes_after(t: Seq<char>, n: nat)
    ensures
        strip_trailing_slashes(t + slashes(n)) == strip_trailing_slashes(t),
    decreases n,
{
    if n == 0 {
        assert(t + slashes(0) =~= t);
    } else {
        let m = (n - 1) as nat;
        assert((t + slashes(n)).drop_last() =~= t + slashes(m));
        assert((t + slashes(n)).last() == '/');
        lemma_strip_slashes_after(t, m);
    }
}

proof fn lemma_seg_state_plain(s: Seq<char>)
    requires
        forall|i: int| 0 <= i < s.len() ==> !is_separator(#[trigger] s[i]) && !is_quote(s[i]),
    ensures
        seg_state(s) == (SegState { segs: Seq::empty(), cur: s, quote: None }),
    decreases s.len(),
{
    if s.len() > 0 {
        let q = s.drop_last();
        assert forall|i: int| 0 <= i < q.len() implies !is_separator(#[trigger] q[i]) && !is_quote(q[i]) by {
            assert(q[i] == s[i]);
        }
        lemma_seg_state_plain(q);
        assert(!is_separator(s[s.len() - 1]) && !is_quote(s[s.len() - 1]));
        assert(q.push(s.last()) =~= s);
    } else {
        assert(s =~= Seq::<char>::empty());
    }
}

/// `rm -rf` of the root directory, of the home directory (written `~`,
/// `$HOME` or `${HOME}`), or of a bare wildcard in one of them, followed by
/// any number of slashes, is a dangerous command line.
pub proof fn lemma_rm_root_or_home_dangerous(t: Seq<char>, n: nat)
    requires
        t == "/"@ || t == "/*"@ || t == "~"@ || t == "~/*"@ || t == "$HOME"@ || t == "$HOME/*"@
            || t == "${HOME}"@ || t == "${HOME}/*"@,
    ensures
        bash_is_dangerous("rm -rf "@ + t + slashes(n)),
{
    reveal_strlit("/");
    reveal_strlit("/*");
    reveal_strlit("~");
    reveal_strlit("~/*");
    reveal_strlit("$HOME");
    reveal_strlit("$HOME/*");
    reveal_strlit("${HOME}");
    reveal_strlit("${HOME}/*");
    reveal_strlit("rm -rf ");
    reveal_strlit("rm");
    reveal_strlit("-rf");
    reveal_strlit(" ");
    reveal_strlit("-");
    reveal_strlit("sudo");
    reveal_strlit("doas");
    reveal_strlit("nohup");
    reveal_strlit("env");
    reveal_strlit("command");
    let x = t + slashes(n);
    let cmd = "rm -rf "@ + x;
    assert(forall|i: int| 0 <= i < t.len() ==> !is_ws(#[trigger] t[i]) && !is_quote(t[i]) && !is_separator(t[i]) && t[i] != '-');
    assert forall|i: int| 0 <= i < x.len() implies !is_ws(#[trigger] x[i]) && !is_quote(x[i]) && !is_separator(x[i]) && x[i] != '-' by {
        if i >= t.len() {
            assert(x[i] == '/');
        } else {
            assert(x[i] == t[i]);
        }
    }
    assert(plain_word(x));
    // one segment: the whole line
    assert forall|i: int| 0 <= i < cmd.len() implies !is_separator(#[trigger] cmd[i]) && !is_quote(cmd[i]) by {
        if i >= 7 {
            assert(cmd[i] == x[i - 7]);
        }
    }
    lemma_seg_state_plain(cmd);
    assert(!is_ws(cmd[0]));
    assert(shell_segments(cmd) == seq![cmd]);
    // its words: rm, -rf, the target
    assert(plain_word("rm"@));
    assert(plain_word("-rf"@));
    assert(cmd =~= "rm"@ + " "@ + ("-rf"@ + " "@ + x));
    lemma_words_after_plain("-rf"@, x);
    lemma_words_after_plain("rm"@, "-rf"@ + " "@ + x);
    lemma_word_state_plain(x);
    assert(words_of(x) =~= seq![x]);
    let w = words_of(cmd);
    assert(w =~= seq!["rm"@, "-rf"@, x]);
    assert(!"rm"@.contains('='));
    assert(!is_transparent("rm"@));
    assert(strip_prefixes(w) == w);
    // the target is dangerous
    let args = w.drop_first();
    assert(args[1] == x);
    assert(!has_prefix(x, "-"@)) by {
        assert(x.take(1)[0] == x[0]);
    }
    assert(rm_target_at(args, 1));
    lemma_trim_unchanged(x);
    lemma_strip_slashes_after(t, n);
    if t == "/"@ {
        assert(t.drop_last() =~= Seq::<char>::empty());
        assert(t.last() == '/');
        assert(strip_trailing_slashes(Seq::<char>::empty()) == Seq::<char>::empty());
        assert(strip_trailing_slashes(t) =~= Seq::<char>::empty());
    } else {
        assert(t.last() != '/');
        assert(strip_trailing_slashes(t) == t);
    }
    assert(is_dangerous_target(args[1]));
    assert(rm_dangerous(args));
    assert(segment_is_dangerous(shell_segments(cmd)[0]));
    assert("rm -rf "@ + t + slashes(n) =~= cmd);
}

/// Whether deleting `t` is refused (see [`is_dangerous_target`]).
pub fn dangerous_rm_target(t: &str) -> (r: bool)
    ensures
        r == is_dangerous_target(t@),
{
    let v = chars_of(t);
    let tv = trim_vec(&v);
    let mut n = tv.len();
    assert(tv@.take(n as int) =~= tv@);
    while n > 0 && tv[n - 1] == '/'
        invariant
            n <= tv.len(),
            strip_trailing_slashes(tv@) == strip_trailing_slashes(tv@.take(n as int)),
        decreases n,
    {
        assert(tv@.take(n as int).drop_last() =~= tv@.take(n - 1));
        n = n - 1;
    }
    assert(strip_trailing_slashes(tv@.take(n as int)) == tv@.take(n as int));
    let norm = if n == 0 {
        chars_of("/")
    } else {
        crate::text::slice_vec(&tv, 0, n)
    };
    assert(n > 0 ==> norm@ =~= tv@.take(n as int));
    eq_str(&norm, "/") || eq_str(&norm, "~") || eq_str(&norm, "$HOME") || eq_str(&norm, "${HOME}")
        || eq_str(&norm, "/*") || eq_str(&norm, "~/*") || eq_str(&norm, "$HOME/*") || eq_str(
        &norm,
        "${HOME}/*",
    )
}

/// Whether the arguments of `rm` name a dangerous target (see
/// [`rm_dangerous`]).
pub fn rm_targets_dangerous(args: &[String]) -> (r: bool)
    ensures
        r == rm_dangerous(args@.map_values(|x: String| x@)),
{
    let ghost a = args@.map_values(|x: String| x@);
    let mut only_targets = false;
    for i in 0..args.len()
        invariant
            a == args@.map_values(|x: String| x@),
            only_targets == (exists|j: int| 0 <= j < i && a[j] == "--"@),
            forall|j: int| 0 <= j < i ==> !(rm_target_at(a, j) && is_dangerous_target(#[trigger] a[j])),
    {
        let t = chars_of(args[i].as_str());
        assert(t@ == a[i as int]);
        if only_targets {
            if dangerous_rm_target(args[i].as_str()) {
                assert(rm_target_at(a, i as int));
                return true;
            }
        } else if eq_str(&t, "--") {
            only_targets = true;
            assert(!rm_target_at(a, i as int)) by {
                reveal_strlit("--");
                reveal_strlit("-");
                assert(a[i as int].take(1) =~= "-"@);
            }
        } else if starts_with_str(&t, "-") && t.len() > 1 {
            assert(!rm_target_at(a, i as int));
        } else {
            assert(rm_target_at(a, i as int));
            if dangerous_rm_target(args[i].as_str()) {
                return true;
            }
        }
        assert(only_targets == (exists|j: int| 0 <= j < i + 1 && a[j] == "--"@));
    }
    false
}

/// Whether a segment runs a refused command (see [`segment_is_dangerous`]).
pub fn segment_dangerous(seg: &str) -> (r: bool)
    ensures
        r == segment_is_dangerous(seg@),
{
    let tokens = tokenize(seg);
    let ghost t = tokens@.map_values(|x: String| x@);
    let mut k: usize = 0;
    assert(t.skip(0) =~= t);
    loop
        invariant
            k <= tokens.len(),
            t == tokens@.map_values(|x: String| x@),
            t == words_of(seg@),
            strip_prefixes(t) == strip_prefixes(t.skip(k as int)),
        ensures
            k <= tokens.len(),
            strip_prefixes(t) == strip_prefixes(t.skip(k as int)),
            k == tokens.len() || (!is_assignment(t[k as int]) && !is_transparent(t[k as int])),
        decreases tokens.len() - k,
    {
        let ghost k0 = k;
        while k < tokens.len() && is_assignment_word(tokens[k].as_str())
            invariant
                k0 <= k <= tokens.len(),
                t == tokens@.map_values(|x: String| x@),
                strip_prefixes(t) == strip_prefixes(t.skip(k as int)),
            decreases tokens.len() - k,
        {
            assert(t.skip(k as int)[0] == t[k as int]);
            assert(t.skip(k as int).drop_first() =~= t.skip(k + 1));
            k = k + 1;
        }
        if k < tokens.len() && is_transparent_word(tokens[k].as_str()) {
            let ghost s0 = t.skip(k as int);
            let ghost u = s0.drop_first();
            assert(s0[0] == t[k as int]);
            assert(u =~= t.skip(k + 1));
            k = k + 1;
            if k < tokens.len() && is_option_word(tokens[k].as_str()) {
                assert(u[0] == t[k as int]);
                assert(u.drop_first() =~= t.skip(k + 1));
                k = k + 1;
                if k < tokens.len() && is_option_value_word(tokens[k].as_str()) {
                    assert(u.drop_first()[0] == t[k as int]);
                    assert(u.drop_first().drop_first() =~= t.skip(k + 1));
                    k = k + 1;
                } else {
                    assert(k == tokens.len() ==> u.drop_first().len() == 0);
                    assert(k < tokens.len() ==> u.drop_first()[0] == t[k as int]);
                }
            } else {
                assert(k == tokens.len() ==> u.len() == 0);
                assert(k < tokens.len() ==> u[0] == t[k as int]);
            }
            assert(skip_prefix_option(u) == t.skip(k as int));
        } else {
            break;
        }
    }
    assert(k < tokens.len() ==> t.skip(k as int)[0] == t[k as int]);
    assert(strip_prefixes(t.skip(k as int)) == t.skip(k as int));
    if k >= tokens.len() {
        return false;
    }
    let first = chars_of(tokens[k].as_str());
    assert(first@ == t.skip(k as int)[0]);
    if eq_str(&first, "rm") {
        let (_, rest) = tokens.as_slice().split_at(k + 1);
        assert(rest@.map_values(|x: String| x@) =~= t.skip(k as int).drop_first());
        rm_targets_dangerous(rest)
    } else {
        eq_str(&first, "mkfs") || starts_with_str(&first, "mkfs.")
    }
}

fn is_assignment_word(t: &str) -> (r: bool)
    ensures
        r == is_assignment(t@),
{
    let v = chars_of(t);
    crate::text::contains_char(&v, '=') && !starts_with_str(&v, "-")
}

fn is_transparent_word(t: &str) -> (r: bool)
    ensures
        r == is_transparent(t@),
{
    let v = chars_of(t);
    eq_str(&v, "sudo") || eq_str(&v, "doas") || eq_str(&v, "nohup") || eq_str(&v, "env")
        || eq_str(&v, "command")
}

fn is_option_word(t: &str) -> (r: bool)
    ensures
        r == is_option(t@),
{
    let v = chars_of(t);
    starts_with_str(&v, "-") && v.len() > 1
}

fn is_option_value_word(t: &str) -> (r: bool)
    ensures
        r == is_option_value(t@),
{
    let v = chars_of(t);
    !starts_with_str(&v, "-") && !eq_str(&v, "rm") && !starts_with_str(&v, "mkfs")
}

/// Whether a Bash command line is refused (see [`bash_is_dangerous`]).
pub fn matches_dangerous_bash(cmd: &str) -> (r: bool)
    ensures
        r == bash_is_dangerous(cmd@),
{
    let s = chars_of(cmd);
    let mut sq: Vec<char> = Vec::new();
    for i in 0..s.len()
        invariant
            s@ == cmd@,
            sq@ == squeeze(s@.take(i as int)),
    {
        assert(s@.take(i + 1).drop_last() =~= s@.take(i as int));
        if !is_whitespace(s[i]) {
            sq.push(s[i]);
        }
    }
    assert(s@.take(s.len() as int) =~= s@);
    if contains_str(&sq, ":(){:|:&};:") {
        return true;
    }
    let segs = split_shell_segments(cmd);
    let ghost sv = segs@.map_values(|x: String| x@);
    for k in 0..segs.len()
        invariant
            sv == segs@.map_values(|x: String| x@),
            sv == shell_segments(cmd@),
            !has_infix(squeeze(cmd@), ":(){:|:&};:"@),
            forall|j: int| 0 <= j < k ==> !segment_is_dangerous(#[trigger] sv[j]),
    {
        if segment_dangerous(segs[k].as_str()) {
            assert(segment_is_dangerous(sv[k as int]));
            return true;
        }
    }
    false
}

} // verus!
