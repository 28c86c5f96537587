//! Shell-style word splitting: white space separates words, single or double
//! quotes group characters (the quotes themselves are dropped), and a quoted
//! empty string still counts as a word.
use vstd::prelude::*;
use crate::text::{is_whitespace, is_ws, string_of};

verus! {

/// Splitter state: finished words, the word being built, the open quote, and
/// whether the current word has started (a quote starts a word even if empty).
pub struct WordState {
    pub words: Seq<Seq<char>>,
    pub cur: Seq<char>,
    pub quote: Option<char>,
    pub started: bool,
}

pub open spec fn is_quote(c: char) -> bool {
    c == '"' || c == '\''
}

/// One character of input.
pub open spec fn word_step(st: WordState, c: char) -> WordState {
    match st.quote {
        Some(q) => if c == q {
            WordState { quote: None, ..st }
        } else {
            WordState { cur: st.cur.push(c), ..st }
        },
        None => if is_quote(c) {
            WordState { quote: Some(c), started: true, ..st }
        } else if is_ws(c) {
            if st.started || st.cur.len() > 0 {
                WordState { words: st.words.push(st.cur), cur: Seq::empty(), quote: None, started: false }
            } else {
                st
            }
        } else {
            WordState { cur: st.cur.push(c), started: true, ..st }
        },
    }
}

pub open spec fn word_init() -> WordState {
    WordState { words: Seq::empty(), cur: Seq::empty(), quote: None, started: false }
}

/// State after reading all of `s`.
pub open spec fn word_state(s: Seq<char>) -> WordState
    decreases s.len(),
{
    if s.len() == 0 {
        word_init()
    } else {
        word_step(word_state(s.drop_last()), s.last())
    }
}

/// The words of `s`.
pub open spec fn words_of(s: Seq<char>) -> Seq<Seq<char>> {
    let st = word_state(s);
    if st.started || st.cur.len() > 0 {
        st.words.push(st.cur)
    } else {
        st.words
    }
}

/// The views of a sequence of character vectors.
pub open spec fn vec_views(v: Seq<Vec<char>>) -> Seq<Seq<char>> {
    v.map_values(|x: Vec<char>| x@)
}

/// The views of a sequence of strings.
pub open spec fn string_views(v: Seq<String>) -> Seq<Seq<char>> {
    v.map_values(|x: String| x@)
}

/// Splits `s` into words (see [`words_of`]).
pub fn split_words(s: &Vec<char>) -> (out: Vec<Vec<char>>)
    ensures
        vec_views(out@) == words_of(s@),
{
    let mut words: Vec<Vec<char>> = Vec::new();
    let mut cur: Vec<char> = Vec::new();
    let mut quote: Option<char> = None;
    let mut started = false;
    assert(s@.take(0) =~= Seq::<char>::empty());
    assert(vec_views(words@) =~= Seq::<Seq<char>>::empty());
    for i in 0..s.len()
        invariant
            word_state(s@.take(i as int)) == (WordState {
                words: vec_views(words@),
                cur: cur@,
                quote,
                started,
            }),
    {
        let c = s[i];
        proof {
            assert(s@.take(i + 1).drop_last() =~= s@.take(i as int));
            assert(s@.take(i + 1).last() == c);
        }
        match quote {
            Some(q) => {
                if c == q {
                    quote = None;
                } else {
                    cur.push(c);
                }
            },
            None => {
                if c == '"' || c == '\'' {
                    quote = Some(c);
                    started = true;
                } else if is_whitespace(c) {
                    if started || cur.len() > 0 {
                        let w = cur;
                        proof {
                            assert(vec_views(words@.push(w)) =~= vec_views(words@).push(w@));
                        }
                        words.push(w);
                        cur = Vec::new();
                        started = false;
                    }
                } else {
                    cur.push(c);
                    started = true;
                }
            },
        }
    }
    assert(s@.take(s.len() as int) =~= s@);
    if started || cur.len() > 0 {
        let ghost before = words@;
        words.push(cur);
        assert(vec_views(words@) =~= vec_views(before).push(cur@));
    }
    words
}

/// Converts character vectors to strings.
pub fn to_strings(v: Vec<Vec<char>>) -> (out: Vec<String>)
    ensures
        string_views(out@) == vec_views(v@),
{
    let mut out: Vec<String> = Vec::new();
    assert(string_views(out@) =~= vec_views(v@.take(0)));
    for i in 0..v.len()
        invariant
            string_views(out@) == vec_views(v@.take(i as int)),
    {
        let s = string_of(&v[i]);
        let ghost before = out@;
        out.push(s);
        assert(string_views(out@) =~= string_views(before).push(s@));
        assert(vec_views(v@.take(i + 1)) =~= vec_views(v@.take(i as int)).push(v@[i as int]@));
    }
    assert(v@.take(v.len() as int) =~= v@);
    out
}

} // verus!
