//! The page-side helpers of the browser panel: base64 decoding of results
//! and screenshots, and URL normalisation.
use vstd::prelude::*;

use crate::infra::db::datasource::cyan_home;
use crate::support::path::{joined, path_join};
use crate::text::{chars_of, extend_str, has_prefix, is_ws, owned, starts_with_str, string_of, trim, trim_vec};

verus! {

/// Where screenshots and saved images go: `screenshots` in the data
/// directory, or `.cyan/screenshots` (relative) without a home directory.
pub fn screenshot_dir() -> (r: String)
    ensures
        r@ == ".cyan/screenshots"@ || exists|h: Seq<char>| r@ == joined(joined(h, ".cyan"@), "screenshots"@),
{
    match cyan_home() {
        Ok(home) => {
            let d = path_join(home.as_str(), "screenshots");
            proof {
                let h = choose|h: Seq<char>| home@ == joined(h, ".cyan"@);
                assert(d@ == joined(joined(h, ".cyan"@), "screenshots"@));
            }
            d
        },
        Err(_) => owned(".cyan/screenshots"),
    }
}

/// Value of a character of the standard base64 alphabet.
pub open spec fn b64_value(c: char) -> Option<u8> {
    let u = c as u32;
    if 'A' as u32 <= u <= 'Z' as u32 {
        Some((u - 'A' as u32) as u8)
    } else if 'a' as u32 <= u <= 'z' as u32 {
        Some((u - 'a' as u32 + 26) as u8)
    } else if '0' as u32 <= u <= '9' as u32 {
        Some((u - '0' as u32 + 52) as u8)
    } else if c == '+' {
        Some(62u8)
    } else if c == '/' {
        Some(63u8)
    } else {
        None
    }
}

/// Value of a character of the URL-safe base64 alphabet (`-` and `_` in
/// place of `+` and `/`).
pub open spec fn b64url_value(c: char) -> Option<u8> {
    if c == '-' {
        Some(62u8)
    } else if c == '_' {
        Some(63u8)
    } else if c == '+' || c == '/' {
        None
    } else {
        b64_value(c)
    }
}

/// `2^k` for the few shifts decoding needs.
pub open spec fn pow2_small(k: int) -> int {
    if k == 0 {
        1
    } else if k == 1 {
        2
    } else if k == 2 {
        4
    } else if k == 3 {
        8
    } else if k == 4 {
        16
    } else {
        32
    }
}

/// Decoder state: pending bits (their value and count) and the bytes out.
pub struct Bits {
    pub acc: int,
    pub bits: int,
    pub out: Seq<u8>,
}

/// Six more bits: a byte comes out whenever eight are pending.
pub open spec fn bits_step(st: Bits, v: u8) -> Bits {
    let a = st.acc * 64 + v;
    let b = st.bits + 6;
    if b >= 8 {
        Bits { acc: a % pow2_small(b - 8), bits: b - 8, out: st.out.push((a / pow2_small(b - 8)) as u8) }
    } else {
        Bits { acc: a, bits: b, out: st.out }
    }
}

/// The bytes a sequence of six-bit values decodes to (left-over bits are
/// dropped).
pub open spec fn decode_state(vals: Seq<u8>) -> Bits
    decreases vals.len(),
{
    if vals.len() == 0 {
        Bits { acc: 0, bits: 0, out: Seq::empty() }
    } else {
        bits_step(decode_state(vals.drop_last()), vals.last())
    }
}

/// The six-bit values of a text under an alphabet, if every character has
/// one.
pub open spec fn sixes(s: Seq<char>, url: bool) -> Option<Seq<u8>>
    decreases s.len(),
{
    if s.len() == 0 {
        Some(Seq::empty())
    } else {
        let v = if url {
            b64url_value(s.last())
        } else {
            b64_value(s.last())
        };
        match (sixes(s.drop_last(), url), v) {
            (Some(p), Some(x)) => Some(p.push(x)),
            _ => None,
        }
    }
}

/// `s` without its trailing `=` characters.
pub open spec fn strip_padding(s: Seq<char>) -> Seq<char>
    decreases s.len(),
{
    if s.len() > 0 && s.last() == '=' {
        strip_padding(s.drop_last())
    } else {
        s
    }
}

fn value_of(c: char, url: bool) -> (r: Option<u8>)
    ensures
        r == (if url {
            b64url_value(c)
        } else {
            b64_value(c)
        }),
{
    let u = c as u32;
    if url && c == '-' {
        return Some(62);
    }
    if url && c == '_' {
        return Some(63);
    }
    if url && (c == '+' || c == '/') {
        return None;
    }
    if 'A' as u32 <= u && u <= 'Z' as u32 {
        Some((u - 'A' as u32) as u8)
    } else if 'a' as u32 <= u && u <= 'z' as u32 {
        Some((u - 'a' as u32 + 26) as u8)
    } else if '0' as u32 <= u && u <= '9' as u32 {
        Some((u - '0' as u32 + 52) as u8)
    } else if c == '+' {
        Some(62)
    } else if c == '/' {
        Some(63)
    } else {
        None
    }
}

fn pow2_exec(k: u32) -> (r: u32)
    requires
        k < 6,
    ensures
        r == pow2_small(k as int),
{
    if k == 0 {
        1
    } else if k == 1 {
        2
    } else if k == 2 {
        4
    } else if k == 3 {
        8
    } else if k == 4 {
        16
    } else {
        32
    }
}

/// Decodes `s` under an alphabet (see [`sixes`] and [`decode_state`]).
fn decode_with(s: &Vec<char>, url: bool) -> (r: Option<Vec<u8>>)
    ensures
        match sixes(s@, url) {
            Some(v) => r matches Some(out) && out@ == decode_state(v).out,
            None => r is None,
        },
{
    let mut out: Vec<u8> = Vec::new();
    let mut acc: u32 = 0;
    let mut bits: u32 = 0;
    let ghost mut vals: Seq<u8> = Seq::empty();
    assert(s@.take(0) =~= Seq::<char>::empty());
    for i in 0..s.len()
        invariant
            sixes(s@.take(i as int), url) == Some(vals),
            decode_state(vals) == (Bits { acc: acc as int, bits: bits as int, out: out@ }),
            bits == 0 || bits == 2 || bits == 4 || bits == 6,
            (acc as int) < pow2_small(bits as int) || (bits == 6 && acc < 64),
    {
        proof {
            assert(s@.take(i + 1).drop_last() =~= s@.take(i as int));
            assert(s@.take(i + 1).last() == s@[i as int]);
        }
        let v = match value_of(s[i], url) {
            Some(v) => v,
            None => {
                proof {
                    lemma_sixes_none(s@, url, i as int);
                }
                return None;
            },
        };
        let a: u32 = acc * 64 + v as u32;
        let b: u32 = bits + 6;
        let ghost old_vals = vals;
        proof {
            vals = vals.push(v);
            assert(vals.drop_last() =~= old_vals);
            assert(vals.last() == v);
        }
        if b >= 8 {
            let sh = pow2_exec(b - 8);
            let byte = a / sh;
            assert(byte < 256) by (nonlinear_arith)
                requires
                    a < 64 * 64,
                    b == bits + 6,
                    bits == 2 || bits == 4 || bits == 6,
                    (bits == 2 ==> (acc < 4 && sh == 1)),
                    (bits == 4 ==> (acc < 16 && sh == 4)),
                    (bits == 6 ==> (acc < 64 && sh == 16)),
                    a == acc * 64 + v as u32,
                    v < 64,
                    byte == a / sh,
            ;
            out.push(byte as u8);
            acc = a % sh;
            bits = b - 8;
        } else {
            acc = a;
            bits = b;
        }
    }
    assert(s@.take(s.len() as int) =~= s@);
    Some(out)
}

proof fn lemma_sixes_none(s: Seq<char>, url: bool, i: int)
    requires
        0 <= i < s.len(),
        (if url {
            b64url_value(s[i])
        } else {
            b64_value(s[i])
        }) is None,
    ensures
        sixes(s, url) is None,
    decreases s.len(),
{
    if i < s.len() - 1 {
        assert(s.drop_last()[i] == s[i]);
        lemma_sixes_none(s.drop_last(), url, i);
    }
}

/// The character of a six-bit value in the standard alphabet.
pub open spec fn b64_char(v: int) -> char {
    if v < 26 {
        (65 + v) as char
    } else if v < 52 {
        (97 + v - 26) as char
    } else if v < 62 {
        (48 + v - 52) as char
    } else if v == 62 {
        '+'
    } else {
        '/'
    }
}

/// The six-bit values standard base64 writes for some bytes: each group
/// of three bytes as four values, a last group of one or two bytes as two
/// or three values (its missing bits zero).
pub open spec fn encoded_sixes(b: Seq<u8>) -> Seq<u8>
    decreases b.len(),
{
    if b.len() >= 3 {
        seq![b[0] / 4, ((b[0] % 4) * 16 + b[1] / 16) as u8, ((b[1] % 16) * 4 + b[2] / 64) as u8, b[2] % 64]
            + encoded_sixes(b.skip(3))
    } else if b.len() == 2 {
        seq![b[0] / 4, ((b[0] % 4) * 16 + b[1] / 16) as u8, ((b[1] % 16) * 4) as u8]
    } else if b.len() == 1 {
        seq![b[0] / 4, ((b[0] % 4) * 16) as u8]
    } else {
        Seq::empty()
    }
}

/// The `=` padding that completes the last group to four characters.
pub open spec fn b64_padding(n: nat) -> Seq<char> {
    if n % 3 == 1 {
        "=="@
    } else if n % 3 == 2 {
        "="@
    } else {
        Seq::empty()
    }
}

/// The standard padded base64 text of some bytes.
pub open spec fn base64_text(b: Seq<u8>) -> Seq<char> {
    encoded_sixes(b).map_values(|v: u8| b64_char(v as int)) + b64_padding(b.len())
}

proof fn lemma_b64_char(v: int)
    requires
        0 <= v < 64,
    ensures
        b64_value(b64_char(v)) == Some(v as u8),
        b64_char(v) != '=',
{
}

proof fn lemma_decode_after(p: Seq<u8>, q: Seq<u8>)
    requires
        decode_state(p).acc == 0,
        decode_state(p).bits == 0,
    ensures
        decode_state(p + q) == (Bits { out: decode_state(p).out + decode_state(q).out, ..decode_state(q) }),
    decreases q.len(),
{
    if q.len() == 0 {
        assert(p + q =~= p);
        assert(decode_state(p).out + Seq::<u8>::empty() =~= decode_state(p).out);
    } else {
        lemma_decode_after(p, q.drop_last());
        assert((p + q).drop_last() =~= p + q.drop_last());
        assert((p + q).last() == q.last());
        let st = decode_state(q.drop_last());
        let o = decode_state(p).out;
        let a = st.acc * 64 + q.last();
        let b = st.bits + 6;
        if b >= 8 {
            assert(o + st.out.push((a / pow2_small(b - 8)) as u8) =~= (o + st.out).push((a / pow2_small(b - 8)) as u8));
        }
    }
}

proof fn lemma_group_decodes(b0: u8, b1: u8, b2: u8)
    ensures
        decode_state(seq![b0 / 4, ((b0 % 4) * 16 + b1 / 16) as u8, ((b1 % 16) * 4 + b2 / 64) as u8, b2 % 64])
            == (Bits { acc: 0, bits: 0, out: seq![b0, b1, b2] }),
{
    let v = seq![b0 / 4, ((b0 % 4) * 16 + b1 / 16) as u8, ((b1 % 16) * 4 + b2 / 64) as u8, b2 % 64];
    let x0: int = b0 as int;
    let x1: int = b1 as int;
    let x2: int = b2 as int;
    let h1: int = x1 / 16;
    let h2: int = x2 / 64;
    assert(0 <= h1 < 16 && 0 <= h2 < 4);
    let a1: int = (x0 / 4) * 64 + ((x0 % 4) * 16 + h1);
    assert(a1 == x0 * 16 + h1) by (nonlinear_arith)
        requires
            a1 == (x0 / 4) * 64 + ((x0 % 4) * 16 + h1),
            0 <= x0,
    ;
    assert(a1 / 16 == x0 && a1 % 16 == h1) by (nonlinear_arith)
        requires
            a1 == x0 * 16 + h1,
            0 <= h1,
            h1 < 16,
    ;
    let a2: int = h1 * 64 + ((x1 % 16) * 4 + h2);
    assert(a2 == x1 * 4 + h2) by (nonlinear_arith)
        requires
            a2 == h1 * 64 + ((x1 % 16) * 4 + h2),
            h1 == x1 / 16,
            0 <= x1,
    ;
    assert(a2 / 4 == x1 && a2 % 4 == h2) by (nonlinear_arith)
        requires
            a2 == x1 * 4 + h2,
            0 <= h2,
            h2 < 4,
    ;
    let a3: int = h2 * 64 + x2 % 64;
    assert(a3 == x2) by (nonlinear_arith)
        requires
            a3 == h2 * 64 + x2 % 64,
            h2 == x2 / 64,
            0 <= x2,
    ;
    assert(v.take(1).drop_last() =~= Seq::<u8>::empty());
    assert(v.take(2).drop_last() =~= v.take(1));
    assert(v.take(3).drop_last() =~= v.take(2));
    assert(v.take(4).drop_last() =~= v.take(3));
    assert(v.take(4) =~= v);
    assert(v.take(1).last() == b0 / 4);
    assert(v.take(2).last() == ((b0 % 4) * 16 + b1 / 16) as u8);
    assert(v.take(3).last() == ((b1 % 16) * 4 + b2 / 64) as u8);
    assert(v.take(4).last() == b2 % 64);
    assert(decode_state(Seq::<u8>::empty()) == (Bits { acc: 0, bits: 0, out: Seq::empty() }));
    let s1 = decode_state(v.take(1));
    assert(s1 == bits_step(decode_state(Seq::<u8>::empty()), (b0 / 4) as u8));
    assert(s1 == (Bits { acc: (b0 / 4) as int, bits: 6, out: Seq::empty() }));
    let s2 = decode_state(v.take(2));
    assert(s2.out =~= seq![b0]);
    assert(s2.acc == (b1 / 16) as int && s2.bits == 4);
    let s3 = decode_state(v.take(3));
    assert(s3.out =~= seq![b0, b1]);
    assert(s3.acc == (b2 / 64) as int && s3.bits == 2);
    let s4 = decode_state(v.take(4));
    assert(s4.out =~= seq![b0, b1, b2]);
}

proof fn lemma_tail_decodes(b0: u8, b1: u8)
    ensures
        decode_state(seq![b0 / 4, ((b0 % 4) * 16 + b1 / 16) as u8, ((b1 % 16) * 4) as u8]).out == seq![b0, b1],
        decode_state(seq![b0 / 4, ((b0 % 4) * 16) as u8]).out == seq![b0],
{
    let x0: int = b0 as int;
    let x1: int = b1 as int;
    let h1: int = x1 / 16;
    assert(0 <= h1 < 16);
    let a1: int = (x0 / 4) * 64 + ((x0 % 4) * 16 + h1);
    assert(a1 == x0 * 16 + h1) by (nonlinear_arith)
        requires
            a1 == (x0 / 4) * 64 + ((x0 % 4) * 16 + h1),
            0 <= x0,
    ;
    assert(a1 / 16 == x0 && a1 % 16 == h1) by (nonlinear_arith)
        requires
            a1 == x0 * 16 + h1,
            0 <= h1,
            h1 < 16,
    ;
    let a2: int = h1 * 64 + (x1 % 16) * 4;
    assert(a2 == x1 * 4) by (nonlinear_arith)
        requires
            a2 == h1 * 64 + (x1 % 16) * 4,
            h1 == x1 / 16,
            0 <= x1,
    ;
    assert(a2 / 4 == x1) by (nonlinear_arith)
        requires
            a2 == x1 * 4,
    ;
    let a0: int = (x0 / 4) * 64 + (x0 % 4) * 16;
    assert(a0 == x0 * 16) by (nonlinear_arith)
        requires
            a0 == (x0 / 4) * 64 + (x0 % 4) * 16,
            0 <= x0,
    ;
    assert(a0 / 16 == x0) by (nonlinear_arith)
        requires
            a0 == x0 * 16,
    ;
    let v = seq![b0 / 4, ((b0 % 4) * 16 + b1 / 16) as u8, ((b1 % 16) * 4) as u8];
    let w = seq![b0 / 4, ((b0 % 4) * 16) as u8];
    assert(decode_state(Seq::<u8>::empty()) == (Bits { acc: 0, bits: 0, out: Seq::empty() }));
    assert(v.take(1).drop_last() =~= Seq::<u8>::empty());
    assert(v.take(2).drop_last() =~= v.take(1));
    assert(v.take(3).drop_last() =~= v.take(2));
    assert(v.take(3) =~= v);
    assert(v.take(1).last() == b0 / 4);
    assert(v.take(2).last() == ((b0 % 4) * 16 + b1 / 16) as u8);
    assert(v.take(3).last() == ((b1 % 16) * 4) as u8);
    assert(decode_state(v.take(1)) == bits_step(decode_state(Seq::<u8>::empty()), (b0 / 4) as u8));
    assert(decode_state(v.take(2)).out =~= seq![b0]);
    assert(decode_state(v.take(2)).acc == h1 && decode_state(v.take(2)).bits == 4);
    assert(decode_state(v.take(3)).out =~= seq![b0, b1]);
    assert(w.take(1) =~= v.take(1));
    assert(w.drop_last() =~= w.take(1));
    assert(w.last() == ((b0 % 4) * 16) as u8);
    assert(decode_state(w).out =~= seq![b0]);
}

proof fn lemma_encoded_decodes(b: Seq<u8>)
    ensures
        decode_state(encoded_sixes(b)).out == b,
        b.len() % 3 == 0 ==> decode_state(encoded_sixes(b)).acc == 0 && decode_state(encoded_sixes(b)).bits == 0,
        forall|i: int| 0 <= i < encoded_sixes(b).len() ==> #[trigger] encoded_sixes(b)[i] < 64,
    decreases b.len(),
{
    if b.len() >= 3 {
        let g = seq![b[0] / 4, ((b[0] % 4) * 16 + b[1] / 16) as u8, ((b[1] % 16) * 4 + b[2] / 64) as u8, b[2] % 64];
        lemma_encoded_decodes(b.skip(3));
        lemma_group_decodes(b[0], b[1], b[2]);
        lemma_decode_after(g, encoded_sixes(b.skip(3)));
        assert(seq![b[0], b[1], b[2]] + b.skip(3) =~= b);
        let e = encoded_sixes(b);
        assert(e == g + encoded_sixes(b.skip(3)));
        assert forall|i: int| 0 <= i < e.len() implies #[trigger] e[i] < 64 by {
            if i >= 4 {
                assert(e[i] == encoded_sixes(b.skip(3))[i - 4]);
            }
        }
    } else if b.len() == 2 {
        lemma_tail_decodes(b[0], b[1]);
        assert(seq![b[0], b[1]] =~= b);
    } else if b.len() == 1 {
        lemma_tail_decodes(b[0], 0);
        assert(seq![b[0]] =~= b);
    } else {
        assert(b =~= Seq::<u8>::empty());
    }
}

proof fn lemma_sixes_of_chars(vals: Seq<u8>)
    requires
        forall|i: int| 0 <= i < vals.len() ==> #[trigger] vals[i] < 64,
    ensures
        sixes(vals.map_values(|v: u8| b64_char(v as int)), false) == Some(vals),
    decreases vals.len(),
{
    if vals.len() > 0 {
        let c = vals.map_values(|v: u8| b64_char(v as int));
        lemma_sixes_of_chars(vals.drop_last());
        assert(c.drop_last() =~= vals.drop_last().map_values(|v: u8| b64_char(v as int)));
        lemma_b64_char(vals.last() as int);
        assert(vals.drop_last().push(vals.last()) =~= vals);
    } else {
        assert(vals.map_values(|v: u8| b64_char(v as int)) =~= Seq::<char>::empty());
        assert(vals =~= Seq::<u8>::empty());
    }
}

/// Decoding gives back the bytes that were encoded: the standard padded
/// base64 text of any bytes decodes to those bytes.
pub proof fn lemma_base64_roundtrip(b: Seq<u8>)
    ensures
        base64_result(base64_text(b)) == Ok::<Seq<u8>, Seq<char>>(b),
{
    let vals = encoded_sixes(b);
    lemma_encoded_decodes(b);
    lemma_sixes_of_chars(vals);
    let c = vals.map_values(|v: u8| b64_char(v as int));
    let t = base64_text(b);
    assert(c.len() == 0 || c.last() != '=') by {
        if c.len() > 0 {
            lemma_b64_char(vals.last() as int);
        }
    }
    reveal_strlit("==");
    reveal_strlit("=");
    let pad = b64_padding(b.len());
    assert(t == c + pad);
    assert(strip_padding(c) == c);
    if b.len() % 3 == 1 {
        assert(pad =~= seq!['=', '=']);
        assert((c + pad).last() == '=');
        assert((c + pad).drop_last() =~= c + seq!['=']);
        assert(strip_padding(c + pad) == strip_padding(c + seq!['=']));
        assert((c + seq!['=']).last() == '=');
        assert((c + seq!['=']).drop_last() =~= c);
        assert(strip_padding(c + seq!['=']) == strip_padding(c));
    } else if b.len() % 3 == 2 {
        assert(pad =~= seq!['=']);
        assert((c + pad).last() == '=');
        assert((c + pad).drop_last() =~= c);
        assert(strip_padding(c + pad) == strip_padding(c));
    } else {
        assert(c + pad =~= c);
    }
    assert(strip_padding(t) == c);
}

/// What decoding standard base64 gives: the bytes of the text without its
/// trailing `=`, or the error for a character outside the alphabet.
pub open spec fn base64_result(s: Seq<char>) -> Result<Seq<u8>, Seq<char>> {
    match sixes(strip_padding(s), false) {
        Some(v) => Ok(decode_state(v).out),
        None => Err("base64 数据含非法字符"@),
    }
}

/// Decodes standard base64 (trailing `=` ignored).
pub fn base64_decode(s: &str) -> (r: Result<Vec<u8>, String>)
    ensures
        match base64_result(s@) {
            Ok(b) => r matches Ok(out) && out@ == b,
            Err(m) => r matches Err(e) && e@ == m,
        },
{
    let v = chars_of(s);
    let mut n = v.len();
    assert(v@.take(n as int) =~= v@);
    while n > 0 && v[n - 1] == '='
        invariant
            n <= v.len(),
            strip_padding(v@) == strip_padding(v@.take(n as int)),
        decreases n,
    {
        assert(v@.take(n as int).drop_last() =~= v@.take(n - 1));
        n = n - 1;
    }
    let body = crate::text::slice_vec(&v, 0, n);
    assert(body@ =~= v@.take(n as int));
    match decode_with(&body, false) {
        Some(out) => Ok(out),
        None => Err(owned("base64 数据含非法字符")),
    }
}

/// Decodes standard base64 (see [`base64_decode`]); the entry point for
/// image data received from tools.
pub fn base64_decode_pub(s: &str) -> (r: Result<Vec<u8>, String>)
    ensures
        match base64_result(s@) {
            Ok(b) => r matches Ok(out) && out@ == b,
            Err(m) => r matches Err(e) && e@ == m,
        },
{
    base64_decode(s)
}

/// Decodes URL-safe base64 without padding; `None` for a character outside
/// the alphabet.
pub fn b64url_decode(s: &str) -> (r: Option<Vec<u8>>)
    ensures
        match sixes(s@, true) {
            Some(v) => r matches Some(out) && out@ == decode_state(v).out,
            None => r is None,
        },
{
    decode_with(&chars_of(s), true)
}

/// A URL as the browser gets it: trimmed, with `https://` in front unless
/// it already has a known scheme.
pub open spec fn normalized_url(url: Seq<char>) -> Seq<char> {
    let u = trim(url);
    if has_prefix(u, "http://"@) || has_prefix(u, "https://"@) || has_prefix(u, "file://"@)
        || has_prefix(u, "about:"@) || has_prefix(u, "chrome://"@) {
        u
    } else {
        "https://"@ + u
    }
}

/// Normalises a URL (see [`normalized_url`]).
pub fn normalize_url(url: &str) -> (r: String)
    ensures
        r@ == normalized_url(url@),
{
    let u = trim_vec(&chars_of(url));
    if starts_with_str(&u, "http://") || starts_with_str(&u, "https://") || starts_with_str(&u, "file://")
        || starts_with_str(&u, "about:") || starts_with_str(&u, "chrome://") {
        string_of(&u)
    } else {
        let mut v = chars_of("https://");
        crate::text::extend_vec(&mut v, &u);
        string_of(&v)
    }
}

/// Normalising is idempotent: a normalised URL normalises to itself.
pub proof fn lemma_normalize_idempotent(url: Seq<char>)
    ensures
        normalized_url(normalized_url(url)) == normalized_url(url),
{
    let u = trim(url);
    crate::text::lemma_trim_ends(url);
    reveal_strlit("https://");
    if has_prefix(u, "http://"@) || has_prefix(u, "https://"@) || has_prefix(u, "file://"@)
        || has_prefix(u, "about:"@) || has_prefix(u, "chrome://"@) {
        crate::text::lemma_trim_unchanged(u);
    } else {
        let n = "https://"@ + u;
        assert(n[0] == 'h');
        assert(!is_ws('h'));
        assert(!is_ws('/'));
        if u.len() > 0 {
            assert(n.last() == u.last());
        } else {
            assert(n.last() == '/');
        }
        crate::text::lemma_trim_unchanged(n);
        assert(n.take(8) =~= "https://"@);
    }
}

/// Normalises a URL for display (see [`normalized_url`]).
pub fn normalize_for_display(url: &str) -> (r: String)
    ensures
        r@ == normalized_url(url@),
{
    normalize_url(url)
}

} // verus!
