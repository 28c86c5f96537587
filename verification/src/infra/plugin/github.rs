//! The GitHub market: repository names, search queries, merged results and
//! error messages. Requests and downloads are the caller's.
use vstd::prelude::*;

use crate::domain::DomainError;
use crate::text::{
    chars_of, concat_vec, contains_str, eq_str, extend_str, find_char_from, first_index_of,
    has_infix, has_prefix, is_alnum, is_ascii_alnum, is_blank_vec, owned, slice_vec, starts_with_str,
    string_of, str_eq, trim, trim_vec,
};

verus! {

/// A market entry.
#[derive(Debug, Clone, PartialEq, Eq)]
pub struct MarketItem {
    /// Repository (`owner/repo`).
    pub full_name: String,
    /// Description.
    pub description: Option<String>,
    /// Stars.
    pub stars: i64,
    /// Author (the owner's login).
    pub author: String,
    /// Page URL.
    pub url: String,
}

/// A character a repository name part may hold.
pub open spec fn is_repo_char(c: char) -> bool {
    is_alnum(c) || c == '-' || c == '_' || c == '.'
}

/// Whether `s` is a legal owner or repository name: 1 to 100 characters of
/// letters, digits, `-`, `_` and `.`, not starting with `-` or `.`, without
/// `..`.
pub open spec fn legal_part(s: Seq<char>) -> bool {
    &&& s.len() > 0
    &&& s.len() <= 100
    &&& forall|i: int| 0 <= i < s.len() ==> is_repo_char(#[trigger] s[i])
    &&& !(s[0] == '-' || s[0] == '.')
    &&& !has_infix(s, ".."@)
}

/// What checking a repository name gives: its owner and repository, split
/// at the first `/`.
pub open spec fn full_name_check(full: Seq<char>) -> Result<(Seq<char>, Seq<char>), Seq<char>> {
    match first_index_of(full, '/') {
        None => Err("仓库全名须为 owner/repo 格式"@),
        Some(i) => {
            let owner = full.take(i);
            let repo = full.skip(i + 1);
            if legal_part(owner) && legal_part(repo) && !repo.contains('/') {
                Ok((owner, repo))
            } else {
                Err("非法仓库全名："@ + full)
            }
        },
    }
}

fn legal_part_exec(s: &Vec<char>) -> (b: bool)
    ensures
        b == legal_part(s@),
{
    if s.len() == 0 || s.len() > 100 {
        return false;
    }
    for i in 0..s.len()
        invariant
            forall|k: int| 0 <= k < i ==> is_repo_char(#[trigger] s@[k]),
    {
        let c = s[i];
        if !(is_ascii_alnum(c) || c == '-' || c == '_' || c == '.') {
            return false;
        }
    }
    !(s[0] == '-' || s[0] == '.') && !contains_str(s, "..")
}

/// Checks a repository name `owner/repo` (see [`full_name_check`]); the
/// parts are safe to put in paths and URLs.
pub fn validate_full_name(full_name: &str) -> (r: Result<(String, String), DomainError>)
    ensures
        match full_name_check(full_name@) {
            Ok((o, p)) => r matches Ok((a, b)) && a@ == o && b@ == p,
            Err(m) => r matches Err(DomainError::Validation(e)) && e@ == m,
        },
{
    let v = chars_of(full_name);
    assert(v@.skip(0) =~= v@);
    let i = match find_char_from(&v, '/', 0) {
        Some(i) => i,
        None => return Err(DomainError::Validation(owned("仓库全名须为 owner/repo 格式"))),
    };
    let owner = slice_vec(&v, 0, i);
    let repo = slice_vec(&v, i + 1, v.len());
    assert(owner@ =~= v@.take(i as int));
    assert(repo@ =~= v@.skip(i + 1));
    if !legal_part_exec(&owner) || !legal_part_exec(&repo) || crate::text::contains_char(&repo, '/') {
        return Err(DomainError::Validation(string_of(&concat_vec(&chars_of("非法仓库全名："), &v))));
    }
    Ok((string_of(&owner), string_of(&repo)))
}

/// The message of a failed GitHub request: rate limiting for 403 and 429,
/// the status otherwise.
pub fn status_error(status: u16, status_text: &str) -> (r: String)
    ensures
        (status == 403 || status == 429) ==> r@ == "GitHub API 限流（未认证 10 次/分钟），请稍后重试"@,
        !(status == 403 || status == 429) ==> r@ == "GitHub 请求失败：HTTP "@ + status_text@,
{
    if status == 403 || status == 429 {
        owned("GitHub API 限流（未认证 10 次/分钟），请稍后重试")
    } else {
        let mut v = chars_of("GitHub 请求失败：HTTP ");
        extend_str(&mut v, status_text);
        string_of(&v)
    }
}

/// The search query for a topic: `topic:<t>`, after the trimmed keyword
/// when there is one.
pub open spec fn search_query_text(keyword: Seq<char>, topic: Seq<char>) -> Seq<char> {
    if trim(keyword).len() == 0 {
        "topic:"@ + topic
    } else {
        trim(keyword) + " topic:"@ + topic
    }
}

/// Builds the search query (see [`search_query_text`]).
pub fn search_query(keyword: &str, topic: &str) -> (r: String)
    ensures
        r@ == search_query_text(keyword@, topic@),
{
    let k = trim_vec(&chars_of(keyword));
    if k.len() == 0 {
        let mut v = chars_of("topic:");
        extend_str(&mut v, topic);
        string_of(&v)
    } else {
        let mut v = k;
        extend_str(&mut v, " topic:");
        extend_str(&mut v, topic);
        string_of(&v)
    }
}

/// The download address of a repository's archive.
pub fn codeload_url(full_name: &str) -> (r: Result<String, DomainError>)
    ensures
        match full_name_check(full_name@) {
            Ok((o, p)) => r matches Ok(u) && u@ == "https://codeload.github.com/"@ + o + "/"@ + p + "/zip/HEAD"@,
            Err(m) => r matches Err(DomainError::Validation(e)) && e@ == m,
        },
{
    let (owner, repo) = validate_full_name(full_name)?;
    let mut v = chars_of("https://codeload.github.com/");
    extend_str(&mut v, owner.as_str());
    extend_str(&mut v, "/");
    extend_str(&mut v, repo.as_str());
    extend_str(&mut v, "/zip/HEAD");
    Ok(string_of(&v))
}

/// The items kept when merging, in order: the first of each repository
/// name (`seen` holds the names taken).
pub open spec fn first_per_name(items: Seq<MarketItem>, seen: Seq<Seq<char>>) -> Seq<MarketItem>
    decreases items.len(),
{
    if items.len() == 0 {
        Seq::empty()
    } else if seen.contains(items[0].full_name@) {
        first_per_name(items.drop_first(), seen)
    } else {
        seq![items[0]] + first_per_name(items.drop_first(), seen.push(items[0].full_name@))
    }
}

/// `x` inserted after every item with at least as many stars (one step of a
/// stable sort by descending stars).
pub open spec fn insert_by_stars(s: Seq<MarketItem>, x: MarketItem) -> Seq<MarketItem>
    decreases s.len(),
{
    if s.len() == 0 || s.last().stars >= x.stars {
        s.push(x)
    } else {
        insert_by_stars(s.drop_last(), x).push(s.last())
    }
}

/// Items stably sorted by descending stars.
pub open spec fn sorted_by_stars(s: Seq<MarketItem>) -> Seq<MarketItem>
    decreases s.len(),
{
    if s.len() == 0 {
        s
    } else {
        insert_by_stars(sorted_by_stars(s.drop_last()), s.last())
    }
}

fn insert_item(v: &mut Vec<MarketItem>, x: MarketItem)
    ensures
        final(v)@ == insert_by_stars(old(v)@, x),
{
    let ghost s0 = old(v)@;
    let mut k = v.len();
    assert(s0.take(k as int) =~= s0);
    assert(s0 + s0.skip(k as int) =~= s0);
    while k > 0 && v[k - 1].stars < x.stars
        invariant
            k <= v.len(),
            v@ == s0,
            insert_by_stars(s0, x) == insert_by_stars(s0.take(k as int), x) + s0.skip(k as int),
        decreases k,
    {
        proof {
            let t = s0.take(k as int);
            assert(t.last() == s0[k - 1]);
            assert(t.drop_last() =~= s0.take(k - 1));
            assert(insert_by_stars(s0.take(k - 1), x).push(s0[k - 1]) + s0.skip(k as int) =~= insert_by_stars(s0.take(k - 1), x) + s0.skip(k - 1));
        }
        k = k - 1;
    }
    v.insert(k, x);
    assert(v@ =~= s0.take(k as int).push(x) + s0.skip(k as int));
}

/// Merges two result lists: one item per repository (the first list
/// wins), sorted by descending stars (ties keep their order).
pub fn merge_market_items(a: Vec<MarketItem>, b: Vec<MarketItem>) -> (r: Vec<MarketItem>)
    ensures
        r@ == sorted_by_stars(first_per_name(a@ + b@, Seq::empty())),
{
    let ghost all = a@ + b@;
    let mut items = a;
    let mut bb = b;
    items.append(&mut bb);
    assert(items@ == all);
    let mut unique: Vec<MarketItem> = Vec::new();
    let mut seen: Vec<String> = Vec::new();
    let mut rest = items;
    let total = rest.len();
    let mut n: usize = 0;
    assert(all.skip(0) =~= all);
    assert(seen@.map_values(|x: String| x@) =~= Seq::<Seq<char>>::empty());
    assert(unique@ + first_per_name(all, Seq::empty()) =~= first_per_name(all, Seq::empty()));
    while rest.len() > 0
        invariant
            n <= all.len(),
            all.len() == total,
            rest@ == all.skip(n as int),
            first_per_name(all, Seq::empty()) == unique@ + first_per_name(all.skip(n as int), seen@.map_values(|x: String| x@)),
        decreases rest.len(),
    {
        let x = rest.remove(0);
        proof {
            assert(all.skip(n as int)[0] == x);
            assert(all.skip(n as int).drop_first() =~= all.skip(n + 1));
            assert(rest@ =~= all.skip(n + 1));
        }
        let mut taken = false;
        for j in 0..seen.len()
            invariant
                taken == (exists|m: int| 0 <= m < j && seen@[m]@ == x.full_name@),
        {
            if str_eq(seen[j].as_str(), x.full_name.as_str()) {
                taken = true;
            }
        }
        proof {
            let sv = seen@.map_values(|s: String| s@);
            if taken {
                let m = choose|m: int| 0 <= m < seen.len() && seen@[m]@ == x.full_name@;
                assert(sv[m] == x.full_name@);
            }
            if sv.contains(x.full_name@) {
                let m = choose|m: int| 0 <= m < sv.len() && sv[m] == x.full_name@;
                assert(seen@[m]@ == x.full_name@);
            }
        }
        if !taken {
            let ghost sbefore = seen@;
            let ghost ubefore = unique@;
            seen.push(x.full_name.clone());
            assert(seen@.map_values(|s: String| s@) =~= sbefore.map_values(|s: String| s@).push(x.full_name@));
            unique.push(x);
            assert(ubefore + (seq![unique@.last()] + first_per_name(all.skip(n + 1), seen@.map_values(|s: String| s@)))
                =~= unique@ + first_per_name(all.skip(n + 1), seen@.map_values(|s: String| s@)));
        }
        n = n + 1;
    }
    assert(all.skip(n as int) =~= Seq::<MarketItem>::empty());
    assert(unique@ + Seq::<MarketItem>::empty() =~= unique@);
    let ghost u = unique@;
    let mut sorted: Vec<MarketItem> = Vec::new();
    let mut src = unique;
    let utotal = src.len();
    let mut m: usize = 0;
    assert(u.take(0) =~= Seq::<MarketItem>::empty());
    assert(u.skip(0) =~= u);
    while src.len() > 0
        invariant
            m <= u.len(),
            u.len() == utotal,
            src@ == u.skip(m as int),
            sorted@ == sorted_by_stars(u.take(m as int)),
        decreases src.len(),
    {
        let x = src.remove(0);
        proof {
            assert(u.skip(m as int)[0] == x);
            assert(src@ =~= u.skip(m + 1));
            assert(u.take(m + 1).drop_last() =~= u.take(m as int));
            assert(u.take(m + 1).last() == x);
        }
        insert_item(&mut sorted, x);
        m = m + 1;
    }
    assert(u.take(m as int) =~= u);
    sorted
}

/// No two items share a repository name.
pub open spec fn names_distinct(s: Seq<MarketItem>) -> bool {
    forall|i: int, j: int| 0 <= i < j < s.len() ==> (#[trigger] s[i]).full_name@ != (#[trigger] s[j]).full_name@
}

/// Items in descending order of stars.
pub open spec fn stars_descending(s: Seq<MarketItem>) -> bool {
    forall|i: int, j: int| 0 <= i < j < s.len() ==> (#[trigger] s[i]).stars >= (#[trigger] s[j]).stars
}

proof fn lemma_insert_by_stars(s: Seq<MarketItem>, x: MarketItem)
    ensures
        insert_by_stars(s, x).len() == s.len() + 1,
        forall|y: MarketItem| #[trigger] insert_by_stars(s, x).contains(y) <==> (s.contains(y) || y == x),
        stars_descending(s) ==> stars_descending(insert_by_stars(s, x)),
        names_distinct(s) && (forall|k: int| 0 <= k < s.len() ==> (#[trigger] s[k]).full_name@ != x.full_name@)
            ==> names_distinct(insert_by_stars(s, x)),
    decreases s.len(),
{
    let r = insert_by_stars(s, x);
    if s.len() == 0 || s.last().stars >= x.stars {
        assert(r == s.push(x));
        assert forall|y: MarketItem| #[trigger] r.contains(y) <==> (s.contains(y) || y == x) by {
            if r.contains(y) {
                let k = choose|k: int| 0 <= k < r.len() && r[k] == y;
                if k < s.len() {
                    assert(s[k] == y);
                }
            }
            if s.contains(y) {
                let k = choose|k: int| 0 <= k < s.len() && s[k] == y;
                assert(r[k] == y);
            }
            if y == x {
                assert(r[s.len() as int] == y);
            }
        }
        if stars_descending(s) {
            assert forall|i: int, j: int| 0 <= i < j < r.len() implies (#[trigger] r[i]).stars >= (#[trigger] r[j]).stars by {
                if j == s.len() {
                    assert(s[i].stars >= s.last().stars);
                }
            }
        }
    } else {
        let p = s.drop_last();
        let l = s.last();
        lemma_insert_by_stars(p, x);
        let q = insert_by_stars(p, x);
        assert(r == q.push(l));
        assert forall|y: MarketItem| #[trigger] r.contains(y) <==> (s.contains(y) || y == x) by {
            if r.contains(y) {
                let k = choose|k: int| 0 <= k < r.len() && r[k] == y;
                if k < q.len() {
                    assert(q[k] == y);
                    assert(q.contains(y));
                    if p.contains(y) {
                        let m = choose|m: int| 0 <= m < p.len() && p[m] == y;
                        assert(s[m] == y);
                    }
                } else {
                    assert(s[s.len() - 1] == y);
                }
            }
            if s.contains(y) {
                let k = choose|k: int| 0 <= k < s.len() && s[k] == y;
                if k < p.len() {
                    assert(p[k] == y);
                    assert(q.contains(y));
                    let m = choose|m: int| 0 <= m < q.len() && q[m] == y;
                    assert(r[m] == y);
                } else {
                    assert(r[q.len() as int] == y);
                }
            }
            if y == x {
                assert(q.contains(x));
                let m = choose|m: int| 0 <= m < q.len() && q[m] == x;
                assert(r[m] == x);
            }
        }
        if stars_descending(s) {
            assert(stars_descending(p)) by {
                assert forall|i: int, j: int| 0 <= i < j < p.len() implies (#[trigger] p[i]).stars >= (#[trigger] p[j]).stars by {
                    assert(p[i] == s[i] && p[j] == s[j]);
                }
            }
            assert forall|i: int, j: int| 0 <= i < j < r.len() implies (#[trigger] r[i]).stars >= (#[trigger] r[j]).stars by {
                if j == q.len() {
                    let e = q[i];
                    assert(q.contains(e));
                    if p.contains(e) {
                        let m = choose|m: int| 0 <= m < p.len() && p[m] == e;
                        assert(s[m] == e);
                        assert(s[m].stars >= s[s.len() - 1].stars);
                    }
                } else {
                    assert(r[i] == q[i] && r[j] == q[j]);
                }
            }
        }
        if names_distinct(s) && (forall|k: int| 0 <= k < s.len() ==> (#[trigger] s[k]).full_name@ != x.full_name@) {
            assert(names_distinct(p)) by {
                assert forall|i: int, j: int| 0 <= i < j < p.len() implies (#[trigger] p[i]).full_name@ != (#[trigger] p[j]).full_name@ by {
                    assert(p[i] == s[i] && p[j] == s[j]);
                }
            }
            assert forall|k: int| 0 <= k < p.len() implies (#[trigger] p[k]).full_name@ != x.full_name@ by {
                assert(p[k] == s[k]);
            }
            assert forall|i: int, j: int| 0 <= i < j < r.len() implies (#[trigger] r[i]).full_name@ != (#[trigger] r[j]).full_name@ by {
                if j == q.len() {
                    let e = q[i];
                    assert(q.contains(e));
                    if p.contains(e) {
                        let m = choose|m: int| 0 <= m < p.len() && p[m] == e;
                        assert(s[m] == e);
                    } else {
                        assert(e == x);
                        assert(s[s.len() - 1].full_name@ != x.full_name@);
                    }
                } else {
                    assert(r[i] == q[i] && r[j] == q[j]);
                }
            }
        }
    }
}

proof fn lemma_sorted_by_stars(s: Seq<MarketItem>)
    ensures
        sorted_by_stars(s).len() == s.len(),
        forall|y: MarketItem| #[trigger] sorted_by_stars(s).contains(y) <==> s.contains(y),
        stars_descending(sorted_by_stars(s)),
        names_distinct(s) ==> names_distinct(sorted_by_stars(s)),
    decreases s.len(),
{
    if s.len() > 0 {
        let p = s.drop_last();
        lemma_sorted_by_stars(p);
        let q = sorted_by_stars(p);
        lemma_insert_by_stars(q, s.last());
        assert forall|y: MarketItem| #[trigger] sorted_by_stars(s).contains(y) <==> s.contains(y) by {
            if s.contains(y) {
                let k = choose|k: int| 0 <= k < s.len() && s[k] == y;
                if k < p.len() {
                    assert(p[k] == y);
                    assert(p.contains(y));
                }
            }
            if p.contains(y) {
                let k = choose|k: int| 0 <= k < p.len() && p[k] == y;
                assert(s[k] == y);
            }
            if y == s.last() {
                assert(s[s.len() - 1] == y);
            }
        }
        if names_distinct(s) {
            assert(names_distinct(p)) by {
                assert forall|i: int, j: int| 0 <= i < j < p.len() implies (#[trigger] p[i]).full_name@ != (#[trigger] p[j]).full_name@ by {
                    assert(p[i] == s[i] && p[j] == s[j]);
                }
            }
            assert forall|k: int| 0 <= k < q.len() implies (#[trigger] q[k]).full_name@ != s.last().full_name@ by {
                let e = q[k];
                assert(q.contains(e));
                assert(p.contains(e));
                let m = choose|m: int| 0 <= m < p.len() && p[m] == e;
                assert(s[m] == e);
            }
        }
    }
}

proof fn lemma_first_per_name(items: Seq<MarketItem>, seen: Seq<Seq<char>>)
    ensures
        names_distinct(first_per_name(items, seen)),
        forall|k: int| 0 <= k < first_per_name(items, seen).len()
            ==> !seen.contains((#[trigger] first_per_name(items, seen)[k]).full_name@),
        forall|y: MarketItem| #[trigger] first_per_name(items, seen).contains(y) ==> items.contains(y),
        forall|k: int| 0 <= k < items.len() && !seen.contains((#[trigger] items[k]).full_name@)
            ==> exists|i: int| 0 <= i < first_per_name(items, seen).len()
                && first_per_name(items, seen)[i].full_name@ == items[k].full_name@,
    decreases items.len(),
{
    if items.len() > 0 {
        let t = items.drop_first();
        let h = items[0];
        if seen.contains(h.full_name@) {
            lemma_first_per_name(t, seen);
            let r = first_per_name(t, seen);
            assert forall|y: MarketItem| #[trigger] r.contains(y) implies items.contains(y) by {
                let m = choose|m: int| 0 <= m < t.len() && t[m] == y;
                assert(items[m + 1] == y);
            }
            assert forall|k: int| 0 <= k < items.len() && !seen.contains((#[trigger] items[k]).full_name@)
                implies exists|i: int| 0 <= i < r.len() && r[i].full_name@ == items[k].full_name@ by {
                assert(k > 0);
                assert(t[k - 1] == items[k]);
            }
        } else {
            let seen2 = seen.push(h.full_name@);
            lemma_first_per_name(t, seen2);
            let q = first_per_name(t, seen2);
            let r = seq![h] + q;
            assert(first_per_name(items, seen) == r);
            assert forall|k: int| 0 <= k < q.len() implies (#[trigger] q[k]).full_name@ != h.full_name@ by {
                assert(seen2.contains(h.full_name@)) by {
                    assert(seen2[seen.len() as int] == h.full_name@);
                }
            }
            assert forall|i: int, j: int| 0 <= i < j < r.len() implies (#[trigger] r[i]).full_name@ != (#[trigger] r[j]).full_name@ by {
                if i == 0 {
                    assert(r[j] == q[j - 1]);
                } else {
                    assert(r[i] == q[i - 1] && r[j] == q[j - 1]);
                }
            }
            assert forall|k: int| 0 <= k < r.len() implies !seen.contains((#[trigger] r[k]).full_name@) by {
                if k > 0 {
                    assert(r[k] == q[k - 1]);
                    if seen.contains(q[k - 1].full_name@) {
                        let m = choose|m: int| 0 <= m < seen.len() && seen[m] == q[k - 1].full_name@;
                        assert(seen2[m] == seen[m]);
                        assert(seen2.contains(q[k - 1].full_name@));
                    }
                }
            }
            assert forall|y: MarketItem| #[trigger] r.contains(y) implies items.contains(y) by {
                let m = choose|m: int| 0 <= m < r.len() && r[m] == y;
                if m == 0 {
                    assert(items[0] == y);
                } else {
                    assert(q[m - 1] == y);
                    assert(q.contains(y));
                    let n = choose|n: int| 0 <= n < t.len() && t[n] == y;
                    assert(items[n + 1] == y);
                }
            }
            assert forall|k: int| 0 <= k < items.len() && !seen.contains((#[trigger] items[k]).full_name@)
                implies exists|i: int| 0 <= i < r.len() && r[i].full_name@ == items[k].full_name@ by {
                if k == 0 || items[k].full_name@ == h.full_name@ {
                    assert(r[0].full_name@ == items[k].full_name@);
                } else {
                    assert(t[k - 1] == items[k]);
                    assert(!seen2.contains(t[k - 1].full_name@)) by {
                        if seen2.contains(t[k - 1].full_name@) {
                            let m = choose|m: int| 0 <= m < seen2.len() && seen2[m] == t[k - 1].full_name@;
                            if m < seen.len() {
                                assert(seen[m] == seen2[m]);
                            }
                        }
                    }
                    let i = choose|i: int| 0 <= i < q.len() && q[i].full_name@ == t[k - 1].full_name@;
                    assert(r[i + 1] == q[i]);
                }
            }
        }
    }
}

/// Merged results hold one item per repository name, in descending order
/// of stars; every item comes from one of the two lists, and every
/// repository of either list is there.
pub proof fn lemma_merge_unique_sorted(a: Seq<MarketItem>, b: Seq<MarketItem>)
    ensures
        names_distinct(sorted_by_stars(first_per_name(a + b, Seq::empty()))),
        stars_descending(sorted_by_stars(first_per_name(a + b, Seq::empty()))),
        forall|y: MarketItem| #[trigger] sorted_by_stars(first_per_name(a + b, Seq::empty())).contains(y)
            ==> (a + b).contains(y),
        forall|k: int| #![trigger (a + b)[k]] 0 <= k < (a + b).len() ==> exists|i: int|
            0 <= i < sorted_by_stars(first_per_name(a + b, Seq::empty())).len()
            && (#[trigger] sorted_by_stars(first_per_name(a + b, Seq::empty()))[i]).full_name@ == (a + b)[k].full_name@,
{
    let f = first_per_name(a + b, Seq::empty());
    lemma_first_per_name(a + b, Seq::empty());
    lemma_sorted_by_stars(f);
    let r = sorted_by_stars(f);
    assert forall|k: int| #![trigger (a + b)[k]] 0 <= k < (a + b).len() implies exists|i: int| 0 <= i < r.len()
        && (#[trigger] r[i]).full_name@ == (a + b)[k].full_name@ by {
        assert(!Seq::<Seq<char>>::empty().contains((a + b)[k].full_name@));
        let i = choose|i: int| 0 <= i < f.len() && f[i].full_name@ == (a + b)[k].full_name@;
        assert(f.contains(f[i]));
        assert(r.contains(f[i]));
        let j = choose|j: int| 0 <= j < r.len() && r[j] == f[i];
        assert(r[j].full_name@ == (a + b)[k].full_name@);
    }
}

/// The skill market from its two topic searches (the project's own skill
/// topic first, then the wider one): both failing is an error holding both messages, one
/// failing leaves the other's results, both succeeding merges them (see
/// [`merge_market_items`]); at most the first 20 are kept.
pub fn combine_skill_results(
    a: Result<Vec<MarketItem>, String>,
    b: Result<Vec<MarketItem>, String>,
) -> (r: Result<Vec<MarketItem>, String>)
    ensures
        match (a, b) {
            (Err(ea), Err(eb)) => r matches Err(m) && m@ == ea@ + "；"@ + eb@,
            (Ok(x), Err(_)) => r matches Ok(v) && v@ == x@.take(if x@.len() < 20 { x@.len() as int } else { 20 }),
            (Err(_), Ok(y)) => r matches Ok(v) && v@ == y@.take(if y@.len() < 20 { y@.len() as int } else { 20 }),
            (Ok(x), Ok(y)) => r matches Ok(v) && {
                let m = sorted_by_stars(first_per_name(x@ + y@, Seq::empty()));
                v@ == m.take(if m.len() < 20 { m.len() as int } else { 20 })
            },
        },
{
    let items = match (a, b) {
        (Err(ea), Err(eb)) => {
            let mut m = chars_of(ea.as_str());
            extend_str(&mut m, "；");
            extend_str(&mut m, eb.as_str());
            return Err(string_of(&m));
        },
        (Ok(x), Err(_)) => x,
        (Err(_), Ok(y)) => y,
        (Ok(x), Ok(y)) => merge_market_items(x, y),
    };
    let mut items = items;
    let ghost all = items@;
    if items.len() > 20 {
        items.truncate(20);
    }
    assert(items@ =~= all.take(if all.len() < 20 { all.len() as int } else { 20 }));
    Ok(items)
}

/// A search response.
#[derive(Debug)]
pub struct SearchResponse {
    /// Hits.
    pub items: Vec<SearchItem>,
}

/// A hit.
#[derive(Debug)]
pub struct SearchItem {
    /// Repository.
    pub full_name: String,
    /// Description.
    pub description: Option<String>,
    /// Stars.
    pub stargazers_count: i64,
    /// Author.
    pub owner: SearchOwner,
    /// Page URL.
    pub html_url: String,
}

/// An author.
#[derive(Debug)]
pub struct SearchOwner {
    /// Login.
    pub login: String,
}

/// The market entries of a search response, one per hit, in order.
pub fn market_items(resp: SearchResponse) -> (r: Vec<MarketItem>)
    ensures
        r@.len() == resp.items@.len(),
        forall|i: int| 0 <= i < r@.len() ==> {
            let h = #[trigger] resp.items@[i];
            &&& r@[i].full_name == h.full_name
            &&& r@[i].description == h.description
            &&& r@[i].stars == h.stargazers_count
            &&& r@[i].author == h.owner.login
            &&& r@[i].url == h.html_url
        },
{
    let ghost all = resp.items@;
    let mut rest = resp.items;
    let total = rest.len();
    let mut out: Vec<MarketItem> = Vec::new();
    let mut n: usize = 0;
    while rest.len() > 0
        invariant
            n <= all.len(),
            all.len() == total,
            rest@ == all.skip(n as int),
            out@.len() == n,
            forall|i: int| 0 <= i < n ==> {
                let h = #[trigger] all[i];
                &&& out@[i].full_name == h.full_name
                &&& out@[i].description == h.description
                &&& out@[i].stars == h.stargazers_count
                &&& out@[i].author == h.owner.login
                &&& out@[i].url == h.html_url
            },
        decreases rest.len(),
    {
        let h = rest.remove(0);
        proof {
            assert(all.skip(n as int)[0] == h);
            assert(rest@ =~= all.skip(n + 1));
        }
        out.push(MarketItem {
            full_name: h.full_name,
            description: h.description,
            stars: h.stargazers_count,
            author: h.owner.login,
            url: h.html_url,
        });
        n = n + 1;
    }
    out
}

} // verus!
