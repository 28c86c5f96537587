//! Line statistics of a file change.
use vstd::prelude::*;
use vstd::multiset::Multiset;

use crate::infra::fs::skill::{lines_of, strip_cr};
use crate::text::{chars_of, find_char_from, first_index_of, slice_vec, vec_eq};

verus! {

/// The lines of a text, counted with their multiplicity.
pub open spec fn line_bag(t: Seq<char>) -> Multiset<Seq<char>> {
    lines_of(t).to_multiset()
}

/// A text has no more lines than characters.
pub proof fn lemma_lines_len(t: Seq<char>)
    ensures
        lines_of(t).len() <= t.len(),
    decreases t.len(),
{
    match first_index_of(t, '\n') {
        None => {},
        Some(p) => {
            if 0 <= p < t.len() {
                lemma_lines_len(t.skip(p + 1));
            }
        },
    }
}

/// The lines of a text, in order.
fn split_lines(t: &Vec<char>) -> (r: Vec<Vec<char>>)
    ensures
        r@.map_values(|l: Vec<char>| l@) == lines_of(t@),
{
    let mut out: Vec<Vec<char>> = Vec::new();
    let mut start: usize = 0;
    assert(t@.skip(0) =~= t@);
    assert(out@.map_values(|l: Vec<char>| l@) =~= Seq::<Seq<char>>::empty());
    while start < t.len()
        invariant
            start <= t.len(),
            lines_of(t@) == out@.map_values(|l: Vec<char>| l@) + lines_of(t@.skip(start as int)),
        decreases t.len() - start,
    {
        let ghost rest = t@.skip(start as int);
        let ghost before = out@;
        match find_char_from(t, '\n', start) {
            Some(q) => {
                let raw = slice_vec(t, start, q);
                let l = if q > start && t[q - 1] == '\r' {
                    slice_vec(t, start, q - 1)
                } else {
                    raw
                };
                proof {
                    assert(rest.take(q - start) =~= raw@);
                    if q > start && t@[q - 1] == '\r' {
                        assert(l@ =~= raw@.drop_last());
                    }
                    assert(rest.skip(q - start + 1) =~= t@.skip(q + 1));
                }
                out.push(l);
                proof {
                    assert(out@.map_values(|l: Vec<char>| l@) =~= before.map_values(|l: Vec<char>| l@).push(strip_cr(rest.take(q - start))));
                    assert(before.map_values(|l: Vec<char>| l@) + (seq![strip_cr(rest.take(q - start))] + lines_of(t@.skip(q + 1)))
                        =~= out@.map_values(|l: Vec<char>| l@) + lines_of(t@.skip(q + 1)));
                }
                start = q + 1;
            },
            None => {
                let l = slice_vec(t, start, t.len());
                proof {
                    assert(l@ =~= rest);
                    assert(lines_of(rest) =~= seq![l@]);
                    assert(t@.skip(t.len() as int) =~= Seq::<char>::empty());
                }
                out.push(l);
                proof {
                    assert(out@.map_values(|l: Vec<char>| l@) =~= before.map_values(|l: Vec<char>| l@).push(rest));
                    assert(lines_of(t@.skip(t.len() as int)) =~= Seq::<Seq<char>>::empty());
                    assert(out@.map_values(|l: Vec<char>| l@) + Seq::<Seq<char>>::empty() =~= out@.map_values(|l: Vec<char>| l@));
                }
                start = t.len();
            },
        }
    }
    proof {
        assert(t@.skip(start as int) =~= Seq::<char>::empty());
        assert(lines_of(t@.skip(start as int)) =~= Seq::<Seq<char>>::empty());
        assert(out@.map_values(|l: Vec<char>| l@) + Seq::<Seq<char>>::empty() =~= out@.map_values(|l: Vec<char>| l@));
    }
    out
}

/// Line statistics of a change, as a difference of line multisets: the
/// lines of `after` not matched by a line of `before` are added, the lines
/// of `before` not matched by a line of `after` are deleted.
pub fn diff_lines(before: &str, after: &str) -> (r: (i64, i64))
    requires
        before@.len() <= i64::MAX,
        after@.len() <= i64::MAX,
    ensures
        r.0 == line_bag(after@).difference_with(line_bag(before@)).len(),
        r.1 == line_bag(before@).difference_with(line_bag(after@)).len(),
{
    broadcast use vstd::multiset::group_multiset_axioms, vstd::multiset::group_multiset_properties;
    let b = split_lines(&chars_of(before));
    let mut remaining = split_lines(&chars_of(after));
    let ghost bs = b@.map_values(|l: Vec<char>| l@);
    let ghost a_bag = line_bag(after@);
    proof {
        lemma_lines_len(before@);
        lemma_lines_len(after@);
    }
    let mut del: usize = 0;
    assert(remaining@.map_values(|l: Vec<char>| l@).to_multiset() == a_bag);
    assert(bs.take(0).to_multiset() =~= Multiset::<Seq<char>>::empty()) by {
        assert(bs.take(0) =~= Seq::<Seq<char>>::empty());
        broadcast use vstd::seq_lib::group_to_multiset_ensures;
    }
    assert(a_bag.difference_with(Multiset::empty()) =~= a_bag);
    assert(Multiset::<Seq<char>>::empty().difference_with(a_bag) =~= Multiset::empty());
    for i in 0..b.len()
        invariant
            bs == b@.map_values(|l: Vec<char>| l@),
            bs == lines_of(before@),
            a_bag == line_bag(after@),
            remaining@.map_values(|l: Vec<char>| l@).to_multiset() == a_bag.difference_with(bs.take(i as int).to_multiset()),
            del as int == bs.take(i as int).to_multiset().difference_with(a_bag).len(),
            del <= i,
            i <= bs.len(),
            bs.len() <= before@.len(),
            remaining.len() <= lines_of(after@).len(),
            lines_of(after@).len() <= after@.len(),
    {
        broadcast use vstd::seq_lib::group_to_multiset_ensures;
        let ghost bi = bs.take(i as int).to_multiset();
        let ghost x = bs[i as int];
        let ghost r0 = remaining@.map_values(|l: Vec<char>| l@);
        assert(bs.take(i + 1) =~= bs.take(i as int).push(x));
        assert(bs.take(i + 1).to_multiset() =~= bi.insert(x));
        let mut j: usize = 0;
        let mut found = false;
        while j < remaining.len()
            invariant_except_break
                !found,
            invariant
                j <= remaining.len(),
                i < b.len(),
                r0 == remaining@.map_values(|l: Vec<char>| l@),
                x == b@[i as int]@,
                forall|k: int| 0 <= k < j ==> r0[k] != x,
            ensures
                found ==> j < remaining.len() && r0[j as int] == x,
                !found ==> forall|k: int| 0 <= k < remaining.len() ==> r0[k] != x,
            decreases remaining.len() - j,
        {
            if vec_eq(&remaining[j], &b[i]) {
                found = true;
                break;
            }
            j = j + 1;
        }
        if found {
            let ghost rr = remaining@;
            remaining.remove(j);
            proof {
                assert(remaining@.map_values(|l: Vec<char>| l@) =~= r0.remove(j as int));
                vstd::seq_lib::to_multiset_remove(r0, j as int);
                assert(r0.to_multiset().count(x) > 0);
                vstd::multiset::lemma_difference_count(a_bag, bi, x);
                assert(r0.to_multiset() == a_bag.difference_with(bi));
                assert(a_bag.count(x) > bi.count(x));
                let rm = remaining@.map_values(|l: Vec<char>| l@).to_multiset();
                assert forall|y: Seq<char>| #[trigger] rm.count(y)
                    == a_bag.difference_with(bi.insert(x)).count(y) by {
                    vstd::multiset::lemma_difference_count(a_bag, bi, y);
                    vstd::multiset::lemma_difference_count(a_bag, bi.insert(x), y);
                }
                assert(remaining@.map_values(|l: Vec<char>| l@).to_multiset() =~= a_bag.difference_with(bi.insert(x)));
                assert forall|y: Seq<char>| #[trigger] bi.insert(x).difference_with(a_bag).count(y)
                    == bi.difference_with(a_bag).count(y) by {
                    vstd::multiset::lemma_difference_count(bi, a_bag, y);
                    vstd::multiset::lemma_difference_count(bi.insert(x), a_bag, y);
                }
                assert(bi.insert(x).difference_with(a_bag) =~= bi.difference_with(a_bag));
            }
        } else {
            proof {
                assert(!r0.contains(x));
                assert(r0.to_multiset().count(x) == 0);
                vstd::multiset::lemma_difference_count(a_bag, bi, x);
                assert(r0.to_multiset() == a_bag.difference_with(bi));
                assert(a_bag.count(x) <= bi.count(x));
                assert forall|y: Seq<char>| #[trigger] r0.to_multiset().count(y)
                    == a_bag.difference_with(bi.insert(x)).count(y) by {
                    vstd::multiset::lemma_difference_count(a_bag, bi, y);
                    vstd::multiset::lemma_difference_count(a_bag, bi.insert(x), y);
                }
                assert(r0.to_multiset() =~= a_bag.difference_with(bi.insert(x)));
                assert forall|y: Seq<char>| #[trigger] bi.insert(x).difference_with(a_bag).count(y)
                    == bi.difference_with(a_bag).insert(x).count(y) by {
                    vstd::multiset::lemma_difference_count(bi, a_bag, y);
                    vstd::multiset::lemma_difference_count(bi.insert(x), a_bag, y);
                }
                assert(bi.insert(x).difference_with(a_bag) =~= bi.difference_with(a_bag).insert(x));
            }
            del = del + 1;
        }
    }
    proof {
        assert(bs.take(b.len() as int) =~= bs);
        vstd::seq_lib::to_multiset_len(remaining@.map_values(|l: Vec<char>| l@));
    }
    (remaining.len() as i64, del as i64)
}

/// A text compared with itself has no added and no deleted line.
pub proof fn lemma_diff_lines_same(t: Seq<char>)
    ensures
        line_bag(t).difference_with(line_bag(t)).len() == 0,
{
    broadcast use vstd::multiset::group_multiset_axioms, vstd::multiset::group_multiset_properties;
    let d = line_bag(t).difference_with(line_bag(t));
    assert(d =~= Multiset::empty()) by {
        assert forall|x: Seq<char>| #[trigger] d.count(x) == Multiset::<Seq<char>>::empty().count(x) by {}
    }
}

/// The added lines minus the deleted lines is the change in the number of
/// lines: `add - del == lines(after) - lines(before)`.
pub proof fn lemma_diff_lines_balance(before: Seq<char>, after: Seq<char>)
    ensures
        line_bag(after).difference_with(line_bag(before)).len() as int
            - line_bag(before).difference_with(line_bag(after)).len() as int
            == lines_of(after).len() as int - lines_of(before).len() as int,
{
    broadcast use vstd::multiset::group_multiset_axioms, vstd::multiset::group_multiset_properties;
    broadcast use vstd::seq_lib::group_to_multiset_ensures;
    let a = line_bag(after);
    let b = line_bag(before);
    let i = a.intersection_with(b);
    let j = b.intersection_with(a);
    assert(i =~= j) by {
        assert forall|x: Seq<char>| #[trigger] i.count(x) == j.count(x) by {}
    }
    assert(a =~= i.add(a.difference_with(b))) by {
        assert forall|x: Seq<char>| #[trigger] a.count(x) == i.add(a.difference_with(b)).count(x) by {}
    }
    assert(b =~= i.add(b.difference_with(a))) by {
        assert forall|x: Seq<char>| #[trigger] b.count(x) == i.add(b.difference_with(a)).count(x) by {
            assert(j.count(x) == i.count(x));
        }
    }
    assert(a.len() == lines_of(after).len());
    assert(b.len() == lines_of(before).len());
}

} // verus!
