//! The order of texts, and lists of texts put in order.

use vstd::prelude::*;
use vstd::relations::{sorted_by, total_ordering};
use vstd::seq_lib::lemma_sorted_unique;

use crate::text::rows;

verus! {

/// Whether `a` comes before `b` or is `b`, by code points from the left.
pub open spec fn text_le(a: Seq<char>, b: Seq<char>) -> bool
    decreases a.len(),
{
    if a.len() == 0 {
        true
    } else if b.len() == 0 {
        false
    } else if a[0] != b[0] {
        a[0] < b[0]
    } else {
        text_le(a.drop_first(), b.drop_first())
    }
}

/// The order of texts.
pub open spec fn text_order() -> spec_fn(Seq<char>, Seq<char>) -> bool {
    |a: Seq<char>, b: Seq<char>| text_le(a, b)
}

/// `s` in the order of texts.
pub open spec fn sorted(s: Seq<Seq<char>>) -> Seq<Seq<char>> {
    s.sort_by(text_order())
}

/// `s` without each text that equals the one before it.
pub open spec fn without_repeats(s: Seq<Seq<char>>) -> Seq<Seq<char>>
    decreases s.len(),
{
    if s.len() < 2 {
        s
    } else {
        let before = without_repeats(s.drop_last());
        if s.last() == s[s.len() - 2] {
            before
        } else {
            before.push(s.last())
        }
    }
}

/// The texts of `s` in order, each once.
pub open spec fn sorted_once(s: Seq<Seq<char>>) -> Seq<Seq<char>> {
    without_repeats(sorted(s))
}

proof fn lemma_le_reflexive(a: Seq<char>)
    ensures
        text_le(a, a),
    decreases a.len(),
{
    if a.len() > 0 {
        lemma_le_reflexive(a.drop_first());
    }
}

proof fn lemma_le_antisymmetric(a: Seq<char>, b: Seq<char>)
    requires
        text_le(a, b),
        text_le(b, a),
    ensures
        a == b,
    decreases a.len(),
{
    if a.len() > 0 && b.len() > 0 {
        lemma_le_antisymmetric(a.drop_first(), b.drop_first());
        assert(a == seq![a[0]] + a.drop_first());
        assert(b == seq![b[0]] + b.drop_first());
    } else {
        assert(a == b);
    }
}

proof fn lemma_le_transitive(a: Seq<char>, b: Seq<char>, c: Seq<char>)
    requires
        text_le(a, b),
        text_le(b, c),
    ensures
        text_le(a, c),
    decreases a.len(),
{
    if a.len() > 0 && b.len() > 0 && c.len() > 0 && a[0] == b[0] && b[0] == c[0] {
        lemma_le_transitive(a.drop_first(), b.drop_first(), c.drop_first());
    }
}

proof fn lemma_le_total(a: Seq<char>, b: Seq<char>)
    ensures
        text_le(a, b) || text_le(b, a),
    decreases a.len(),
{
    if a.len() > 0 && b.len() > 0 {
        lemma_le_total(a.drop_first(), b.drop_first());
    }
}

/// Any two texts can be compared, and only equal texts stand both ways.
pub proof fn lemma_text_order_is_total()
    ensures
        total_ordering(text_order()),
{
    let r = text_order();
    assert forall|a: Seq<char>| #[trigger] r(a, a) by {
        lemma_le_reflexive(a);
    }
    assert forall|a: Seq<char>, b: Seq<char>| #[trigger] r(a, b) && #[trigger] r(b, a) implies a
        == b by {
        lemma_le_antisymmetric(a, b);
    }
    assert forall|a: Seq<char>, b: Seq<char>, c: Seq<char>| #[trigger]
        r(a, b) && #[trigger] r(b, c) implies r(a, c) by {
        lemma_le_transitive(a, b, c);
    }
    assert forall|a: Seq<char>, b: Seq<char>| #[trigger] r(a, b) || #[trigger] r(b, a) by {
        lemma_le_total(a, b);
    }
}

/// Sorting is in order and keeps what is there, each as often as it is there.
pub proof fn lemma_sorted(s: Seq<Seq<char>>)
    ensures
        sorted_by(sorted(s), text_order()),
        sorted(s).to_multiset() == s.to_multiset(),
{
    lemma_text_order_is_total();
    s.lemma_sort_by_ensures(text_order());
}

/// Only what is there, and how often, decides the sorted list.
pub proof fn lemma_sorted_by_contents(s: Seq<Seq<char>>, t: Seq<Seq<char>>)
    requires
        s.to_multiset() == t.to_multiset(),
    ensures
        sorted(s) == sorted(t),
{
    lemma_text_order_is_total();
    lemma_sorted(s);
    lemma_sorted(t);
    lemma_sorted_unique(sorted(s), sorted(t), text_order());
}

/// A list that is in order with the contents of `s` is `s` sorted.
pub proof fn lemma_sorted_is_unique(s: Seq<Seq<char>>, t: Seq<Seq<char>>)
    requires
        sorted_by(t, text_order()),
        t.to_multiset() == s.to_multiset(),
    ensures
        sorted(s) == t,
{
    lemma_text_order_is_total();
    lemma_sorted(s);
    lemma_sorted_unique(sorted(s), t, text_order());
}

/// Whether `a` comes before `b` or is `b`.
pub fn text_leq(a: &Vec<char>, b: &Vec<char>) -> (r: bool)
    ensures
        r == text_le(a@, b@),
{
    let mut i: usize = 0;
    assert(a@.skip(0) == a@);
    assert(b@.skip(0) == b@);
    while i < a.len() && i < b.len() && a[i] == b[i]
        invariant
            i <= a@.len(),
            i <= b@.len(),
            text_le(a@, b@) == text_le(a@.skip(i as int), b@.skip(i as int)),
        decreases a@.len() - i,
    {
        assert(a@.skip(i as int).drop_first() == a@.skip(i + 1));
        assert(b@.skip(i as int).drop_first() == b@.skip(i + 1));
        i += 1;
    }
    i == a.len() || (i < b.len() && a[i] < b[i])
}

/// `v` in the order of texts.
pub fn sort_rows(v: Vec<Vec<char>>) -> (r: Vec<Vec<char>>)
    ensures
        rows(r@) == sorted(rows(v@)),
{
    let ghost all = rows(v@);
    let ghost ord = text_order();
    let mut rest = v;
    let mut out: Vec<Vec<char>> = Vec::new();
    proof {
        lemma_text_order_is_total();
        assert(rows(out@).to_multiset() =~= vstd::multiset::Multiset::empty()) by {
            broadcast use vstd::seq_lib::group_to_multiset_ensures;
            assert(rows(out@).to_multiset().len() == 0);
        }
        assert(rows(out@).to_multiset().add(all.to_multiset()) =~= all.to_multiset());
    }
    while rest.len() > 0
        invariant
            ord == text_order(),
            total_ordering(ord),
            sorted_by(rows(out@), ord),
            rows(out@).to_multiset().add(rows(rest@).to_multiset()) == all.to_multiset(),
        decreases rest@.len(),
    {
        let ghost rest_before = rows(rest@);
        let ghost out_before = rows(out@);
        let x = rest.pop().unwrap();
        let mut lo: usize = 0;
        let mut hi: usize = out.len();
        while lo < hi
            invariant
                ord == text_order(),
                total_ordering(ord),
                lo <= hi <= out@.len(),
                out_before == rows(out@),
                sorted_by(out_before, ord),
                forall|i: int| 0 <= i < lo ==> ord(#[trigger] out_before[i], x@),
                forall|i: int| hi <= i < out@.len() ==> ord(x@, #[trigger] out_before[i]),
            decreases hi - lo,
        {
            let mid: usize = lo + (hi - lo) / 2;
            assert(out_before[mid as int] == out@[mid as int]@);
            if text_leq(&out[mid], &x) {
                assert forall|i: int| 0 <= i < mid + 1 implies ord(#[trigger] out_before[i], x@) by {
                    assert(ord(out_before[mid as int], x@));
                    if i < mid {
                        assert(ord(out_before[i], out_before[mid as int]));
                    }
                }
                lo = mid + 1;
            } else {
                assert forall|i: int| mid <= i < out@.len() implies ord(
                    x@,
                    #[trigger] out_before[i],
                ) by {
                    assert(!ord(out_before[mid as int], x@));
                    assert(ord(x@, out_before[mid as int]));
                    if i > mid {
                        assert(ord(out_before[mid as int], out_before[i]));
                    }
                }
                hi = mid;
            }
        }
        let ghost item = x@;
        out.insert(lo, x);
        proof {
            assert(rows(out@) == out_before.insert(lo as int, item));
            out_before.insert_ensures(lo as int, item);
            assert(rest_before == rows(rest@).push(item));
            broadcast use vstd::seq_lib::group_to_multiset_ensures;
            assert(rest_before.to_multiset() == rows(rest@).to_multiset().insert(item));
            lemma_insert_multiset(out_before, lo as int, item);
            assert(rows(out@).to_multiset().add(rows(rest@).to_multiset())
                =~= out_before.to_multiset().add(rest_before.to_multiset()));
        }
    }
    proof {
        assert(rows(rest@).to_multiset() =~= vstd::multiset::Multiset::empty()) by {
            broadcast use vstd::seq_lib::group_to_multiset_ensures;
            assert(rows(rest@).to_multiset().len() == 0);
        }
        assert(rows(out@).to_multiset() =~= all.to_multiset());
        lemma_sorted_is_unique(all, rows(out@));
    }
    out
}

proof fn lemma_insert_multiset(s: Seq<Seq<char>>, pos: int, x: Seq<char>)
    requires
        0 <= pos <= s.len(),
    ensures
        s.insert(pos, x).to_multiset() == s.to_multiset().insert(x),
{
    broadcast use vstd::seq_lib::group_to_multiset_ensures;
    let t = s.insert(pos, x);
    assert(t.remove(pos) == s);
    assert(t.to_multiset().remove(x) == s.to_multiset());
    assert(t.contains(t[pos]));
    assert(t.to_multiset() =~= s.to_multiset().insert(x));
}

/// `v` without each text that equals the one before it.
pub fn drop_repeats(v: Vec<Vec<char>>) -> (r: Vec<Vec<char>>)
    ensures
        rows(r@) == without_repeats(rows(v@)),
{
    let mut r: Vec<Vec<char>> = Vec::new();
    for i in 0..v.len()
        invariant
            rows(r@) == without_repeats(rows(v@).take(i as int)),
    {
        let ghost head = rows(v@).take(i as int);
        let ghost next = rows(v@).take(i + 1);
        let ghost before = rows(r@);
        assert(next.drop_last() == head);
        let keep = i == 0 || !same_text(&v[i], &v[i - 1]);
        if keep {
            let mut copy: Vec<char> = Vec::new();
            copy.extend_from_slice(v[i].as_slice());
            assert(copy@ == v@[i as int]@);
            r.push(copy);
            assert(rows(r@) == before.push(v@[i as int]@));
        }
    }
    assert(rows(v@).take(v@.len() as int) == rows(v@));
    r
}

/// Whether the two hold the same characters.
pub fn same_text(a: &Vec<char>, b: &Vec<char>) -> (r: bool)
    ensures
        r == (a@ == b@),
{
    proof {
        lemma_le_reflexive(a@);
        if text_le(a@, b@) && text_le(b@, a@) {
            lemma_le_antisymmetric(a@, b@);
        }
    }
    text_leq(a, b) && text_leq(b, a)
}

/// Dropping repeats from a list that is in order leaves each text once, in order.
pub proof fn lemma_without_repeats(s: Seq<Seq<char>>)
    requires
        sorted_by(s, text_order()),
    ensures
        sorted_by(without_repeats(s), text_order()),
        without_repeats(s).no_duplicates(),
        without_repeats(s).to_set() == s.to_set(),
    decreases s.len(),
{
    let ord = text_order();
    lemma_text_order_is_total();
    if s.len() >= 2 {
        let t = s.drop_last();
        let before = without_repeats(t);
        let r = without_repeats(s);
        let n = s.len();
        assert forall|i: int, j: int| 0 <= i < j < t.len() implies #[trigger] ord(t[i], t[j]) by {
            assert(ord(s[i], s[j]));
        }
        lemma_without_repeats(t);
        assert forall|i: int| 0 <= i < before.len() implies exists|k: int|
            0 <= k < n - 1 && s[k] == #[trigger] before[i] by {
            assert(before.to_set().contains(before[i]));
            assert(t.contains(before[i]));
            let k = choose|k: int| 0 <= k < t.len() && t[k] == before[i];
            assert(s[k] == before[i]);
        }
        if s.last() == s[n - 2] {
            assert(t[n - 2] == s.last());
            assert(t.contains(s.last()));
        } else {
            assert forall|i: int| 0 <= i < before.len() implies ord(#[trigger] before[i], s.last())
                && before[i] != s.last() by {
                let k = choose|k: int| 0 <= k < n - 1 && s[k] == before[i];
                assert(ord(s[k], s[n - 1]));
                if s[k] == s.last() {
                    assert(ord(s[n - 2], s[n - 1]));
                    if k < n - 2 {
                        assert(ord(s[k], s[n - 2]));
                    }
                }
            }
            assert(r == before.push(s.last()));
        }
        assert forall|x: Seq<char>| r.to_set().contains(x) <==> s.to_set().contains(x) by {
            if r.contains(x) {
                let i = choose|i: int| 0 <= i < r.len() && r[i] == x;
                if i < before.len() {
                    assert(before[i] == x);
                } else {
                    assert(s[n - 1] == x);
                }
            }
            if s.contains(x) {
                let i = choose|i: int| 0 <= i < n && s[i] == x;
                if i < n - 1 {
                    assert(t[i] == x);
                    assert(t.to_set().contains(x));
                    assert(before.contains(x));
                    let k = choose|k: int| 0 <= k < before.len() && before[k] == x;
                    assert(r[k] == x);
                } else if s.last() == s[n - 2] {
                    assert(t[n - 2] == x);
                    assert(t.to_set().contains(x));
                    assert(before.contains(x));
                } else {
                    assert(r[before.len() as int] == x);
                }
            }
        }
        assert(r.to_set() =~= s.to_set());
    }
}

/// Sorting keeps the set of texts.
pub proof fn lemma_sorted_keeps_set(s: Seq<Seq<char>>)
    ensures
        sorted(s).to_set() == s.to_set(),
{
    broadcast use vstd::seq_lib::group_to_multiset_ensures;
    lemma_sorted(s);
    assert forall|x: Seq<char>| sorted(s).contains(x) <==> s.contains(x) by {
        assert(sorted(s).contains(x) <==> sorted(s).to_multiset().count(x) > 0);
        assert(s.contains(x) <==> s.to_multiset().count(x) > 0);
    }
    assert(sorted(s).to_set() =~= s.to_set());
}

/// `sorted_once` is in order, holds no text twice, and holds the texts that are there.
pub proof fn lemma_sorted_once(s: Seq<Seq<char>>)
    ensures
        sorted_by(sorted_once(s), text_order()),
        sorted_once(s).no_duplicates(),
        sorted_once(s).to_set() == s.to_set(),
{
    lemma_sorted(s);
    lemma_sorted_keeps_set(s);
    lemma_without_repeats(sorted(s));
}

pub proof fn lemma_same_set_same_multiset(s: Seq<Seq<char>>, t: Seq<Seq<char>>)
    requires
        s.no_duplicates(),
        t.no_duplicates(),
        s.to_set() == t.to_set(),
    ensures
        s.to_multiset() == t.to_multiset(),
{
    broadcast use vstd::seq_lib::group_to_multiset_ensures;
    s.lemma_multiset_has_no_duplicates();
    t.lemma_multiset_has_no_duplicates();
    assert forall|x: Seq<char>| s.to_multiset().count(x) == t.to_multiset().count(x) by {
        assert(s.to_set().contains(x) <==> s.contains(x));
        assert(t.to_set().contains(x) <==> t.contains(x));
        if s.contains(x) {
            assert(s.to_multiset().contains(x));
            assert(t.to_multiset().contains(x));
        }
    }
    assert(s.to_multiset() =~= t.to_multiset());
}

/// Only which texts are there decides `sorted_once`: neither their order nor how often each
/// occurs.
pub proof fn law_sorted_once_by_set(s: Seq<Seq<char>>, t: Seq<Seq<char>>)
    requires
        s.to_set() == t.to_set(),
    ensures
        sorted_once(s) == sorted_once(t),
{
    lemma_text_order_is_total();
    lemma_sorted_once(s);
    lemma_sorted_once(t);
    lemma_same_set_same_multiset(sorted_once(s), sorted_once(t));
    lemma_sorted_unique(sorted_once(s), sorted_once(t), text_order());
}

/// Putting a list in order, each once, a second time changes nothing.
pub proof fn lemma_sorted_once_twice(s: Seq<Seq<char>>)
    ensures
        sorted_once(sorted_once(s)) == sorted_once(s),
{
    lemma_sorted_once(s);
    law_sorted_once_by_set(sorted_once(s), s);
}

} // verus!
