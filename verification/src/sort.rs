//! Sorting of identifiers in the order `String`'s `Ord` gives them.
use crate::text::{self, lemma_seq_lt_irreflexive, lemma_seq_lt_total, lemma_seq_lt_transitive, seq_lt};
use vstd::prelude::*;

verus! {

pub open spec fn str_views(v: Seq<String>) -> Seq<Seq<char>> {
    v.map_values(|s: String| s@)
}

/// Each element is at most the ones after it.
pub open spec fn sorted(s: Seq<Seq<char>>) -> bool {
    forall|i: int, j: int| 0 <= i < j < s.len() ==> !seq_lt(#[trigger] s[j], #[trigger] s[i])
}

/// Two sorted sequences with the same elements are equal: sorting has one
/// result.
pub proof fn law_sorted_permutations_are_equal(a: Seq<Seq<char>>, b: Seq<Seq<char>>)
    requires
        sorted(a),
        sorted(b),
        a.to_multiset() == b.to_multiset(),
    ensures
        a == b,
    decreases a.len(),
{
    broadcast use vstd::seq_lib::group_to_multiset_ensures;

    a.to_multiset_ensures();
    b.to_multiset_ensures();
    if a.len() == 0 {
        assert(b.len() == 0);
        assert(a =~= b);
    } else {
        assert(b.len() == a.len()) by {
            vstd::seq_lib::to_multiset_len(a);
            vstd::seq_lib::to_multiset_len(b);
        }
        let x = a[0];
        let y = b[0];
        assert(a.to_multiset().count(y) > 0);
        assert(b.to_multiset().count(x) > 0);
        let i = choose|i: int| 0 <= i < a.len() && a[i] == y;
        let j = choose|j: int| 0 <= j < b.len() && b[j] == x;
        if x != y {
            lemma_seq_lt_total(x, y);
            if seq_lt(x, y) {
                if j > 0 {
                    assert(!seq_lt(b[j], b[0]));
                }
            } else {
                if i > 0 {
                    assert(!seq_lt(a[i], a[0]));
                }
            }
        }
        assert(x == y);
        let a1 = a.drop_first();
        let b1 = b.drop_first();
        assert(a =~= seq![x] + a1);
        assert(b =~= seq![x] + b1);
        vstd::seq_lib::lemma_multiset_commutative(seq![x], a1);
        vstd::seq_lib::lemma_multiset_commutative(seq![x], b1);
        assert(a1.to_multiset() =~= a.to_multiset().remove(x)) by {
            vstd::seq_lib::to_multiset_remove(a, 0);
            assert(a.remove(0) =~= a1);
        }
        assert(b1.to_multiset() =~= b.to_multiset().remove(x)) by {
            vstd::seq_lib::to_multiset_remove(b, 0);
            assert(b.remove(0) =~= b1);
        }
        assert forall|p: int, q: int| 0 <= p < q < a1.len() implies !seq_lt(#[trigger] a1[q], #[trigger] a1[p]) by {
            assert(a1[q] == a[q + 1] && a1[p] == a[p + 1]);
        }
        assert forall|p: int, q: int| 0 <= p < q < b1.len() implies !seq_lt(#[trigger] b1[q], #[trigger] b1[p]) by {
            assert(b1[q] == b[q + 1] && b1[p] == b[p + 1]);
        }
        law_sorted_permutations_are_equal(a1, b1);
    }
}

/// Sorts identifiers ascending, as `sort` on `Vec<String>` does.
pub fn sort_strings(v: Vec<String>) -> (r: Vec<String>)
    ensures
        sorted(str_views(r@)),
        str_views(r@).to_multiset() == str_views(v@).to_multiset(),
{
    let mut r: Vec<String> = Vec::new();
    let mut i: usize = 0;
    assert(str_views(r@) =~= str_views(v@).take(0));
    while i < v.len()
        invariant
            i <= v@.len(),
            sorted(str_views(r@)),
            str_views(r@).to_multiset() == str_views(v@).take(i as int).to_multiset(),
        decreases v.len() - i,
    {
        let x = v[i].clone();
        let mut k: usize = 0;
        while k < r.len() && !text::str_lt(x.as_str(), r[k].as_str())
            invariant
                k <= r@.len(),
                forall|j: int| 0 <= j < k ==> !seq_lt(x@, #[trigger] str_views(r@)[j]),
            decreases r.len() - k,
        {
            k = k + 1;
        }
        let ghost before = str_views(r@);
        r.insert(k, x);
        proof {
            let after = str_views(r@);
            assert(after =~= before.insert(k as int, x@));
            assert forall|p: int, q: int| 0 <= p < q < after.len() implies !seq_lt(#[trigger] after[q], #[trigger] after[p]) by {
                if q < k {
                    assert(after[q] == before[q] && after[p] == before[p]);
                } else if q == k {
                    assert(after[p] == before[p]);
                } else if p == k {
                    assert(after[q] == before[q - 1]);
                    if k < before.len() {
                        assert(seq_lt(x@, before[k as int]));
                        if q - 1 > k {
                            assert(!seq_lt(before[q - 1], before[k as int]));
                            lemma_seq_lt_total(before[q - 1], before[k as int]);
                            if before[q - 1] != before[k as int] {
                                lemma_seq_lt_transitive(x@, before[k as int], before[q - 1]);
                            }
                        }
                        lemma_seq_lt_total(x@, before[q - 1]);
                    }
                } else if p < k {
                    assert(after[p] == before[p] && after[q] == before[q - 1]);
                } else {
                    assert(after[p] == before[p - 1] && after[q] == before[q - 1]);
                }
            }
            vstd::seq_lib::to_multiset_insert(before, k as int, x@);
            assert(str_views(v@).take(i + 1) =~= str_views(v@).take(i as int).push(x@));
            vstd::seq_lib::to_multiset_build(str_views(v@).take(i as int), x@);
        }
        i = i + 1;
    }
    assert(str_views(v@).take(v@.len() as int) =~= str_views(v@));
    r
}

/// `x` placed after every element it is not less than.
pub open spec fn insert_by<A>(t: Seq<A>, x: A, lt: spec_fn(A, A) -> bool) -> Seq<A>
    decreases t.len(),
{
    if t.len() == 0 {
        seq![x]
    } else if lt(x, t[0]) {
        seq![x] + t
    } else {
        seq![t[0]] + insert_by(t.drop_first(), x, lt)
    }
}

/// The stable sort by a strict order: equal elements keep their order.
pub open spec fn sort_by<A>(s: Seq<A>, lt: spec_fn(A, A) -> bool) -> Seq<A>
    decreases s.len(),
{
    if s.len() == 0 {
        seq![]
    } else {
        insert_by(sort_by(s.drop_last(), lt), s.last(), lt)
    }
}

/// Inserting before the first element that `x` is less than.
pub proof fn lemma_insert_by_at<A>(t: Seq<A>, x: A, lt: spec_fn(A, A) -> bool, k: int)
    requires
        0 <= k <= t.len(),
        forall|j: int| 0 <= j < k ==> !lt(x, #[trigger] t[j]),
        k < t.len() ==> lt(x, t[k]),
    ensures
        insert_by(t, x, lt) == t.insert(k, x),
    decreases t.len(),
{
    if t.len() == 0 {
        assert(t.insert(k, x) =~= seq![x]);
    } else if k == 0 {
        assert(t.insert(0, x) =~= seq![x] + t);
    } else {
        let t1 = t.drop_first();
        assert forall|j: int| 0 <= j < k - 1 implies !lt(x, #[trigger] t1[j]) by {
            assert(t1[j] == t[j + 1]);
        }
        if k - 1 < t1.len() {
            assert(t1[k - 1] == t[k]);
        }
        lemma_insert_by_at(t1, x, lt, k - 1);
        assert(t.insert(k, x) =~= seq![t[0]] + t1.insert(k - 1, x));
    }
}

} // verus!
