//! Keyed lists kept in strictly increasing key order: the form maps and sets
//! take in this library.
use crate::text::{self, lemma_seq_lt_irreflexive, lemma_seq_lt_total, lemma_seq_lt_transitive, seq_lt};
use vstd::prelude::*;

verus! {

/// Keys strictly increase, so none repeats.
pub open spec fn keys_sorted<V>(l: Seq<(String, V)>) -> bool {
    forall|i: int, j: int| 0 <= i < j < l.len() ==> seq_lt(#[trigger] l[i].0@, #[trigger] l[j].0@)
}

pub open spec fn has_key<V>(l: Seq<(String, V)>, k: Seq<char>) -> bool {
    exists|i: int| 0 <= i < l.len() && #[trigger] l[i].0@ == k
}

/// The map of text pairs written in order, a later pair replacing an
/// earlier one with the same key.
pub open spec fn pairs_map(l: Seq<(String, String)>) -> Map<Seq<char>, Seq<char>>
    decreases l.len(),
{
    if l.len() == 0 {
        Map::empty()
    } else {
        pairs_map(l.drop_last()).insert(l.last().0@, l.last().1@)
    }
}

/// The index of the key, if present.
pub fn find_key<V>(l: &Vec<(String, V)>, k: &str) -> (r: Option<usize>)
    ensures
        match r {
            Some(i) => i < l@.len() && l@[i as int].0@ == k@,
            None => !has_key(l@, k@),
        },
{
    let mut i: usize = 0;
    while i < l.len()
        invariant
            i <= l@.len(),
            forall|j: int| 0 <= j < i ==> l@[j].0@ != k@,
        decreases l.len() - i,
    {
        if text::str_eq(l[i].0.as_str(), k) {
            return Some(i);
        }
        i = i + 1;
    }
    None
}

/// Where a key absent from a sorted list goes to keep it sorted.
pub fn insert_position<V>(l: &Vec<(String, V)>, k: &str) -> (p: usize)
    requires
        keys_sorted(l@),
        !has_key(l@, k@),
    ensures
        p <= l@.len(),
        forall|j: int| 0 <= j < p ==> seq_lt(#[trigger] l@[j].0@, k@),
        forall|j: int| p <= j < l@.len() ==> seq_lt(k@, #[trigger] l@[j].0@),
{
    let mut p: usize = 0;
    while p < l.len() && text::str_lt(l[p].0.as_str(), k)
        invariant
            p <= l@.len(),
            forall|j: int| 0 <= j < p ==> seq_lt(#[trigger] l@[j].0@, k@),
        decreases l.len() - p,
    {
        p = p + 1;
    }
    proof {
        if p < l@.len() {
            lemma_seq_lt_total(l@[p as int].0@, k@);
            assert(l@[p as int].0@ != k@);
            assert forall|j: int| p <= j < l@.len() implies seq_lt(k@, #[trigger] l@[j].0@) by {
                if j > p {
                    lemma_seq_lt_transitive(k@, l@[p as int].0@, l@[j].0@);
                }
            }
        }
    }
    p
}

/// Inserting an absent key at its position keeps the list sorted.
pub proof fn lemma_insert_sorted<V>(l: Seq<(String, V)>, p: int, e: (String, V))
    requires
        keys_sorted(l),
        0 <= p <= l.len(),
        forall|j: int| 0 <= j < p ==> seq_lt(#[trigger] l[j].0@, e.0@),
        forall|j: int| p <= j < l.len() ==> seq_lt(e.0@, #[trigger] l[j].0@),
    ensures
        keys_sorted(l.insert(p, e)),
{
    let n = l.insert(p, e);
    assert forall|i: int, j: int| 0 <= i < j < n.len() implies seq_lt(#[trigger] n[i].0@, #[trigger] n[j].0@) by {
        if j < p {
            assert(n[i] == l[i] && n[j] == l[j]);
        } else if j == p {
            assert(n[i] == l[i]);
        } else if i == p {
            assert(n[j] == l[j - 1]);
        } else if i < p {
            assert(n[i] == l[i] && n[j] == l[j - 1]);
        } else {
            assert(n[i] == l[i - 1] && n[j] == l[j - 1]);
        }
    }
}

/// A sorted list of pairs maps each of its keys to its value.
pub proof fn lemma_pairs_map_sorted(l: Seq<(String, String)>)
    requires
        keys_sorted(l),
    ensures
        forall|k: Seq<char>| #[trigger] pairs_map(l).contains_key(k) <==> has_key(l, k),
        forall|i: int| 0 <= i < l.len() ==> pairs_map(l)[#[trigger] l[i].0@] == l[i].1@,
    decreases l.len(),
{
    if l.len() > 0 {
        let d = l.drop_last();
        assert forall|i: int, j: int| 0 <= i < j < d.len() implies seq_lt(#[trigger] d[i].0@, #[trigger] d[j].0@) by {
            assert(d[i] == l[i] && d[j] == l[j]);
        }
        lemma_pairs_map_sorted(d);
        assert(pairs_map(l) == pairs_map(d).insert(l.last().0@, l.last().1@));
        assert forall|k: Seq<char>| #[trigger] pairs_map(l).contains_key(k) <==> has_key(l, k) by {
            if k == l.last().0@ {
                assert(l[l.len() - 1].0@ == k);
            }
            if has_key(l, k) {
                let i = choose|i: int| 0 <= i < l.len() && #[trigger] l[i].0@ == k;
                if i < d.len() {
                    assert(d[i] == l[i]);
                }
            }
            if has_key(d, k) {
                let i = choose|i: int| 0 <= i < d.len() && #[trigger] d[i].0@ == k;
                assert(l[i] == d[i]);
            }
        }
        assert forall|i: int| 0 <= i < l.len() implies pairs_map(l)[#[trigger] l[i].0@] == l[i].1@ by {
            if i < d.len() {
                assert(d[i] == l[i]);
                assert(seq_lt(l[i].0@, l[l.len() - 1].0@));
                lemma_seq_lt_irreflexive(l[i].0@);
            }
        }
    }
}

/// Writes a pair into a sorted list: the key's value is replaced, or the key
/// is added in order.
pub fn put_pair(l: &mut Vec<(String, String)>, k: String, v: String)
    requires
        keys_sorted(old(l)@),
    ensures
        keys_sorted(final(l)@),
        pairs_map(final(l)@) == pairs_map(old(l)@).insert(k@, v@),
{
    proof {
        lemma_pairs_map_sorted(l@);
    }
    let ghost before = l@;
    match find_key(l, k.as_str()) {
        Some(i) => {
            l.set(i, (k, v));
            proof {
                let after = l@;
                assert forall|a: int, b: int| 0 <= a < b < after.len() implies seq_lt(#[trigger] after[a].0@, #[trigger] after[b].0@) by {
                    assert(after[a].0@ == before[a].0@ && after[b].0@ == before[b].0@);
                }
                lemma_pairs_map_sorted(after);
                assert forall|key: Seq<char>| #[trigger] pairs_map(after).contains_key(key) <==> pairs_map(before).insert(k@, v@).contains_key(key) by {
                    if has_key(after, key) {
                        let j = choose|j: int| 0 <= j < after.len() && #[trigger] after[j].0@ == key;
                        assert(before[j].0@ == key);
                    }
                    if has_key(before, key) {
                        let j = choose|j: int| 0 <= j < before.len() && #[trigger] before[j].0@ == key;
                        assert(after[j].0@ == key);
                    }
                }
                assert forall|key: Seq<char>| pairs_map(after).contains_key(key) implies pairs_map(after)[key] == pairs_map(before).insert(k@, v@)[key] by {
                    let j = choose|j: int| 0 <= j < after.len() && #[trigger] after[j].0@ == key;
                    assert(pairs_map(after)[after[j].0@] == after[j].1@);
                    if j != i {
                        assert(after[j] == before[j]);
                        assert(pairs_map(before)[before[j].0@] == before[j].1@);
                        if j < i {
                            assert(seq_lt(before[j].0@, before[i as int].0@));
                        } else {
                            assert(seq_lt(before[i as int].0@, before[j].0@));
                        }
                        lemma_seq_lt_irreflexive(key);
                    }
                }
                assert(pairs_map(after) =~= pairs_map(before).insert(k@, v@));
            }
        },
        None => {
            let p = insert_position(l, k.as_str());
            let ghost e = (k, v);
            l.insert(p, (k, v));
            proof {
                let after = l@;
                assert(after == before.insert(p as int, e));
                lemma_insert_sorted(before, p as int, e);
                lemma_pairs_map_sorted(after);
                assert forall|key: Seq<char>| #[trigger] pairs_map(after).contains_key(key) <==> pairs_map(before).insert(e.0@, e.1@).contains_key(key) by {
                    if has_key(after, key) {
                        let j = choose|j: int| 0 <= j < after.len() && #[trigger] after[j].0@ == key;
                        if j < p {
                            assert(before[j].0@ == key);
                        } else if j > p {
                            assert(before[j - 1].0@ == key);
                        }
                    }
                    if has_key(before, key) {
                        let j = choose|j: int| 0 <= j < before.len() && #[trigger] before[j].0@ == key;
                        if j < p {
                            assert(after[j].0@ == key);
                        } else {
                            assert(after[j + 1].0@ == key);
                        }
                    }
                    if key == e.0@ {
                        assert(after[p as int].0@ == key);
                    }
                }
                assert forall|key: Seq<char>| pairs_map(after).contains_key(key) implies pairs_map(after)[key] == pairs_map(before).insert(e.0@, e.1@)[key] by {
                    let j = choose|j: int| 0 <= j < after.len() && #[trigger] after[j].0@ == key;
                    if j < p {
                        assert(after[j] == before[j]);
                    } else if j > p {
                        assert(after[j] == before[j - 1]);
                    }
                }
                assert(pairs_map(after) =~= pairs_map(before).insert(e.0@, e.1@));
            }
        },
    }
}

/// The pairs written in order into an empty sorted list.
pub fn sorted_pairs(l: &Vec<(String, String)>) -> (r: Vec<(String, String)>)
    ensures
        keys_sorted(r@),
        pairs_map(r@) == pairs_map(l@),
{
    let mut r: Vec<(String, String)> = Vec::new();
    let mut i: usize = 0;
    assert(pairs_map(r@) =~= pairs_map(l@.take(0)));
    while i < l.len()
        invariant
            i <= l@.len(),
            keys_sorted(r@),
            pairs_map(r@) == pairs_map(l@.take(i as int)),
        decreases l.len() - i,
    {
        put_pair(&mut r, l[i].0.clone(), l[i].1.clone());
        assert(l@.take(i + 1).drop_last() =~= l@.take(i as int));
        i = i + 1;
    }
    assert(l@.take(l@.len() as int) =~= l@);
    r
}

} // verus!
