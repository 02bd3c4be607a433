//! A deterministic topological order of graph nodes by identifier: Kahn's
//! algorithm that starts from the sorted source nodes and visits the targets
//! of each node in sorted order.
use crate::sort::{law_sorted_permutations_are_equal, sort_strings, sorted, str_views};
use vstd::prelude::*;

verus! {

/// The sorted arrangement of a sequence of identifiers.
pub open spec fn sorted_of(s: Seq<Seq<char>>) -> Seq<Seq<char>> {
    choose|t: Seq<Seq<char>>| sorted(t) && t.to_multiset() == s.to_multiset()
}

pub proof fn lemma_sorted_of(r: Seq<Seq<char>>, s: Seq<Seq<char>>)
    requires
        sorted(r),
        r.to_multiset() == s.to_multiset(),
    ensures
        sorted_of(s) == r,
{
    let t = sorted_of(s);
    assert(sorted(t) && t.to_multiset() == s.to_multiset());
    law_sorted_permutations_are_equal(t, r);
}

/// The identifiers in order of first occurrence, without repeats.
pub open spec fn dedup(s: Seq<Seq<char>>) -> Seq<Seq<char>>
    decreases s.len(),
{
    if s.len() == 0 {
        seq![]
    } else if dedup(s.drop_last()).contains(s.last()) {
        dedup(s.drop_last())
    } else {
        dedup(s.drop_last()).push(s.last())
    }
}

/// The links whose two ends are both among `ids`.
pub open spec fn inner_links(links: Seq<(Seq<char>, Seq<char>)>, ids: Seq<Seq<char>>) -> Seq<(Seq<char>, Seq<char>)>
    decreases links.len(),
{
    if links.len() == 0 {
        seq![]
    } else {
        let rest = inner_links(links.drop_last(), ids);
        let l = links.last();
        if ids.contains(l.0) && ids.contains(l.1) {
            rest.push(l)
        } else {
            rest
        }
    }
}

/// How many links end at `x`.
pub open spec fn in_degree(rel: Seq<(Seq<char>, Seq<char>)>, x: Seq<char>) -> nat
    decreases rel.len(),
{
    if rel.len() == 0 {
        0
    } else {
        in_degree(rel.drop_last(), x) + if rel.last().1 == x {
            1nat
        } else {
            0nat
        }
    }
}

/// The ends of the links that start at `x`, in link order.
pub open spec fn targets(rel: Seq<(Seq<char>, Seq<char>)>, x: Seq<char>) -> Seq<Seq<char>>
    decreases rel.len(),
{
    if rel.len() == 0 {
        seq![]
    } else {
        let rest = targets(rel.drop_last(), x);
        if rel.last().0 == x {
            rest.push(rel.last().1)
        } else {
            rest
        }
    }
}

/// The index of the first occurrence.
pub open spec fn index_in(s: Seq<Seq<char>>, x: Seq<char>) -> int
    decreases s.len(),
{
    if s.len() == 0 {
        0
    } else if s[0] == x {
        0
    } else {
        1 + index_in(s.drop_first(), x)
    }
}

pub open spec fn initial_counts(dids: Seq<Seq<char>>, rel: Seq<(Seq<char>, Seq<char>)>) -> Seq<nat> {
    Seq::new(dids.len(), |k: int| in_degree(rel, dids[k]))
}

/// The identifiers of the nodes with no incoming link, in node order.
pub open spec fn sources(ids: Seq<Seq<char>>, rel: Seq<(Seq<char>, Seq<char>)>) -> Seq<Seq<char>>
    decreases ids.len(),
{
    if ids.len() == 0 {
        seq![]
    } else {
        let rest = sources(ids.drop_last(), rel);
        if in_degree(rel, ids.last()) == 0 {
            rest.push(ids.last())
        } else {
            rest
        }
    }
}

/// One visited link: the target loses an incoming link and becomes ready
/// when it has none left.
pub open spec fn relax_one(dids: Seq<Seq<char>>, c: Seq<nat>, q: Seq<Seq<char>>, t: Seq<char>) -> (Seq<nat>, Seq<Seq<char>>) {
    let k = index_in(dids, t);
    if 0 <= k < c.len() && c[k] > 0 {
        let v = (c[k] - 1) as nat;
        (c.update(k, v), if v == 0 {
            q.push(t)
        } else {
            q
        })
    } else {
        (c, q)
    }
}

pub open spec fn relax(dids: Seq<Seq<char>>, c: Seq<nat>, q: Seq<Seq<char>>, ts: Seq<Seq<char>>) -> (Seq<nat>, Seq<Seq<char>>)
    decreases ts.len(),
{
    if ts.len() == 0 {
        (c, q)
    } else {
        let p = relax(dids, c, q, ts.drop_last());
        relax_one(dids, p.0, p.1, ts.last())
    }
}

/// Kahn's algorithm from a state: the queue of ready nodes and the order so far.
pub open spec fn kahn(dids: Seq<Seq<char>>, rel: Seq<(Seq<char>, Seq<char>)>, c: Seq<nat>, q: Seq<Seq<char>>, order: Seq<Seq<char>>, fuel: nat) -> Seq<Seq<char>>
    decreases fuel,
{
    if fuel == 0 || q.len() == 0 {
        order
    } else {
        let x = q[0];
        let p = relax(dids, c, q.drop_first(), sorted_of(targets(rel, x)));
        kahn(dids, rel, p.0, p.1, order.push(x), (fuel - 1) as nat)
    }
}

/// How many counts are positive.
pub open spec fn positive(c: Seq<nat>) -> nat
    decreases c.len(),
{
    if c.len() == 0 {
        0
    } else {
        positive(c.drop_last()) + if c.last() > 0 {
            1nat
        } else {
            0nat
        }
    }
}

/// The topological order of nodes `ids` (with repeats) under `links`: the
/// nodes Kahn's algorithm reaches, sources first in sorted order, each
/// node's targets visited in sorted order.
pub open spec fn topo_order(ids: Seq<Seq<char>>, links: Seq<(Seq<char>, Seq<char>)>) -> Seq<Seq<char>> {
    let dids = dedup(ids);
    let rel = inner_links(links, dids);
    let c = initial_counts(dids, rel);
    let q = sorted_of(sources(ids, rel));
    kahn(dids, rel, c, q, seq![], q.len() + positive(c))
}

proof fn lemma_positive_update(c: Seq<nat>, k: int, v: nat)
    requires
        0 <= k < c.len(),
        c[k] > 0,
    ensures
        positive(c.update(k, v)) + (if v > 0 { 0int } else { 1int }) == positive(c) as int,
    decreases c.len(),
{
    if k == c.len() - 1 {
        assert(c.update(k, v).drop_last() =~= c.drop_last());
    } else {
        lemma_positive_update(c.drop_last(), k, v);
        assert(c.update(k, v).drop_last() =~= c.drop_last().update(k, v));
    }
}

proof fn lemma_relax_measure(dids: Seq<Seq<char>>, c: Seq<nat>, q: Seq<Seq<char>>, ts: Seq<Seq<char>>)
    ensures
        relax(dids, c, q, ts).1.len() + positive(relax(dids, c, q, ts).0) == q.len() + positive(c),
        relax(dids, c, q, ts).0.len() == c.len(),
        q.len() <= relax(dids, c, q, ts).1.len(),
        relax(dids, c, q, ts).1.take(q.len() as int) == q,
    decreases ts.len(),
{
    if ts.len() > 0 {
        lemma_relax_measure(dids, c, q, ts.drop_last());
        let p = relax(dids, c, q, ts.drop_last());
        let t = ts.last();
        let k = index_in(dids, t);
        if 0 <= k < p.0.len() && p.0[k] > 0 {
            let v = (p.0[k] - 1) as nat;
            lemma_positive_update(p.0, k, v);
            if v == 0 {
                assert(p.1.push(t).take(q.len() as int) =~= p.1.take(q.len() as int));
            }
        }
    }
}

proof fn lemma_kahn_done(dids: Seq<Seq<char>>, rel: Seq<(Seq<char>, Seq<char>)>, c: Seq<nat>, q: Seq<Seq<char>>, order: Seq<Seq<char>>, fuel: nat)
    requires
        q.len() == 0,
    ensures
        kahn(dids, rel, c, q, order, fuel) == order,
{
}

fn index_of(v: &Vec<String>, x: &String) -> (r: usize)
    ensures
        r as int == index_in(str_views(v@), x@),
        r <= v@.len(),
        r < v@.len() ==> v@[r as int]@ == x@,
        str_views(v@).contains(x@) ==> r < v@.len(),
{
    let ghost s = str_views(v@);
    assert(s.skip(0) =~= s);
    let mut i: usize = 0;
    while i < v.len()
        invariant
            i <= v@.len(),
            s == str_views(v@),
            index_in(s, x@) == i + index_in(s.skip(i as int), x@),
            forall|j: int| 0 <= j < i ==> s[j] != x@,
        decreases v.len() - i,
    {
        let ghost rest = s.skip(i as int);
        assert(rest[0] == v@[i as int]@);
        if v[i] == *x {
            return i;
        }
        assert(rest.drop_first() =~= s.skip(i + 1));
        i = i + 1;
    }
    proof {
        assert(s.skip(i as int).len() == 0);
        if s.contains(x@) {
            let j = choose|j: int| 0 <= j < s.len() && s[j] == x@;
            assert(s[j] != x@);
        }
    }
    i
}

fn contains(v: &Vec<String>, x: &String) -> (r: bool)
    ensures
        r == str_views(v@).contains(x@),
{
    let k = index_of(v, x);
    proof {
        if k < v@.len() {
            assert(str_views(v@)[k as int] == x@);
        }
    }
    k < v.len()
}

fn dedup_exec(ids: &Vec<String>) -> (r: Vec<String>)
    ensures
        str_views(r@) == dedup(str_views(ids@)),
{
    let ghost s = str_views(ids@);
    let mut r: Vec<String> = Vec::new();
    let mut i: usize = 0;
    assert(s.take(0) =~= seq![]);
    while i < ids.len()
        invariant
            i <= ids@.len(),
            s == str_views(ids@),
            str_views(r@) == dedup(s.take(i as int)),
        decreases ids.len() - i,
    {
        assert(s.take(i + 1).drop_last() =~= s.take(i as int));
        assert(s.take(i + 1).last() == ids@[i as int]@);
        if !contains(&r, &ids[i]) {
            let ghost before = str_views(r@);
            r.push(ids[i].clone());
            assert(str_views(r@) =~= before.push(ids@[i as int]@));
        }
        i = i + 1;
    }
    assert(s.take(ids@.len() as int) =~= s);
    r
}

pub open spec fn link_views(v: Seq<(String, String)>) -> Seq<(Seq<char>, Seq<char>)> {
    v.map_values(|l: (String, String)| (l.0@, l.1@))
}

fn inner_links_exec(links: &Vec<(String, String)>, dids: &Vec<String>) -> (r: Vec<(String, String)>)
    ensures
        link_views(r@) == inner_links(link_views(links@), str_views(dids@)),
{
    let ghost ls = link_views(links@);
    let mut r: Vec<(String, String)> = Vec::new();
    let mut i: usize = 0;
    assert(ls.take(0) =~= seq![]);
    while i < links.len()
        invariant
            i <= links@.len(),
            ls == link_views(links@),
            link_views(r@) == inner_links(ls.take(i as int), str_views(dids@)),
        decreases links.len() - i,
    {
        assert(ls.take(i + 1).drop_last() =~= ls.take(i as int));
        assert(ls.take(i + 1).last() == (links@[i as int].0@, links@[i as int].1@));
        if contains(dids, &links[i].0) && contains(dids, &links[i].1) {
            let ghost before = link_views(r@);
            r.push((links[i].0.clone(), links[i].1.clone()));
            assert(link_views(r@) =~= before.push((links@[i as int].0@, links@[i as int].1@)));
        }
        i = i + 1;
    }
    assert(ls.take(links@.len() as int) =~= ls);
    r
}

proof fn lemma_in_degree_bound(rel: Seq<(Seq<char>, Seq<char>)>, x: Seq<char>)
    ensures
        in_degree(rel, x) <= rel.len(),
    decreases rel.len(),
{
    if rel.len() > 0 {
        lemma_in_degree_bound(rel.drop_last(), x);
    }
}

fn in_degree_exec(rel: &Vec<(String, String)>, x: &String) -> (r: usize)
    ensures
        r == in_degree(link_views(rel@), x@),
{
    let ghost ls = link_views(rel@);
    let mut n: usize = 0;
    let mut i: usize = 0;
    assert(ls.take(0) =~= seq![]);
    while i < rel.len()
        invariant
            i <= rel@.len(),
            ls == link_views(rel@),
            n == in_degree(ls.take(i as int), x@),
        decreases rel.len() - i,
    {
        assert(ls.take(i + 1).drop_last() =~= ls.take(i as int));
        assert(ls.take(i + 1).last() == (rel@[i as int].0@, rel@[i as int].1@));
        proof {
            lemma_in_degree_bound(ls.take(i as int), x@);
        }
        if rel[i].1 == *x {
            n = n + 1;
        }
        i = i + 1;
    }
    assert(ls.take(rel@.len() as int) =~= ls);
    n
}

fn targets_exec(rel: &Vec<(String, String)>, x: &String) -> (r: Vec<String>)
    ensures
        str_views(r@) == targets(link_views(rel@), x@),
{
    let ghost ls = link_views(rel@);
    let mut r: Vec<String> = Vec::new();
    let mut i: usize = 0;
    assert(ls.take(0) =~= seq![]);
    while i < rel.len()
        invariant
            i <= rel@.len(),
            ls == link_views(rel@),
            str_views(r@) == targets(ls.take(i as int), x@),
        decreases rel.len() - i,
    {
        assert(ls.take(i + 1).drop_last() =~= ls.take(i as int));
        assert(ls.take(i + 1).last() == (rel@[i as int].0@, rel@[i as int].1@));
        if rel[i].0 == *x {
            let ghost before = str_views(r@);
            r.push(rel[i].1.clone());
            assert(str_views(r@) =~= before.push(rel@[i as int].1@));
        }
        i = i + 1;
    }
    assert(ls.take(rel@.len() as int) =~= ls);
    r
}

pub open spec fn count_views(v: Seq<usize>) -> Seq<nat> {
    v.map_values(|n: usize| n as nat)
}

/// Orders node identifiers (repeats allowed, in node order) topologically
/// under directed links: the sources sorted, then Kahn's algorithm visiting
/// each node's targets in sorted order. Nodes on a cycle are left out.
pub fn kahn_order(ids: &Vec<String>, links: &Vec<(String, String)>) -> (r: Vec<String>)
    ensures
        str_views(r@) == topo_order(str_views(ids@), link_views(links@)),
{
    let dids = dedup_exec(ids);
    let rel = inner_links_exec(links, &dids);
    let ghost dv = str_views(dids@);
    let ghost rv = link_views(rel@);
    let mut counts: Vec<usize> = Vec::new();
    let mut k: usize = 0;
    while k < dids.len()
        invariant
            k <= dids@.len(),
            dv == str_views(dids@),
            rv == link_views(rel@),
            count_views(counts@) == initial_counts(dv, rv).take(k as int),
        decreases dids.len() - k,
    {
        let n = in_degree_exec(&rel, &dids[k]);
        let ghost before = count_views(counts@);
        counts.push(n);
        assert(count_views(counts@) =~= before.push(n as nat));
        assert(initial_counts(dv, rv).take(k + 1) =~= initial_counts(dv, rv).take(k as int).push(
            in_degree(rv, dv[k as int]),
        ));
        k = k + 1;
    }
    assert(initial_counts(dv, rv).take(dids@.len() as int) =~= initial_counts(dv, rv));
    let ghost iv = str_views(ids@);
    let mut zero: Vec<String> = Vec::new();
    let mut i: usize = 0;
    assert(iv.take(0) =~= seq![]);
    while i < ids.len()
        invariant
            i <= ids@.len(),
            iv == str_views(ids@),
            rv == link_views(rel@),
            str_views(zero@) == sources(iv.take(i as int), rv),
        decreases ids.len() - i,
    {
        assert(iv.take(i + 1).drop_last() =~= iv.take(i as int));
        assert(iv.take(i + 1).last() == ids@[i as int]@);
        let n = in_degree_exec(&rel, &ids[i]);
        if n == 0 {
            let ghost before = str_views(zero@);
            zero.push(ids[i].clone());
            assert(str_views(zero@) =~= before.push(ids@[i as int]@));
        }
        i = i + 1;
    }
    assert(iv.take(ids@.len() as int) =~= iv);
    let ghost src = str_views(zero@);
    let queue0 = sort_strings(zero);
    proof {
        lemma_sorted_of(str_views(queue0@), src);
    }
    let mut queue = queue0;
    let mut head: usize = 0;
    let mut order: Vec<String> = Vec::new();
    let ghost c0 = count_views(counts@);
    let ghost fuel0 = str_views(queue@).len() + positive(c0);
    assert(str_views(queue@).skip(0) =~= str_views(queue@));
    assert(str_views(order@) =~= seq![]);
    while head < queue.len()
        invariant
            head <= queue@.len(),
            dv == str_views(dids@),
            rv == link_views(rel@),
            count_views(counts@).len() == dv.len(),
            topo_order(str_views(ids@), link_views(links@)) == kahn(
                dv,
                rv,
                count_views(counts@),
                str_views(queue@).skip(head as int),
                str_views(order@),
                (str_views(queue@).skip(head as int).len() + positive(count_views(counts@))) as nat,
            ),
        decreases queue@.len() - head + positive(count_views(counts@)),
    {
        let x = queue[head].clone();
        let ghost q = str_views(queue@).skip(head as int);
        let ghost c = count_views(counts@);
        let ghost fuel = (q.len() + positive(c)) as nat;
        assert(q[0] == x@);
        let ts0 = targets_exec(&rel, &x);
        let ghost tv = str_views(ts0@);
        let ts = sort_strings(ts0);
        proof {
            lemma_sorted_of(str_views(ts@), tv);
        }
        let ghost tsv = str_views(ts@);
        let ghost order_before = str_views(order@);
        order.push(x.clone());
        assert(str_views(order@) =~= order_before.push(x@));
        head = head + 1;
        assert(str_views(queue@).skip(head as int) =~= q.drop_first());
        let mut j: usize = 0;
        assert(tsv.take(0) =~= seq![]);
        while j < ts.len()
            invariant
                j <= ts@.len(),
                tsv == str_views(ts@),
                dv == str_views(dids@),
                head <= queue@.len(),
                count_views(counts@).len() == dv.len(),
                relax(dv, c, q.drop_first(), tsv.take(j as int)) == (
                    count_views(counts@),
                    str_views(queue@).skip(head as int),
                ),
            decreases ts.len() - j,
        {
            assert(tsv.take(j + 1).drop_last() =~= tsv.take(j as int));
            assert(tsv.take(j + 1).last() == ts@[j as int]@);
            let t = &ts[j];
            let kk = index_of(&dids, t);
            if kk < counts.len() && counts[kk] > 0 {
                let v = counts[kk] - 1;
                let ghost cb = count_views(counts@);
                let ghost qb = str_views(queue@).skip(head as int);
                counts.set(kk, v);
                assert(count_views(counts@) =~= cb.update(kk as int, v as nat));
                if v == 0 {
                    let ghost full = str_views(queue@);
                    queue.push(t.clone());
                    assert(str_views(queue@) =~= full.push(t@));
                    assert(str_views(queue@).skip(head as int) =~= qb.push(t@));
                }
            }
            j = j + 1;
        }
        assert(tsv.take(ts@.len() as int) =~= tsv);
        proof {
            lemma_relax_measure(dv, c, q.drop_first(), tsv);
        }
    }
    proof {
        lemma_kahn_done(dv, rv, count_views(counts@), str_views(queue@).skip(head as int), str_views(order@), (str_views(queue@).skip(head as int).len() + positive(count_views(counts@))) as nat);
    }
    order
}

} // verus!
