//! Previews of a compiled canvas: which candidate a request would reach, and
//! which nodes a change to one node affects.
use crate::canvas::{reach_set, reaches, reaches_within};
use crate::compile::{candidate_view, candidate_views, CandidateView, CompiledCandidate, CompiledCanvasGraph};
use crate::error::{CoreError, ErrorCode};
use crate::graph::{graph_issues, Edge, Node, NodeKind, WorkflowGraph};
use crate::topology::sorted_of;
use crate::routing::SelectionStrategy;
use crate::sort::{insert_by, lemma_insert_by_at, sort_by, sort_strings, sorted, str_views};
use crate::text::{self, lemma_seq_lt_irreflexive, lemma_seq_lt_total, lemma_seq_lt_transitive, seq_lt};
use vstd::prelude::*;

verus! {

/// A request to preview: the public model asked for, the provider nodes
/// that are unavailable, and the latency measured per provider node.
#[derive(Debug, Clone, PartialEq, Eq)]
pub struct RouteSimulationInput {
    pub public_model: String,
    pub unavailable_provider_node_ids: Vec<String>,
    pub latency_ms_by_provider_node: Vec<(String, u64)>,
}

#[derive(Debug, Clone, PartialEq, Eq)]
pub struct RouteSimulationResult {
    pub public_model: String,
    pub strategy: SelectionStrategy,
    pub selected_provider_node_id: Option<String>,
    pub selected_upstream_model: Option<String>,
    pub ordered_candidates: Vec<String>,
    pub explanation: String,
}

/// The latency measured for a provider node, where there is one.
pub open spec fn latency_of(lat: Seq<(String, u64)>, id: Seq<char>) -> Option<u64>
    decreases lat.len(),
{
    if lat.len() == 0 {
        None
    } else if lat[0].0@ == id {
        Some(lat[0].1)
    } else {
        latency_of(lat.drop_first(), id)
    }
}

/// A missing latency sorts last.
pub open spec fn latency_key(lat: Seq<(String, u64)>, id: Seq<char>) -> u64 {
    match latency_of(lat, id) {
        Some(v) => v,
        None => u64::MAX,
    }
}

/// The order of a strategy: lower priority then provider node id; weighted
/// round robin puts heavier candidates first and lowest latency faster
/// ones, each falling back to that order.
pub open spec fn preview_lt(s: SelectionStrategy, lat: Seq<(String, u64)>, a: CandidateView, b: CandidateView) -> bool {
    let tie = a.priority < b.priority || (a.priority == b.priority && seq_lt(a.provider_node_id, b.provider_node_id));
    match s {
        SelectionStrategy::PriorityFailover => tie,
        SelectionStrategy::WeightedRoundRobin => a.weight > b.weight || (a.weight == b.weight && tie),
        SelectionStrategy::LowestLatency => {
            let la = latency_key(lat, a.provider_node_id);
            let lb = latency_key(lat, b.provider_node_id);
            la < lb || (la == lb && tie)
        },
    }
}

/// The candidates of the public model whose provider node is available,
/// among the first `n`.
pub open spec fn usable(cs: Seq<CandidateView>, model: Seq<char>, unavailable: Seq<Seq<char>>, n: int) -> Seq<CandidateView>
    decreases n,
{
    if n <= 0 {
        seq![]
    } else {
        let rest = usable(cs, model, unavailable, n - 1);
        let c = cs[n - 1];
        if c.public_model == model && !unavailable.contains(c.provider_node_id) {
            rest.push(c)
        } else {
            rest
        }
    }
}

/// The usable candidates in the order of the strategy.
pub open spec fn preview_order(compiled: CompiledCanvasGraph, input: RouteSimulationInput) -> Seq<CandidateView> {
    let cs = candidate_views(compiled.report.candidates@);
    let s = compiled.report.selected_strategy;
    let lat = input.latency_ms_by_provider_node@;
    sort_by(
        usable(cs, input.public_model@, str_views(input.unavailable_provider_node_ids@), cs.len() as int),
        |a: CandidateView, b: CandidateView| preview_lt(s, lat, a, b),
    )
}

pub open spec fn preview_explanation(s: SelectionStrategy, measured: bool) -> Seq<char> {
    match s {
        SelectionStrategy::PriorityFailover => "按健康过滤、优先级和稳定 ID 选择。"@,
        SelectionStrategy::WeightedRoundRobin => "按权重预览下一候选；实时平滑轮询游标由 Runtime 独立维护。"@,
        SelectionStrategy::LowestLatency => if measured {
            "按可用延迟样本选择最低延迟候选。"@
        } else {
            "延迟样本不足，回退到优先级顺序。"@
        },
    }
}

/// What a preview reports: the first candidate in the order of the strategy
/// and the order itself, or no selection when no candidate is usable.
pub open spec fn preview_is(r: RouteSimulationResult, compiled: CompiledCanvasGraph, input: RouteSimulationInput) -> bool {
    let ord = preview_order(compiled, input);
    let s = compiled.report.selected_strategy;
    &&& r.public_model@ == input.public_model@
    &&& r.strategy == s
    &&& str_views(r.ordered_candidates@) == ord.map_values(|c: CandidateView| c.provider_node_id)
    &&& if ord.len() == 0 {
        &&& r.selected_provider_node_id is None
        &&& r.selected_upstream_model is None
        &&& r.explanation@ == "没有满足当前健康条件的候选 Provider。"@
    } else {
        &&& r.selected_provider_node_id matches Some(id) && id@ == ord[0].provider_node_id
        &&& r.selected_upstream_model matches Some(m) && m@ == ord[0].upstream_model
        &&& r.explanation@ == preview_explanation(
            s,
            latency_of(input.latency_ms_by_provider_node@, ord[0].provider_node_id) is Some,
        )
    }
}

fn latency_lookup(lat: &Vec<(String, u64)>, id: &String) -> (r: Option<u64>)
    ensures
        r == latency_of(lat@, id@),
{
    assert(lat@.subrange(0, lat@.len() as int) =~= lat@);
    let mut i: usize = 0;
    while i < lat.len()
        invariant
            i <= lat@.len(),
            latency_of(lat@, id@) == latency_of(lat@.subrange(i as int, lat@.len() as int), id@),
        decreases lat.len() - i,
    {
        let ghost rest = lat@.subrange(i as int, lat@.len() as int);
        assert(rest[0] == lat@[i as int]);
        if lat[i].0 == *id {
            return Some(lat[i].1);
        }
        assert(rest.drop_first() =~= lat@.subrange(i + 1, lat@.len() as int));
        i = i + 1;
    }
    None
}

fn latency_key_exec(lat: &Vec<(String, u64)>, id: &String) -> (r: u64)
    ensures
        r == latency_key(lat@, id@),
{
    match latency_lookup(lat, id) {
        Some(v) => v,
        None => u64::MAX,
    }
}

fn preview_less(s: SelectionStrategy, lat: &Vec<(String, u64)>, a: &CompiledCandidate, b: &CompiledCandidate) -> (r: bool)
    ensures
        r == preview_lt(s, lat@, candidate_view(*a), candidate_view(*b)),
{
    let tie = a.priority < b.priority || (a.priority == b.priority && text::str_lt(
        a.provider_node_id.as_str(),
        b.provider_node_id.as_str(),
    ));
    match s {
        SelectionStrategy::PriorityFailover => tie,
        SelectionStrategy::WeightedRoundRobin => a.weight > b.weight || (a.weight == b.weight && tie),
        SelectionStrategy::LowestLatency => {
            let la = latency_key_exec(lat, &a.provider_node_id);
            let lb = latency_key_exec(lat, &b.provider_node_id);
            la < lb || (la == lb && tie)
        },
    }
}

fn contains_id(v: &Vec<String>, x: &String) -> (r: bool)
    ensures
        r == str_views(v@).contains(x@),
{
    let mut i: usize = 0;
    while i < v.len()
        invariant
            i <= v@.len(),
            forall|k: int| 0 <= k < i ==> v@[k]@ != x@,
        decreases v.len() - i,
    {
        if v[i] == *x {
            assert(str_views(v@)[i as int] == x@);
            return true;
        }
        i = i + 1;
    }
    proof {
        if str_views(v@).contains(x@) {
            let k = choose|k: int| 0 <= k < str_views(v@).len() && str_views(v@)[k] == x@;
            assert(v@[k]@ == x@);
        }
    }
    false
}

impl CompiledCandidate {
    pub fn duplicate(&self) -> (r: Self)
        ensures
            candidate_view(r) == candidate_view(*self),
    {
        CompiledCandidate {
            provider_node_id: self.provider_node_id.clone(),
            asset_id: self.asset_id.clone(),
            public_model: self.public_model.clone(),
            upstream_model: self.upstream_model.clone(),
            priority: self.priority,
            weight: self.weight,
        }
    }
}

/// Previews one routing decision without resolving secrets or sending a
/// request. Weighted routing reports the next candidate of a deterministic
/// preview; the live round-robin cursor stays with the runtime.
pub fn simulate_route(compiled: &CompiledCanvasGraph, input: &RouteSimulationInput) -> (r: Result<
    RouteSimulationResult,
    crate::error::CoreError,
>)
    ensures
        r matches Ok(res) && preview_is(res, *compiled, *input),
{
    let cs = &compiled.report.candidates;
    let s = compiled.report.selected_strategy;
    let lat = &input.latency_ms_by_provider_node;
    let ghost cv = candidate_views(cs@);
    let ghost un = str_views(input.unavailable_provider_node_ids@);
    let ghost lt = |a: CandidateView, b: CandidateView| preview_lt(s, lat@, a, b);
    let mut usable_list: Vec<CompiledCandidate> = Vec::new();
    let mut i: usize = 0;
    assert(candidate_views(usable_list@) =~= seq![]);
    while i < cs.len()
        invariant
            i <= cs@.len(),
            cv == candidate_views(cs@),
            un == str_views(input.unavailable_provider_node_ids@),
            candidate_views(usable_list@) == usable(cv, input.public_model@, un, i as int),
        decreases cs.len() - i,
    {
        let c = &cs[i];
        if c.public_model == input.public_model && !contains_id(&input.unavailable_provider_node_ids, &c.provider_node_id) {
            let ghost before = candidate_views(usable_list@);
            usable_list.push(c.duplicate());
            assert(candidate_views(usable_list@) =~= before.push(cv[i as int]));
        }
        i = i + 1;
    }
    let ghost uv = candidate_views(usable_list@);
    let mut ordered: Vec<CompiledCandidate> = Vec::new();
    let mut j: usize = 0;
    assert(uv.take(0) =~= seq![]);
    while j < usable_list.len()
        invariant
            j <= usable_list@.len(),
            uv == candidate_views(usable_list@),
            lt == (|a: CandidateView, b: CandidateView| preview_lt(s, lat@, a, b)),
            candidate_views(ordered@) == sort_by(uv.take(j as int), lt),
        decreases usable_list.len() - j,
    {
        let x = usable_list[j].duplicate();
        let ghost ov = candidate_views(ordered@);
        let mut k: usize = 0;
        while k < ordered.len() && !preview_less(s, lat, &x, &ordered[k])
            invariant
                k <= ordered@.len(),
                ov == candidate_views(ordered@),
                lt == (|a: CandidateView, b: CandidateView| preview_lt(s, lat@, a, b)),
                forall|m: int| 0 <= m < k ==> !lt(candidate_view(x), #[trigger] ov[m]),
            decreases ordered@.len() - k,
        {
            k = k + 1;
        }
        proof {
            lemma_insert_by_at(ov, candidate_view(x), lt, k as int);
            assert(uv.take(j + 1).drop_last() =~= uv.take(j as int));
            assert(uv.take(j + 1).last() == candidate_view(x));
        }
        ordered.insert(k, x);
        assert(candidate_views(ordered@) =~= ov.insert(k as int, candidate_view(x)));
        j = j + 1;
    }
    assert(uv.take(usable_list@.len() as int) =~= uv);
    let ghost ord = candidate_views(ordered@);
    assert(ord == preview_order(*compiled, *input));
    let mut ids: Vec<String> = Vec::new();
    let mut p: usize = 0;
    while p < ordered.len()
        invariant
            p <= ordered@.len(),
            ord == candidate_views(ordered@),
            str_views(ids@) == ord.take(p as int).map_values(|c: CandidateView| c.provider_node_id),
        decreases ordered.len() - p,
    {
        ids.push(ordered[p].provider_node_id.clone());
        assert(ord.take(p + 1).map_values(|c: CandidateView| c.provider_node_id) =~= ord.take(p as int).map_values(
            |c: CandidateView| c.provider_node_id,
        ).push(ord[p as int].provider_node_id));
        assert(str_views(ids@) =~= ord.take(p + 1).map_values(|c: CandidateView| c.provider_node_id));
        p = p + 1;
    }
    assert(ord.take(ordered@.len() as int) =~= ord);
    if ordered.len() == 0 {
        return Ok(
            RouteSimulationResult {
                public_model: input.public_model.clone(),
                strategy: s,
                selected_provider_node_id: None,
                selected_upstream_model: None,
                ordered_candidates: ids,
                explanation: text::owned("没有满足当前健康条件的候选 Provider。"),
            },
        );
    }
    let first = &ordered[0];
    let explanation = match s {
        SelectionStrategy::PriorityFailover => "按健康过滤、优先级和稳定 ID 选择。",
        SelectionStrategy::WeightedRoundRobin => "按权重预览下一候选；实时平滑轮询游标由 Runtime 独立维护。",
        SelectionStrategy::LowestLatency => if latency_lookup(lat, &first.provider_node_id).is_some() {
            "按可用延迟样本选择最低延迟候选。"
        } else {
            "延迟样本不足，回退到优先级顺序。"
        },
    };
    Ok(
        RouteSimulationResult {
            public_model: input.public_model.clone(),
            strategy: s,
            selected_provider_node_id: Some(first.provider_node_id.clone()),
            selected_upstream_model: Some(first.upstream_model.clone()),
            ordered_candidates: ids,
            explanation: text::owned(explanation),
        },
    )
}

#[derive(Debug, Clone, PartialEq, Eq)]
pub struct NodeImpact {
    pub node_id: String,
    pub downstream_nodes: Vec<String>,
    pub affected_publishers: Vec<String>,
}

/// Whether `t` lies downstream of `x`: an enabled edge leaves `x` towards a
/// node from which an enabled path leads to `t`.
pub open spec fn downstream(es: Seq<Edge>, x: Seq<char>, t: Seq<char>) -> bool {
    exists|i: int| 0 <= i < es.len() && #[trigger] es[i].enabled && es[i].from.node@ == x && reaches(es, es[i].to.node@, t)
}

pub open spec fn has_node(ns: Seq<Node>, id: Seq<char>) -> bool {
    exists|k: int| 0 <= k < ns.len() && #[trigger] ns[k].id@ == id
}

/// Each element before the next, so none repeats.
pub open spec fn strictly_sorted(s: Seq<Seq<char>>) -> bool {
    forall|i: int, j: int| 0 <= i < j < s.len() ==> seq_lt(#[trigger] s[i], #[trigger] s[j])
}

/// The ids of the publisher nodes among the first `n` that lie downstream
/// of `x`, in node order.
pub open spec fn publisher_hits(ns: Seq<Node>, es: Seq<Edge>, x: Seq<char>, n: int) -> Seq<Seq<char>>
    decreases n,
{
    if n <= 0 {
        seq![]
    } else {
        let rest = publisher_hits(ns, es, x, n - 1);
        if ns[n - 1].kind == NodeKind::Publisher && downstream(es, x, ns[n - 1].id@) {
            rest.push(ns[n - 1].id@)
        } else {
            rest
        }
    }
}

/// What a node affects: every node downstream of it, once each and sorted,
/// and the publishers among them, sorted.
pub open spec fn impact_is(r: NodeImpact, g: WorkflowGraph, x: Seq<char>) -> bool {
    let d = str_views(r.downstream_nodes@);
    &&& r.node_id@ == x
    &&& strictly_sorted(d)
    &&& forall|t: Seq<char>| d.contains(t) <==> downstream(g.edges@, x, t)
    &&& str_views(r.affected_publishers@) == sorted_of(publisher_hits(g.nodes@, g.edges@, x, g.nodes@.len() as int))
}

proof fn lemma_reach_ends_at_target(es: Seq<Edge>, y: Seq<char>, t: Seq<char>, k: nat)
    requires
        reaches_within(es, y, t, k),
    ensures
        y == t || exists|i: int| 0 <= i < es.len() && #[trigger] es[i].enabled && es[i].to.node@ == t,
    decreases k,
{
    if k > 0 && !reaches_within(es, y, t, (k - 1) as nat) {
        let i = choose|i: int|
            0 <= i < es.len() && #[trigger] es[i].enabled && es[i].from.node@ == y && reaches_within(es, es[i].to.node@, t, (k - 1) as nat);
        lemma_reach_ends_at_target(es, es[i].to.node@, t, (k - 1) as nat);
    } else if k > 0 {
        lemma_reach_ends_at_target(es, y, t, (k - 1) as nat);
    }
}

/// The distinct targets of enabled edges, in order of first appearance.
fn edge_targets(es: &Vec<Edge>) -> (r: Vec<String>)
    ensures
        str_views(r@).no_duplicates(),
        forall|t: Seq<char>| #![trigger str_views(r@).contains(t)]
            str_views(r@).contains(t) <==> exists|i: int| 0 <= i < es@.len() && #[trigger] es@[i].enabled && es@[i].to.node@ == t,
{
    let mut r: Vec<String> = Vec::new();
    let mut e: usize = 0;
    while e < es.len()
        invariant
            e <= es@.len(),
            str_views(r@).no_duplicates(),
            forall|t: Seq<char>| #![trigger str_views(r@).contains(t)]
                str_views(r@).contains(t) <==> exists|i: int| 0 <= i < e && #[trigger] es@[i].enabled && es@[i].to.node@ == t,
        decreases es.len() - e,
    {
        let ghost before = str_views(r@);
        if es[e].enabled && !contains_id(&r, &es[e].to.node) {
            r.push(es[e].to.node.clone());
            assert(str_views(r@) =~= before.push(es@[e as int].to.node@));
        }
        assert forall|t: Seq<char>| #![trigger str_views(r@).contains(t)]
            str_views(r@).contains(t) <==> exists|i: int| 0 <= i < e + 1 && #[trigger] es@[i].enabled && es@[i].to.node@ == t by {
            if str_views(r@).contains(t) && !before.contains(t) {
                let m = choose|m: int| 0 <= m < str_views(r@).len() && str_views(r@)[m] == t;
                if m < before.len() {
                    assert(before[m] == t);
                }
                assert(es@[e as int].to.node@ == t);
            }
            if before.contains(t) {
                let m = choose|m: int| 0 <= m < before.len() && before[m] == t;
                assert(str_views(r@)[m] == t);
            }
            if exists|i: int| 0 <= i < e + 1 && #[trigger] es@[i].enabled && es@[i].to.node@ == t {
                let i = choose|i: int| 0 <= i < e + 1 && #[trigger] es@[i].enabled && es@[i].to.node@ == t;
                if i == e && !before.contains(t) {
                    assert(str_views(r@)[before.len() as int] == t);
                }
            }
        }
        e = e + 1;
    }
    r
}

fn is_downstream(es: &Vec<Edge>, x: &str, t: &String) -> (r: bool)
    ensures
        r == downstream(es@, x@, t@),
{
    let back = reach_set(es, t, es.len());
    let mut i: usize = 0;
    while i < es.len()
        invariant
            i <= es@.len(),
            forall|y: Seq<char>| str_views(back@).contains(y) <==> reaches_within(es@, y, t@, es@.len() as nat),
            forall|j: int| 0 <= j < i ==> !(#[trigger] es@[j].enabled && es@[j].from.node@ == x@ && reaches(es@, es@[j].to.node@, t@)),
        decreases es.len() - i,
    {
        if es[i].enabled && text::str_eq(es[i].from.node.as_str(), x) && contains_id(&back, &es[i].to.node) {
            return true;
        }
        i = i + 1;
    }
    false
}

/// Adds `x` to a strictly sorted list unless it is there.
pub(crate) fn insert_sorted_unique(v: &mut Vec<String>, x: String)
    requires
        strictly_sorted(str_views(old(v)@)),
    ensures
        strictly_sorted(str_views(final(v)@)),
        forall|t: Seq<char>| #![trigger str_views(final(v)@).contains(t)]
            str_views(final(v)@).contains(t) <==> (str_views(old(v)@).contains(t) || t == x@),
{
    let ghost before = str_views(v@);
    let mut k: usize = 0;
    while k < v.len() && text::str_lt(v[k].as_str(), x.as_str())
        invariant
            k <= v@.len(),
            before == str_views(v@),
            forall|j: int| 0 <= j < k ==> seq_lt(#[trigger] before[j], x@),
        decreases v.len() - k,
    {
        k = k + 1;
    }
    if k < v.len() && v[k] == x {
        assert(before[k as int] == x@);
        return;
    }
    proof {
        if k < before.len() {
            lemma_seq_lt_total(before[k as int], x@);
        }
    }
    v.insert(k, x);
    proof {
        let after = str_views(v@);
        assert(after =~= before.insert(k as int, x@));
        assert forall|p: int, q: int| 0 <= p < q < after.len() implies seq_lt(#[trigger] after[p], #[trigger] after[q]) by {
            if q < k {
                assert(after[q] == before[q] && after[p] == before[p]);
            } else if q == k {
                assert(after[p] == before[p]);
            } else if p == k {
                assert(after[q] == before[q - 1]);
                if q - 1 > k {
                    lemma_seq_lt_transitive(x@, before[k as int], before[q - 1]);
                }
            } else if p < k {
                assert(after[p] == before[p] && after[q] == before[q - 1]);
            } else {
                assert(after[p] == before[p - 1] && after[q] == before[q - 1]);
            }
        }
        assert forall|t: Seq<char>| #![trigger after.contains(t)] after.contains(t) <==> (before.contains(t) || t == x@) by {
            if after.contains(t) {
                let m = choose|m: int| 0 <= m < after.len() && after[m] == t;
                if m < k {
                    assert(before[m] == t);
                } else if m > k {
                    assert(before[m - 1] == t);
                }
            }
            if before.contains(t) {
                let m = choose|m: int| 0 <= m < before.len() && before[m] == t;
                if m < k {
                    assert(after[m] == t);
                } else {
                    assert(after[m + 1] == t);
                }
            }
            if t == x@ {
                assert(after[k as int] == t);
            }
        }
    }
}

fn find_node_id(ns: &Vec<Node>, id: &str) -> (r: bool)
    ensures
        r == has_node(ns@, id@),
{
    let mut k: usize = 0;
    while k < ns.len()
        invariant
            k <= ns@.len(),
            forall|m: int| 0 <= m < k ==> ns@[m].id@ != id@,
        decreases ns.len() - k,
    {
        if text::str_eq(ns[k].id.as_str(), id) {
            assert(ns@[k as int].id@ == id@);
            return true;
        }
        k = k + 1;
    }
    false
}

impl WorkflowGraph {
    /// The nodes a change to one node affects, with the publishers among
    /// them. The graph must validate and hold the node.
    pub fn impact_of_node(&self, node_id: &str) -> (r: Result<NodeImpact, CoreError>)
        ensures
            graph_issues(*self).len() > 0 ==> (r matches Err(e) && e.code == ErrorCode::GraphInvalid && e@.issues == graph_issues(
                *self,
            )),
            graph_issues(*self).len() == 0 && !has_node(self.nodes@, node_id@) ==> (r matches Err(e) && e.code
                == ErrorCode::GraphInvalid && e.message@ == "目标节点不存在"@ && e@.issues.len() == 0),
            graph_issues(*self).len() == 0 && has_node(self.nodes@, node_id@) ==> (r matches Ok(imp) && impact_is(
                imp,
                *self,
                node_id@,
            )),
    {
        match self.validate() {
            Err(e) => {
                return Err(e);
            },
            Ok(_) => {},
        }
        if !find_node_id(&self.nodes, node_id) {
            return Err(CoreError::new(ErrorCode::GraphInvalid, "目标节点不存在"));
        }
        let es = &self.edges;
        let targets = edge_targets(es);
        let mut downstream_nodes: Vec<String> = Vec::new();
        let mut i: usize = 0;
        while i < targets.len()
            invariant
                i <= targets@.len(),
                strictly_sorted(str_views(downstream_nodes@)),
                forall|t: Seq<char>| #![trigger str_views(downstream_nodes@).contains(t)]
                    str_views(downstream_nodes@).contains(t) <==> (str_views(targets@).take(i as int).contains(t) && downstream(
                        es@,
                        node_id@,
                        t,
                    )),
            decreases targets.len() - i,
        {
            let ghost before = str_views(downstream_nodes@);
            if is_downstream(es, node_id, &targets[i]) {
                insert_sorted_unique(&mut downstream_nodes, targets[i].clone());
            }
            assert forall|t: Seq<char>| #![trigger str_views(downstream_nodes@).contains(t)]
                str_views(downstream_nodes@).contains(t) <==> (str_views(targets@).take(i + 1).contains(t) && downstream(
                    es@,
                    node_id@,
                    t,
                )) by {
                let tk = str_views(targets@).take(i as int);
                let tk1 = str_views(targets@).take(i + 1);
                assert(tk1 =~= tk.push(targets@[i as int]@));
                if tk1.contains(t) && !tk.contains(t) {
                    let m = choose|m: int| 0 <= m < tk1.len() && tk1[m] == t;
                    if m < tk.len() {
                        assert(tk[m] == t);
                    }
                }
                if tk.contains(t) {
                    let m = choose|m: int| 0 <= m < tk.len() && tk[m] == t;
                    assert(tk1[m] == t);
                }
                if t == targets@[i as int]@ {
                    assert(tk1[i as int] == t);
                }
            }
            i = i + 1;
        }
        assert(str_views(targets@).take(targets@.len() as int) =~= str_views(targets@));
        assert forall|t: Seq<char>| #![trigger str_views(downstream_nodes@).contains(t)]
            str_views(downstream_nodes@).contains(t) <==> downstream(es@, node_id@, t) by {
            if downstream(es@, node_id@, t) {
                let j = choose|j: int|
                    0 <= j < es@.len() && #[trigger] es@[j].enabled && es@[j].from.node@ == node_id@ && reaches(
                        es@,
                        es@[j].to.node@,
                        t,
                    );
                lemma_reach_ends_at_target(es@, es@[j].to.node@, t, es@.len() as nat);
                assert(str_views(targets@).contains(t));
            }
        }
        let ns = &self.nodes;
        let mut hits: Vec<String> = Vec::new();
        let mut k: usize = 0;
        while k < ns.len()
            invariant
                k <= ns@.len(),
                str_views(hits@) == publisher_hits(ns@, es@, node_id@, k as int),
            decreases ns.len() - k,
        {
            if ns[k].kind == NodeKind::Publisher && is_downstream(es, node_id, &ns[k].id) {
                let ghost before = str_views(hits@);
                hits.push(ns[k].id.clone());
                assert(str_views(hits@) =~= before.push(ns@[k as int].id@));
            }
            k = k + 1;
        }
        let ghost hv = str_views(hits@);
        let affected_publishers = sort_strings(hits);
        proof {
            crate::topology::lemma_sorted_of(str_views(affected_publishers@), hv);
        }
        Ok(NodeImpact { node_id: text::owned(node_id), downstream_nodes, affected_publishers })
    }
}

} // verus!
