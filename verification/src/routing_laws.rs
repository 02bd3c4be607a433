//! Routing decides on the set of candidates: the order in which they are
//! listed does not change the decision.
use crate::routing::{
    best_rank, best_rank_upto, eligible, first_least, has_tier, health_rank, in_tier, key_ltf, latency_ltf, lemma_best_rank_upto, lemma_key_lt_strict, lemma_latency_lt_strict, lowest_latency_choice, sampled_of,
    stateless_choice, tier_pred, within_hysteresis, CandidateView, PolicyView, RequestView,
};
use crate::routing::{
    clamp_weight, decision_is, decision_spec, raised_scores, reason_for, sat_i64, score_or_zero, tier_total,
    weighted_next, weighted_spec, weighted_winner, RouteDecision, SelectionStrategy,
};
use crate::error::CoreError;
use crate::text::{lemma_seq_lt_total, seq_lt};
use vstd::prelude::*;

verus! {

/// `b` lists the candidates of `a` in another order: `b[i]` is `a[to[i]]`
/// and `a[j]` is `b[from[j]]`, `to` and `from` undoing each other.
pub open spec fn reordered(a: Seq<CandidateView>, b: Seq<CandidateView>, to: Seq<int>, from: Seq<int>) -> bool {
    &&& a.len() == b.len() && to.len() == b.len() && from.len() == a.len()
    &&& forall|i: int| 0 <= i < b.len() ==> 0 <= #[trigger] to[i] < a.len() && b[i] == a[to[i]]
    &&& forall|j: int| 0 <= j < a.len() ==> 0 <= #[trigger] from[j] < b.len() && a[j] == b[from[j]]
    &&& forall|i: int| 0 <= i < b.len() ==> from[#[trigger] to[i]] == i
    &&& forall|j: int| 0 <= j < a.len() ==> to[#[trigger] from[j]] == j
}

/// No two candidates share an id.
pub open spec fn distinct_ids(a: Seq<CandidateView>) -> bool {
    forall|i: int, j: int| 0 <= i < j < a.len() ==> (#[trigger] a[i]).id != (#[trigger] a[j]).id
}

proof fn lemma_best_rank_reordered(r: RequestView, a: Seq<CandidateView>, b: Seq<CandidateView>, to: Seq<int>, from: Seq<int>)
    requires
        reordered(a, b, to, from),
    ensures
        best_rank(r, a) == best_rank(r, b),
{
    lemma_best_rank_upto(r, a, a.len() as int);
    lemma_best_rank_upto(r, b, b.len() as int);
    let ba = best_rank(r, a);
    let bb = best_rank(r, b);
    if ba < 3 {
        let j = choose|j: int| 0 <= j < a.len() && eligible(r, a[j]) && health_rank(a[j].health) == best_rank_upto(r, a, a.len() as int);
        let k = from[j];
        assert(b[k] == a[j]);
        assert(bb <= health_rank(b[k].health));
    }
    if bb < 3 {
        let j = choose|j: int| 0 <= j < b.len() && eligible(r, b[j]) && health_rank(b[j].health) == best_rank_upto(r, b, b.len() as int);
        let k = to[j];
        assert(a[k] == b[j]);
        assert(ba <= health_rank(a[k].health));
    }
}

/// Index predicates that hold exactly of the candidates satisfying `q`.
pub open spec fn pred_of(cs: Seq<CandidateView>, p: spec_fn(int) -> bool, q: spec_fn(CandidateView) -> bool) -> bool {
    forall|i: int| #[trigger] p(i) <==> (0 <= i < cs.len() && q(cs[i]))
}

/// An order in which two candidates that are not ordered share an id.
pub open spec fn ties_share_id(lt: spec_fn(CandidateView, CandidateView) -> bool) -> bool {
    forall|x: CandidateView, y: CandidateView| #[trigger] lt(x, y) || #[trigger] lt(y, x) || x.id == y.id
}

proof fn lemma_first_least_reordered(
    a: Seq<CandidateView>,
    b: Seq<CandidateView>,
    to: Seq<int>,
    from: Seq<int>,
    pa: spec_fn(int) -> bool,
    pb: spec_fn(int) -> bool,
    q: spec_fn(CandidateView) -> bool,
    lt: spec_fn(CandidateView, CandidateView) -> bool,
    i: int,
    j: int,
)
    requires
        reordered(a, b, to, from),
        distinct_ids(a),
        pred_of(a, pa, q),
        pred_of(b, pb, q),
        ties_share_id(lt),
        first_least(a, pa, lt, i),
        first_least(b, pb, lt, j),
    ensures
        a[i] == b[j],
{
    let k = from[i];
    assert(b[k] == a[i]);
    assert(pb(k));
    assert(!lt(b[k], b[j]));
    let m = to[j];
    assert(a[m] == b[j]);
    assert(pa(m));
    assert(!lt(a[m], a[i]));
    assert(lt(a[i], a[m]) || lt(a[m], a[i]) || a[i].id == a[m].id);
    if m != i {
        if m < i {
            assert(a[m].id != a[i].id);
        } else {
            assert(a[i].id != a[m].id);
        }
    }
}

proof fn lemma_orders_share_ids()
    ensures
        ties_share_id(key_ltf()),
        ties_share_id(latency_ltf()),
{
    assert forall|x: CandidateView, y: CandidateView| #[trigger] key_ltf()(x, y) || #[trigger] key_ltf()(y, x) || x.id == y.id by {
        lemma_key_lt_strict(x, y);
    }
    assert forall|x: CandidateView, y: CandidateView| #[trigger] latency_ltf()(x, y) || #[trigger] latency_ltf()(y, x) || x.id == y.id by {
        lemma_latency_lt_strict(x, y);
    }
}

proof fn lemma_exists_reordered(
    a: Seq<CandidateView>,
    b: Seq<CandidateView>,
    to: Seq<int>,
    from: Seq<int>,
    pa: spec_fn(int) -> bool,
    pb: spec_fn(int) -> bool,
    q: spec_fn(CandidateView) -> bool,
)
    requires
        reordered(a, b, to, from),
        pred_of(a, pa, q),
        pred_of(b, pb, q),
    ensures
        (exists|i: int| #[trigger] pa(i)) <==> (exists|j: int| #[trigger] pb(j)),
{
    if exists|i: int| #[trigger] pa(i) {
        let i = choose|i: int| #[trigger] pa(i);
        assert(pb(from[i]));
    }
    if exists|j: int| #[trigger] pb(j) {
        let j = choose|j: int| #[trigger] pb(j);
        assert(pa(to[j]));
    }
}

/// The candidate a decision without weighted state picks does not depend
/// on the order in which the candidates are listed, when their ids are
/// distinct; neither does whether any candidate is in the healthiest tier.
pub proof fn law_stateless_choice_ignores_order(
    p: PolicyView,
    r: RequestView,
    a: Seq<CandidateView>,
    b: Seq<CandidateView>,
    to: Seq<int>,
    from: Seq<int>,
    i: int,
    j: int,
)
    requires
        reordered(a, b, to, from),
        distinct_ids(a),
        stateless_choice(p, r, a, i),
        stateless_choice(p, r, b, j),
    ensures
        a[i] == b[j],
        has_tier(r, a) == has_tier(r, b),
{
    lemma_best_rank_reordered(r, a, b, to, from);
    lemma_orders_share_ids();
    let best = best_rank(r, a);
    let q = |c: CandidateView| eligible(r, c) && health_rank(c.health) == best;
    let pa = tier_pred(r, a);
    let pb = tier_pred(r, b);
    assert(pred_of(a, pa, q));
    assert(pred_of(b, pb, q));
    lemma_exists_reordered(a, b, to, from, pa, pb, q);
    assert(has_tier(r, a) == (exists|k: int| #[trigger] pa(k)));
    assert(has_tier(r, b) == (exists|k: int| #[trigger] pb(k)));
    if p.selection_strategy == SelectionStrategy::LowestLatency {
        let h = p.latency_hysteresis_ms;
        let sa = sampled_of(a, pa);
        let sb = sampled_of(b, pb);
        let qs = |c: CandidateView| q(c) && c.latency_ms is Some;
        assert(pred_of(a, sa, qs));
        assert(pred_of(b, sb, qs));
        lemma_exists_reordered(a, b, to, from, sa, sb, qs);
        if !(exists|k: int| #[trigger] sa(k)) {
            lemma_first_least_reordered(a, b, to, from, pa, pb, q, key_ltf(), i, j);
        } else {
            let ba = choose|x: int|
                first_least(a, sa, latency_ltf(), x) && if exists|k: int| #[trigger] within_hysteresis(a, pa, a[x], h)(k) {
                    first_least(a, within_hysteresis(a, pa, a[x], h), key_ltf(), i)
                } else {
                    i == x
                };
            let bb = choose|x: int|
                first_least(b, sb, latency_ltf(), x) && if exists|k: int| #[trigger] within_hysteresis(b, pb, b[x], h)(k) {
                    first_least(b, within_hysteresis(b, pb, b[x], h), key_ltf(), j)
                } else {
                    j == x
                };
            assert(lowest_latency_choice(a, pa, h, i));
            assert(lowest_latency_choice(b, pb, h, j));
            lemma_first_least_reordered(a, b, to, from, sa, sb, qs, latency_ltf(), ba, bb);
            let best_c = a[ba];
            let ha = within_hysteresis(a, pa, best_c, h);
            let hb = within_hysteresis(b, pb, best_c, h);
            let qh = |c: CandidateView| q(c) && c.priority < best_c.priority && c.latency_ms is Some
                && c.latency_ms.unwrap() <= crate::routing::sat_add_u64(crate::routing::latency_of(best_c), h);
            assert(pred_of(a, ha, qh));
            assert(pred_of(b, hb, qh));
            lemma_exists_reordered(a, b, to, from, ha, hb, qh);
            if exists|k: int| #[trigger] ha(k) {
                lemma_first_least_reordered(a, b, to, from, ha, hb, qh, key_ltf(), i, j);
            }
        }
    } else {
        lemma_first_least_reordered(a, b, to, from, pa, pb, q, key_ltf(), i, j);
    }
}

// ---- Weighted selection ----
proof fn lemma_tier_reordered(r: RequestView, a: Seq<CandidateView>, b: Seq<CandidateView>, to: Seq<int>, from: Seq<int>)
    requires
        reordered(a, b, to, from),
    ensures
        has_tier(r, a) == has_tier(r, b),
        best_rank(r, a) == best_rank(r, b),
        pred_of(a, tier_pred(r, a), |c: CandidateView| eligible(r, c) && health_rank(c.health) == best_rank(r, a)),
        pred_of(b, tier_pred(r, b), |c: CandidateView| eligible(r, c) && health_rank(c.health) == best_rank(r, a)),
{
    lemma_best_rank_reordered(r, a, b, to, from);
    let q = |c: CandidateView| eligible(r, c) && health_rank(c.health) == best_rank(r, a);
    let pa = tier_pred(r, a);
    let pb = tier_pred(r, b);
    assert(pred_of(a, pa, q));
    assert(pred_of(b, pb, q));
    lemma_exists_reordered(a, b, to, from, pa, pb, q);
    lemma_has_tier_pred(r, a);
    lemma_has_tier_pred(r, b);
}

proof fn lemma_has_tier_pred(r: RequestView, cs: Seq<CandidateView>)
    ensures
        has_tier(r, cs) == (exists|k: int| #[trigger] tier_pred(r, cs)(k)),
{
    let p = tier_pred(r, cs);
    if has_tier(r, cs) {
        let j = choose|j: int| in_tier(r, cs, j);
        assert(p(j));
    }
    if exists|k: int| #[trigger] p(k) {
        let k = choose|k: int| #[trigger] p(k);
        assert(in_tier(r, cs, k));
    }
}

/// The raised scores hold, for each tier candidate, its previous score
/// plus its clamped weight, and nothing else.
proof fn lemma_raised_scores(m: Map<Seq<char>, i64>, cs: Seq<CandidateView>, p: spec_fn(int) -> bool, n: int)
    requires
        0 <= n <= cs.len(),
        distinct_ids(cs),
    ensures
        forall|k: Seq<char>| #[trigger] raised_scores(m, cs, p, n).contains_key(k) <==> exists|i: int| 0 <= i < n && p(i) && cs[i].id == k,
        forall|i: int| 0 <= i < n && p(i) ==> #[trigger] raised_scores(m, cs, p, n)[cs[i].id] == sat_i64(
            score_or_zero(m, cs[i].id) + clamp_weight(cs[i].weight),
        ),
    decreases n,
{
    if n > 0 {
        lemma_raised_scores(m, cs, p, n - 1);
        let prev = raised_scores(m, cs, p, n - 1);
        let cur = raised_scores(m, cs, p, n);
        if p(n - 1) {
            let k = cs[n - 1].id;
            if prev.contains_key(k) {
                let i = choose|i: int| 0 <= i < n - 1 && p(i) && cs[i].id == k;
                assert(cs[i].id != cs[n - 1].id);
            }
            assert forall|i: int| 0 <= i < n && p(i) implies #[trigger] cur[cs[i].id] == sat_i64(
                score_or_zero(m, cs[i].id) + clamp_weight(cs[i].weight),
            ) by {
                if i < n - 1 {
                    assert(cs[i].id != cs[n - 1].id);
                    assert(prev[cs[i].id] == sat_i64(score_or_zero(m, cs[i].id) + clamp_weight(cs[i].weight)));
                }
            }
            assert forall|x: Seq<char>| #[trigger] cur.contains_key(x) <==> exists|i: int| 0 <= i < n && p(i) && cs[i].id == x by {
                if cur.contains_key(x) && x != k {
                    assert(prev.contains_key(x));
                }
            }
        } else {
            assert forall|x: Seq<char>| #[trigger] cur.contains_key(x) <==> exists|i: int| 0 <= i < n && p(i) && cs[i].id == x by {
                if exists|i: int| 0 <= i < n && p(i) && cs[i].id == x {
                    let i = choose|i: int| 0 <= i < n && p(i) && cs[i].id == x;
                    assert(i < n - 1);
                }
            }
        }
    }
}

proof fn lemma_raised_reordered(
    m: Map<Seq<char>, i64>,
    a: Seq<CandidateView>,
    b: Seq<CandidateView>,
    to: Seq<int>,
    from: Seq<int>,
    pa: spec_fn(int) -> bool,
    pb: spec_fn(int) -> bool,
    q: spec_fn(CandidateView) -> bool,
)
    requires
        reordered(a, b, to, from),
        distinct_ids(a),
        distinct_ids(b),
        pred_of(a, pa, q),
        pred_of(b, pb, q),
    ensures
        raised_scores(m, a, pa, a.len() as int) == raised_scores(m, b, pb, b.len() as int),
{
    let ra = raised_scores(m, a, pa, a.len() as int);
    let rb = raised_scores(m, b, pb, b.len() as int);
    lemma_raised_scores(m, a, pa, a.len() as int);
    lemma_raised_scores(m, b, pb, b.len() as int);
    assert forall|k: Seq<char>| ra.contains_key(k) <==> rb.contains_key(k) by {
        if ra.contains_key(k) {
            let i = choose|i: int| 0 <= i < a.len() && pa(i) && a[i].id == k;
            assert(pb(from[i]) && b[from[i]].id == k);
        }
        if rb.contains_key(k) {
            let j = choose|j: int| 0 <= j < b.len() && pb(j) && b[j].id == k;
            assert(pa(to[j]) && a[to[j]].id == k);
        }
    }
    assert forall|k: Seq<char>| #[trigger] ra.contains_key(k) implies ra[k] == rb[k] by {
        let i = choose|i: int| 0 <= i < a.len() && pa(i) && a[i].id == k;
        let j = from[i];
        assert(pb(j) && b[j] == a[i]);
        assert(ra[a[i].id] == sat_i64(score_or_zero(m, a[i].id) + clamp_weight(a[i].weight)));
        assert(rb[b[j].id] == sat_i64(score_or_zero(m, b[j].id) + clamp_weight(b[j].weight)));
    }
    assert(ra =~= rb);
}

/// The clamped weights of the candidates satisfying `q`, added up.
pub open spec fn weight_sum(s: Seq<CandidateView>, q: spec_fn(CandidateView) -> bool) -> int
    decreases s.len(),
{
    if s.len() == 0 {
        0
    } else {
        weight_sum(s.drop_last(), q) + if q(s.last()) {
            clamp_weight(s.last().weight)
        } else {
            0
        }
    }
}

proof fn lemma_weight_sum_nonneg(s: Seq<CandidateView>, q: spec_fn(CandidateView) -> bool)
    ensures
        weight_sum(s, q) >= 0,
    decreases s.len(),
{
    if s.len() > 0 {
        lemma_weight_sum_nonneg(s.drop_last(), q);
    }
}

/// The saturating tier total is the saturated sum of the tier weights.
proof fn lemma_tier_total_is_sum(cs: Seq<CandidateView>, p: spec_fn(int) -> bool, q: spec_fn(CandidateView) -> bool, n: int)
    requires
        0 <= n <= cs.len(),
        pred_of(cs, p, q),
    ensures
        tier_total(cs, p, n) == sat_i64(weight_sum(cs.take(n), q)),
    decreases n,
{
    if n == 0 {
        assert(cs.take(0) =~= Seq::<CandidateView>::empty());
    } else {
        lemma_tier_total_is_sum(cs, p, q, n - 1);
        let t = cs.take(n);
        assert(t.drop_last() =~= cs.take(n - 1));
        assert(t.last() == cs[n - 1]);
        lemma_weight_sum_nonneg(cs.take(n - 1), q);
        assert(p(n - 1) == q(cs[n - 1]));
    }
}

proof fn lemma_weight_sum_remove(s: Seq<CandidateView>, q: spec_fn(CandidateView) -> bool, k: int)
    requires
        0 <= k < s.len(),
    ensures
        weight_sum(s, q) == weight_sum(s.remove(k), q) + if q(s[k]) {
            clamp_weight(s[k].weight)
        } else {
            0
        },
    decreases s.len(),
{
    if k == s.len() - 1 {
        assert(s.remove(k) =~= s.drop_last());
    } else {
        lemma_weight_sum_remove(s.drop_last(), q, k);
        assert(s.remove(k).drop_last() =~= s.drop_last().remove(k));
        assert(s.remove(k).last() == s.last());
    }
}

proof fn lemma_distinct_reordered(a: Seq<CandidateView>, b: Seq<CandidateView>, to: Seq<int>, from: Seq<int>)
    requires
        reordered(a, b, to, from),
        distinct_ids(a),
    ensures
        distinct_ids(b),
{
    assert forall|i: int, j: int| 0 <= i < j < b.len() implies (#[trigger] b[i]).id != (#[trigger] b[j]).id by {
        if b[i].id == b[j].id {
            let ti = to[i];
            let tj = to[j];
            if ti < tj {
                assert(a[ti].id != a[tj].id);
            } else if tj < ti {
                assert(a[tj].id != a[ti].id);
            } else {
                assert(from[ti] == i && from[tj] == j);
            }
        }
    }
}

proof fn lemma_weight_sum_reordered(
    a: Seq<CandidateView>,
    b: Seq<CandidateView>,
    to: Seq<int>,
    from: Seq<int>,
    q: spec_fn(CandidateView) -> bool,
)
    requires
        reordered(a, b, to, from),
    ensures
        weight_sum(a, q) == weight_sum(b, q),
    decreases a.len(),
{
    let n = a.len();
    if n > 0 {
        let k = from[n - 1];
        let a1 = a.drop_last();
        let b1 = b.remove(k);
        let to1 = Seq::new((n - 1) as nat, |i: int| if i < k { to[i] } else { to[i + 1] });
        let from1 = Seq::new((n - 1) as nat, |j: int| if from[j] < k { from[j] } else { from[j] - 1 });
        assert forall|i: int| 0 <= i < b1.len() implies 0 <= #[trigger] to1[i] < a1.len() && b1[i] == a1[to1[i]] by {
            let i2 = if i < k { i } else { i + 1 };
            assert(b1[i] == b[i2]);
            assert(from[to[i2]] == i2);
            if to[i2] == n - 1 {
                assert(i2 == k);
            }
        }
        assert forall|j: int| 0 <= j < a1.len() implies 0 <= #[trigger] from1[j] < b1.len() && a1[j] == b1[from1[j]] by {
            assert(to[from[j]] == j);
            if from[j] == k {
                assert(to[from[n - 1]] == n - 1);
            }
        }
        assert forall|i: int| 0 <= i < b1.len() implies from1[#[trigger] to1[i]] == i by {
            let i2 = if i < k { i } else { i + 1 };
            assert(from[to[i2]] == i2);
        }
        assert forall|j: int| 0 <= j < a1.len() implies to1[#[trigger] from1[j]] == j by {
            assert(to[from[j]] == j);
            if from[j] == k {
                assert(to[from[n - 1]] == n - 1);
            }
        }
        lemma_weight_sum_reordered(a1, b1, to1, from1, q);
        lemma_weight_sum_remove(b, q, k);
        assert(b[k] == a[n - 1]);
    } else {
        assert(b.len() == 0);
    }
}

proof fn lemma_winner_unique(s: Map<Seq<char>, i64>, k1: Seq<char>, k2: Seq<char>)
    requires
        weighted_winner(s, k1),
        weighted_winner(s, k2),
    ensures
        k1 == k2,
{
    if k1 != k2 {
        assert(s[k2] < s[k1] || (s[k2] == s[k1] && seq_lt(k1, k2)));
        assert(s[k1] < s[k2] || (s[k1] == s[k2] && seq_lt(k2, k1)));
        lemma_seq_lt_total(k1, k2);
    }
}

/// The fields of a decision, as values.
pub open spec fn same_decision(x: RouteDecision, y: RouteDecision) -> bool {
    &&& x.policy_id@ == y.policy_id@ && x.candidate_id@ == y.candidate_id@ && x.reason == y.reason
    &&& x.timeout_ms == y.timeout_ms && x.remaining_retries == y.remaining_retries
}

/// Routing decides on the set of candidates, not on their order: for
/// candidates with distinct ids listed in two orders, and the same weighted
/// state before, a decision with state succeeds for both or fails for both
/// with the same error, picks the same candidate for the same reason, and
/// leaves the same state.
pub proof fn law_decision_ignores_candidate_order(
    p: PolicyView,
    r: RequestView,
    a: Seq<CandidateView>,
    b: Seq<CandidateView>,
    to: Seq<int>,
    from: Seq<int>,
    before: Map<Seq<char>, i64>,
    after_a: Map<Seq<char>, i64>,
    after_b: Map<Seq<char>, i64>,
    ra: Result<RouteDecision, CoreError>,
    rb: Result<RouteDecision, CoreError>,
)
    requires
        reordered(a, b, to, from),
        distinct_ids(a),
        decision_spec(p, r, a, ra),
        decision_spec(p, r, b, rb),
        weighted_spec(p, r, a, before, after_a, ra, true),
        weighted_spec(p, r, b, before, after_b, rb, true),
    ensures
        after_a == after_b,
        ra is Ok <==> rb is Ok,
        ra matches Ok(x) ==> rb matches Ok(y) && same_decision(x, y),
        ra matches Err(x) ==> rb matches Err(y) && x.code == y.code && x.message@ == y.message@,
{
    lemma_tier_reordered(r, a, b, to, from);
    lemma_distinct_reordered(a, b, to, from);
    let q = |c: CandidateView| eligible(r, c) && health_rank(c.health) == best_rank(r, a);
    let pa = tier_pred(r, a);
    let pb = tier_pred(r, b);
    let weighted = p.selection_strategy == SelectionStrategy::WeightedRoundRobin;
    if weighted {
        lemma_raised_reordered(before, a, b, to, from, pa, pb, q);
        lemma_tier_total_is_sum(a, pa, q, a.len() as int);
        lemma_tier_total_is_sum(b, pb, q, b.len() as int);
        assert(a.take(a.len() as int) =~= a);
        assert(b.take(b.len() as int) =~= b);
        lemma_weight_sum_reordered(a, b, to, from, q);
        let raised = raised_scores(before, a, pa, a.len() as int);
        if ra is Ok && rb is Ok {
            let ka = choose|k: Seq<char>| #![trigger raised[k]] weighted_winner(raised, k) && after_a == weighted_next(
                raised,
                k,
                tier_total(a, pa, a.len() as int),
            ) && ra->Ok_0.candidate_id@ == k && ra->Ok_0.policy_id@ == p.id && ra->Ok_0.reason == reason_for(p, r, a[0])
                && ra->Ok_0.timeout_ms == p.timeout_ms && ra->Ok_0.remaining_retries == p.max_retries;
            let kb = choose|k: Seq<char>| #![trigger raised[k]] weighted_winner(raised, k) && after_b == weighted_next(
                raised,
                k,
                tier_total(b, pb, b.len() as int),
            ) && rb->Ok_0.candidate_id@ == k && rb->Ok_0.policy_id@ == p.id && rb->Ok_0.reason == reason_for(p, r, b[0])
                && rb->Ok_0.timeout_ms == p.timeout_ms && rb->Ok_0.remaining_retries == p.max_retries;
            lemma_winner_unique(raised, ka, kb);
        }
    } else if ra is Ok && rb is Ok {
        let i = choose|i: int| #![trigger a[i]] stateless_choice(p, r, a, i) && decision_is(p, r, a[i], ra->Ok_0);
        let j = choose|j: int| #![trigger b[j]] stateless_choice(p, r, b, j) && decision_is(p, r, b[j], rb->Ok_0);
        law_stateless_choice_ignores_order(p, r, a, b, to, from, i, j);
    }
}

/// Deciding without weighted state does not depend on candidate order
/// either: for candidates with distinct ids listed in two orders, the
/// decision succeeds for both or fails for both with the same error, and
/// picks the same candidate for the same reason.
pub proof fn law_decide_ignores_candidate_order(
    p: PolicyView,
    r: RequestView,
    a: Seq<CandidateView>,
    b: Seq<CandidateView>,
    to: Seq<int>,
    from: Seq<int>,
    ra: Result<RouteDecision, CoreError>,
    rb: Result<RouteDecision, CoreError>,
)
    requires
        reordered(a, b, to, from),
        distinct_ids(a),
        decision_spec(p, r, a, ra),
        decision_spec(p, r, b, rb),
        ra matches Ok(d) ==> exists|i: int| #![trigger a[i]] stateless_choice(p, r, a, i) && decision_is(p, r, a[i], d),
        rb matches Ok(d) ==> exists|j: int| #![trigger b[j]] stateless_choice(p, r, b, j) && decision_is(p, r, b[j], d),
    ensures
        ra is Ok <==> rb is Ok,
        ra matches Ok(x) ==> rb matches Ok(y) && same_decision(x, y),
        ra matches Err(x) ==> rb matches Err(y) && x.code == y.code && x.message@ == y.message@,
{
    lemma_tier_reordered(r, a, b, to, from);
    if ra is Ok && rb is Ok {
        let i = choose|i: int| #![trigger a[i]] stateless_choice(p, r, a, i) && decision_is(p, r, a[i], ra->Ok_0);
        let j = choose|j: int| #![trigger b[j]] stateless_choice(p, r, b, j) && decision_is(p, r, b[j], rb->Ok_0);
        law_stateless_choice_ignores_order(p, r, a, b, to, from, i, j);
    }
}

} // verus!
