//! Routing serves from the healthiest eligible candidates: a healthy one
//! wherever one is eligible, else a degraded one, and a never-observed one
//! only when no eligible candidate is healthy or degraded.
use crate::routing::{
    eligible, in_tier, lemma_best_rank_upto, raised_scores, stateless_choice, tier_pred,
    weighted_spec, CandidateView, HealthStatus, PolicyView, RequestView,
};
use crate::error::CoreError;
use crate::routing::{
    decision_is, first_least, key_ltf, latency_ltf, sampled_of, weighted_winner, within_hysteresis,
    RouteDecision, RouteReason, SelectionStrategy,
};
use vstd::prelude::*;

verus! {

/// Some eligible candidate of `cs` has health `h`.
pub open spec fn eligible_with(r: RequestView, cs: Seq<CandidateView>, h: HealthStatus) -> bool {
    exists|j: int| 0 <= j < cs.len() && eligible(r, cs[j]) && #[trigger] cs[j].health == h
}

/// The best health among the eligible candidates: `Healthy` where one is
/// healthy, else `Degraded` where one is degraded, else `Unknown`.
pub open spec fn healthiest_eligible(r: RequestView, cs: Seq<CandidateView>) -> HealthStatus {
    if eligible_with(r, cs, HealthStatus::Healthy) {
        HealthStatus::Healthy
    } else if eligible_with(r, cs, HealthStatus::Degraded) {
        HealthStatus::Degraded
    } else {
        HealthStatus::Unknown
    }
}

/// Every candidate of the serving tier is eligible and has the best health
/// found among the eligible candidates.
pub proof fn law_tier_has_healthiest(r: RequestView, cs: Seq<CandidateView>, i: int)
    requires
        in_tier(r, cs, i),
    ensures
        eligible(r, cs[i]),
        cs[i].health == healthiest_eligible(r, cs),
{
    lemma_best_rank_upto(r, cs, cs.len() as int);
    if eligible_with(r, cs, HealthStatus::Healthy) {
        let j = choose|j: int| 0 <= j < cs.len() && eligible(r, cs[j]) && #[trigger] cs[j].health == HealthStatus::Healthy;
        assert(eligible(r, cs[j]));
    } else if eligible_with(r, cs, HealthStatus::Degraded) {
        let j = choose|j: int| 0 <= j < cs.len() && eligible(r, cs[j]) && #[trigger] cs[j].health == HealthStatus::Degraded;
        assert(eligible(r, cs[j]));
        assert(cs[i].health != HealthStatus::Healthy) by {
            if cs[i].health == HealthStatus::Healthy {
                assert(eligible_with(r, cs, HealthStatus::Healthy));
            }
        }
    } else {
        assert(cs[i].health != HealthStatus::Healthy) by {
            if cs[i].health == HealthStatus::Healthy {
                assert(eligible_with(r, cs, HealthStatus::Healthy));
            }
        }
        assert(cs[i].health != HealthStatus::Degraded) by {
            if cs[i].health == HealthStatus::Degraded {
                assert(eligible_with(r, cs, HealthStatus::Degraded));
            }
        }
    }
}

/// The candidate chosen without weighted state belongs to the serving tier.
pub proof fn law_stateless_choice_is_healthiest(p: PolicyView, r: RequestView, cs: Seq<CandidateView>, i: int)
    requires
        stateless_choice(p, r, cs, i),
    ensures
        0 <= i < cs.len(),
        eligible(r, cs[i]),
        cs[i].health == healthiest_eligible(r, cs),
{
    if p.selection_strategy == SelectionStrategy::LowestLatency {
        let pr = tier_pred(r, cs);
        if exists|j: int| #[trigger] sampled_of(cs, pr)(j) {
            let b = choose|b: int|
                #![trigger cs[b]]
                first_least(cs, sampled_of(cs, pr), latency_ltf(), b) && if exists|j: int|
                    #[trigger] within_hysteresis(cs, pr, cs[b], p.latency_hysteresis_ms)(j) {
                    first_least(cs, within_hysteresis(cs, pr, cs[b], p.latency_hysteresis_ms), key_ltf(), i)
                } else {
                    i == b
                };
            assert(sampled_of(cs, pr)(b));
        }
    }
    assert(in_tier(r, cs, i));
    law_tier_has_healthiest(r, cs, i);
}

/// Every id in the raised scores is the id of a candidate of the tier.
proof fn lemma_raised_keys(m: Map<Seq<char>, i64>, cs: Seq<CandidateView>, p: spec_fn(int) -> bool, n: int)
    requires
        0 <= n <= cs.len(),
    ensures
        forall|k: Seq<char>| #[trigger] raised_scores(m, cs, p, n).contains_key(k) ==> exists|i: int| 0 <= i < n && p(i) && cs[i].id == k,
    decreases n,
{
    if n > 0 {
        lemma_raised_keys(m, cs, p, n - 1);
        let prev = raised_scores(m, cs, p, n - 1);
        assert forall|k: Seq<char>| #[trigger] raised_scores(m, cs, p, n).contains_key(k) implies exists|i: int| 0 <= i < n && p(i) && cs[i].id == k by {
            if p(n - 1) && k == cs[n - 1].id {
            } else {
                assert(prev.contains_key(k));
                let i = choose|i: int| 0 <= i < n - 1 && p(i) && cs[i].id == k;
                assert(0 <= i < n && p(i) && cs[i].id == k);
            }
        }
    }
}

/// Whichever strategy runs, with or without weighted state, a decision names
/// an eligible candidate of the best health on offer: healthy whenever an
/// eligible candidate is healthy, else degraded whenever an eligible one is
/// degraded.
pub proof fn law_decision_is_healthiest(
    p: PolicyView,
    r: RequestView,
    cs: Seq<CandidateView>,
    before: Map<Seq<char>, i64>,
    after: Map<Seq<char>, i64>,
    res: Result<RouteDecision, CoreError>,
    with_state: bool,
)
    requires
        weighted_spec(p, r, cs, before, after, res, with_state),
    ensures
        res matches Ok(d) ==> exists|i: int|
            0 <= i < cs.len() && #[trigger] cs[i].id == d.candidate_id@ && eligible(r, cs[i])
                && cs[i].health == healthiest_eligible(r, cs),
{
    if res is Ok {
        let d = res->Ok_0;
        let weighted = with_state && p.selection_strategy == SelectionStrategy::WeightedRoundRobin;
        if weighted {
            let raised = raised_scores(before, cs, tier_pred(r, cs), cs.len() as int);
            let k = choose|k: Seq<char>|
                #![trigger raised[k]]
                weighted_winner(raised, k) && d.candidate_id@ == k;
            lemma_raised_keys(before, cs, tier_pred(r, cs), cs.len() as int);
            assert(raised.contains_key(k));
            let i = choose|i: int| 0 <= i < cs.len() && tier_pred(r, cs)(i) && cs[i].id == k;
            law_tier_has_healthiest(r, cs, i);
        } else {
            let i = choose|i: int| #![trigger cs[i]] stateless_choice(p, r, cs, i) && decision_is(p, r, cs[i], d);
            law_stateless_choice_is_healthiest(p, r, cs, i);
            assert(cs[i].id == d.candidate_id@);
        }
    }
}

/// Under a strategy other than lowest latency, the candidate chosen without
/// weighted state has the smallest priority number among the eligible
/// candidates of its health.
pub proof fn law_choice_has_first_priority(p: PolicyView, r: RequestView, cs: Seq<CandidateView>, i: int, j: int)
    requires
        stateless_choice(p, r, cs, i),
        p.selection_strategy != SelectionStrategy::LowestLatency,
        0 <= j < cs.len(),
        eligible(r, cs[j]),
        cs[j].health == cs[i].health,
    ensures
        cs[i].priority <= cs[j].priority,
{
    law_stateless_choice_is_healthiest(p, r, cs, i);
    assert(in_tier(r, cs, j));
    assert(!key_ltf()(cs[j], cs[i]));
}

/// A decision names its reason: a failover exactly when a previous error
/// is given; without one, under priority failover, `PrimaryDegraded`
/// exactly when the best health on offer is degraded.
pub proof fn law_decision_reason(
    p: PolicyView,
    r: RequestView,
    cs: Seq<CandidateView>,
    before: Map<Seq<char>, i64>,
    after: Map<Seq<char>, i64>,
    res: Result<RouteDecision, CoreError>,
    with_state: bool,
)
    requires
        weighted_spec(p, r, cs, before, after, res, with_state),
    ensures
        res matches Ok(d) ==> ((r.previous_error is Some) == (d.reason == RouteReason::FailoverAfterError)),
        res matches Ok(d) ==> (r.previous_error is None && p.selection_strategy == SelectionStrategy::PriorityFailover ==> ((
        d.reason == RouteReason::PrimaryDegraded) == (healthiest_eligible(r, cs) == HealthStatus::Degraded))),
{
    if res is Ok {
        let d = res->Ok_0;
        let weighted = with_state && p.selection_strategy == SelectionStrategy::WeightedRoundRobin;
        if !weighted {
            let i = choose|i: int| #![trigger cs[i]] stateless_choice(p, r, cs, i) && decision_is(p, r, cs[i], d);
            law_stateless_choice_is_healthiest(p, r, cs, i);
        }
    }
}

} // verus!
