//! Route selection: picks one upstream candidate for a public model by health,
//! priority, weight or measured latency, and decides whether a failed request
//! may fail over.
use crate::error::{finish, iv, issue_views, CoreError, ErrorCode, IssueView, ValidationIssue};
use crate::text::{self, is_blank, seq_lt};
use crate::SCHEMA_VERSION;
use vstd::prelude::*;

verus! {

#[derive(Debug, Clone, Copy, PartialEq, Eq, Structural)]
pub enum SelectionStrategy {
    PriorityFailover,
    WeightedRoundRobin,
    LowestLatency,
}

impl Default for SelectionStrategy {
    fn default() -> (r: Self)
        ensures
            r == SelectionStrategy::PriorityFailover,
    {
        SelectionStrategy::PriorityFailover
    }
}

#[derive(Debug, Clone, Copy, PartialEq, Eq, Structural)]
pub enum HealthStatus {
    Healthy,
    Degraded,
    Unhealthy,
    Unknown,
    Paused,
}

#[derive(Debug, Clone, Copy, PartialEq, Eq, Hash, Structural)]
pub enum StandardError {
    AuthFailed,
    RateLimited,
    BalanceExhausted,
    ModelUnavailable,
    ProviderTimeout,
    NetworkUnreachable,
    TlsFailed,
    InvalidRequest,
    InvalidResponse,
    ContentRejected,
    InternalRuntimeError,
}

#[derive(Debug, Clone, Copy, PartialEq, Eq, Structural)]
pub enum RouteReason {
    PrimaryHealthy,
    PrimaryDegraded,
    FailoverAfterError,
    WeightedSelection,
    LowestLatency,
}

/// A route policy. `failover_on` lists the errors after which another
/// candidate may be tried.
#[derive(Debug, Clone, PartialEq, Eq)]
pub struct RoutePolicy {
    pub schema_version: u32,
    pub id: String,
    pub timeout_ms: u64,
    pub max_retries: u32,
    pub failover_on: Vec<StandardError>,
    pub selection_strategy: SelectionStrategy,
    pub latency_hysteresis_ms: u64,
}

#[derive(Debug, Clone, PartialEq, Eq)]
pub struct RouteCandidate {
    pub id: String,
    pub priority: u32,
    pub weight: u16,
    pub enabled: bool,
    pub health: HealthStatus,
    pub latency_ms: Option<u64>,
    /// Models served by this candidate; empty means every model.
    pub models: Vec<String>,
}

#[derive(Debug, Clone, PartialEq, Eq)]
pub struct RouteRequest {
    pub model: String,
    pub excluded_candidates: Vec<String>,
    pub previous_error: Option<StandardError>,
}

#[derive(Debug, Clone, PartialEq, Eq)]
pub struct RouteDecision {
    pub policy_id: String,
    pub candidate_id: String,
    pub reason: RouteReason,
    pub timeout_ms: u64,
    pub remaining_retries: u32,
}

pub struct CandidateView {
    pub id: Seq<char>,
    pub priority: u32,
    pub weight: u16,
    pub enabled: bool,
    pub health: HealthStatus,
    pub latency_ms: Option<u64>,
    pub models: Seq<Seq<char>>,
}

pub open spec fn strings(v: Seq<String>) -> Seq<Seq<char>> {
    v.map_values(|s: String| s@)
}

impl View for RouteCandidate {
    type V = CandidateView;

    open spec fn view(&self) -> CandidateView {
        CandidateView {
            id: self.id@,
            priority: self.priority,
            weight: self.weight,
            enabled: self.enabled,
            health: self.health,
            latency_ms: self.latency_ms,
            models: strings(self.models@),
        }
    }
}

pub struct RequestView {
    pub model: Seq<char>,
    pub excluded: Seq<Seq<char>>,
    pub previous_error: Option<StandardError>,
}

impl View for RouteRequest {
    type V = RequestView;

    open spec fn view(&self) -> RequestView {
        RequestView {
            model: self.model@,
            excluded: strings(self.excluded_candidates@),
            previous_error: self.previous_error,
        }
    }
}

pub open spec fn candidate_views(v: Seq<RouteCandidate>) -> Seq<CandidateView> {
    v.map_values(|c: RouteCandidate| c@)
}

pub open spec fn health_rank(h: HealthStatus) -> nat {
    match h {
        HealthStatus::Healthy => 0,
        HealthStatus::Degraded => 1,
        HealthStatus::Unknown => 2,
        HealthStatus::Unhealthy | HealthStatus::Paused => 3,
    }
}

/// Enabled, not excluded, neither unhealthy nor paused, and serving the model.
pub open spec fn eligible(r: RequestView, c: CandidateView) -> bool {
    &&& c.enabled
    &&& !r.excluded.contains(c.id)
    &&& c.health != HealthStatus::Unhealthy && c.health != HealthStatus::Paused
    &&& (c.models.len() == 0 || c.models.contains(r.model))
}

/// The best health rank among the eligible candidates of `cs[..n]`, or 3 when
/// none is eligible.
pub open spec fn best_rank_upto(r: RequestView, cs: Seq<CandidateView>, n: int) -> nat
    decreases n,
{
    if n <= 0 {
        3
    } else {
        let b = best_rank_upto(r, cs, n - 1);
        if eligible(r, cs[n - 1]) && health_rank(cs[n - 1].health) < b {
            health_rank(cs[n - 1].health)
        } else {
            b
        }
    }
}

pub open spec fn best_rank(r: RequestView, cs: Seq<CandidateView>) -> nat {
    best_rank_upto(r, cs, cs.len() as int)
}

/// The candidates tied for the best health among the eligible ones.
pub open spec fn in_tier(r: RequestView, cs: Seq<CandidateView>, i: int) -> bool {
    0 <= i < cs.len() && eligible(r, cs[i]) && health_rank(cs[i].health) == best_rank(r, cs)
}

/// Order within a tier: by priority, then by id.
pub open spec fn key_lt(a: CandidateView, b: CandidateView) -> bool {
    a.priority < b.priority || (a.priority == b.priority && seq_lt(a.id, b.id))
}

pub open spec fn latency_of(c: CandidateView) -> u64 {
    match c.latency_ms {
        Some(l) => l,
        None => u64::MAX,
    }
}

/// Order of sampled candidates: by latency, then priority, then id.
pub open spec fn latency_lt(a: CandidateView, b: CandidateView) -> bool {
    latency_of(a) < latency_of(b) || (latency_of(a) == latency_of(b) && key_lt(a, b))
}

/// `i` is the first index, in input order, whose candidate is least in the
/// order `lt` among the indices satisfying `p`.
pub open spec fn first_least(
    cs: Seq<CandidateView>,
    p: spec_fn(int) -> bool,
    lt: spec_fn(CandidateView, CandidateView) -> bool,
    i: int,
) -> bool {
    &&& 0 <= i < cs.len()
    &&& p(i)
    &&& forall|j: int| 0 <= j < cs.len() && p(j) ==> !lt(cs[j], cs[i])
    &&& forall|j: int| 0 <= j < i && p(j) ==> lt(cs[i], cs[j])
}

pub open spec fn tier_pred(r: RequestView, cs: Seq<CandidateView>) -> spec_fn(int) -> bool {
    |i: int| in_tier(r, cs, i)
}

pub open spec fn mask_pred(m: Seq<bool>) -> spec_fn(int) -> bool {
    |i: int| 0 <= i < m.len() && m[i]
}

pub open spec fn sampled_of(cs: Seq<CandidateView>, p: spec_fn(int) -> bool) -> spec_fn(int) -> bool {
    |i: int| p(i) && cs[i].latency_ms is Some
}

/// Candidates of higher priority than `best` whose latency lies within the
/// hysteresis band above `best`'s latency.
pub open spec fn within_hysteresis(
    cs: Seq<CandidateView>,
    p: spec_fn(int) -> bool,
    best: CandidateView,
    hysteresis: u64,
) -> spec_fn(int) -> bool {
    |i: int|
        p(i) && cs[i].priority < best.priority && cs[i].latency_ms is Some
            && cs[i].latency_ms.unwrap() <= sat_add_u64(latency_of(best), hysteresis)
}

pub open spec fn sat_add_u64(a: u64, b: u64) -> u64 {
    if a + b > u64::MAX {
        u64::MAX
    } else {
        (a + b) as u64
    }
}

pub open spec fn key_ltf() -> spec_fn(CandidateView, CandidateView) -> bool {
    |a: CandidateView, b: CandidateView| key_lt(a, b)
}

pub open spec fn latency_ltf() -> spec_fn(CandidateView, CandidateView) -> bool {
    |a: CandidateView, b: CandidateView| latency_lt(a, b)
}

/// The lowest-latency choice among the candidates satisfying `p`: with no
/// latency sample, the first by priority and id; otherwise the fastest
/// sampled candidate, unless a candidate of higher priority lies within the
/// hysteresis band of it.
pub open spec fn lowest_latency_choice(
    cs: Seq<CandidateView>,
    p: spec_fn(int) -> bool,
    hysteresis: u64,
    i: int,
) -> bool {
    if !(exists|j: int| #[trigger] sampled_of(cs, p)(j)) {
        first_least(cs, p, key_ltf(), i)
    } else {
        exists|b: int|
            #![trigger cs[b]]
            first_least(cs, sampled_of(cs, p), latency_ltf(), b) && if exists|j: int|
                #[trigger] within_hysteresis(cs, p, cs[b], hysteresis)(j) {
                first_least(cs, within_hysteresis(cs, p, cs[b], hysteresis), key_ltf(), i)
            } else {
                i == b
            }
    }
}

pub struct PolicyView {
    pub schema_version: u32,
    pub id: Seq<char>,
    pub timeout_ms: u64,
    pub max_retries: u32,
    pub failover_on: Seq<StandardError>,
    pub selection_strategy: SelectionStrategy,
    pub latency_hysteresis_ms: u64,
}

impl View for RoutePolicy {
    type V = PolicyView;

    open spec fn view(&self) -> PolicyView {
        PolicyView {
            schema_version: self.schema_version,
            id: self.id@,
            timeout_ms: self.timeout_ms,
            max_retries: self.max_retries,
            failover_on: self.failover_on@,
            selection_strategy: self.selection_strategy,
            latency_hysteresis_ms: self.latency_hysteresis_ms,
        }
    }
}

pub open spec fn opt_issue(cond: bool, i: IssueView) -> Seq<IssueView> {
    if cond {
        seq![i]
    } else {
        seq![]
    }
}

/// The issues that policy validation reports, in order.
pub open spec fn policy_issues(p: PolicyView) -> Seq<IssueView> {
    opt_issue(
        p.schema_version != SCHEMA_VERSION,
        iv("schema_version"@, "UNSUPPORTED_SCHEMA"@, "路由策略 Schema 版本不受支持"@),
    ) + opt_issue(is_blank(p.id), iv("id"@, "REQUIRED"@, "策略 ID 不能为空"@)) + opt_issue(
        p.timeout_ms == 0 || p.timeout_ms > 600_000,
        iv("timeout_ms"@, "OUT_OF_RANGE"@, "超时必须在 1 到 600000 毫秒之间"@),
    ) + opt_issue(
        p.max_retries > 10,
        iv("max_retries"@, "OUT_OF_RANGE"@, "首版最大重试次数不能超过 10"@),
    ) + opt_issue(
        p.latency_hysteresis_ms > 60_000,
        iv("latency_hysteresis_ms"@, "OUT_OF_RANGE"@, "最低延迟滞回必须在 0 到 60000 毫秒之间"@),
    )
}

pub open spec fn standard_error_name(e: StandardError) -> Seq<char> {
    match e {
        StandardError::AuthFailed => "AuthFailed"@,
        StandardError::RateLimited => "RateLimited"@,
        StandardError::BalanceExhausted => "BalanceExhausted"@,
        StandardError::ModelUnavailable => "ModelUnavailable"@,
        StandardError::ProviderTimeout => "ProviderTimeout"@,
        StandardError::NetworkUnreachable => "NetworkUnreachable"@,
        StandardError::TlsFailed => "TlsFailed"@,
        StandardError::InvalidRequest => "InvalidRequest"@,
        StandardError::InvalidResponse => "InvalidResponse"@,
        StandardError::ContentRejected => "ContentRejected"@,
        StandardError::InternalRuntimeError => "InternalRuntimeError"@,
    }
}

/// The variant name of a standard error, as `{:?}` renders it.
pub fn standard_error_str(e: StandardError) -> (r: &'static str)
    ensures
        r@ == standard_error_name(e),
{
    match e {
        StandardError::AuthFailed => "AuthFailed",
        StandardError::RateLimited => "RateLimited",
        StandardError::BalanceExhausted => "BalanceExhausted",
        StandardError::ModelUnavailable => "ModelUnavailable",
        StandardError::ProviderTimeout => "ProviderTimeout",
        StandardError::NetworkUnreachable => "NetworkUnreachable",
        StandardError::TlsFailed => "TlsFailed",
        StandardError::InvalidRequest => "InvalidRequest",
        StandardError::InvalidResponse => "InvalidResponse",
        StandardError::ContentRejected => "ContentRejected",
        StandardError::InternalRuntimeError => "InternalRuntimeError",
    }
}

pub fn rank_of(h: HealthStatus) -> (r: u8)
    ensures
        r as nat == health_rank(h),
{
    match h {
        HealthStatus::Healthy => 0,
        HealthStatus::Degraded => 1,
        HealthStatus::Unknown => 2,
        HealthStatus::Unhealthy | HealthStatus::Paused => 3,
    }
}

/// Membership of a string in a list of strings.
pub fn contains_string(v: &Vec<String>, s: &String) -> (r: bool)
    ensures
        r == strings(v@).contains(s@),
{
    let mut i: usize = 0;
    while i < v.len()
        invariant
            i <= v@.len(),
            forall|j: int| 0 <= j < i ==> v@[j]@ != s@,
        decreases v.len() - i,
    {
        if v[i] == *s {
            assert(strings(v@)[i as int] == s@);
            return true;
        }
        i = i + 1;
    }
    assert forall|j: int| 0 <= j < strings(v@).len() implies strings(v@)[j] != s@ by {
        assert(strings(v@)[j] == v@[j]@);
    }
    false
}

pub fn contains_error(v: &Vec<StandardError>, e: StandardError) -> (r: bool)
    ensures
        r == v@.contains(e),
{
    let mut i: usize = 0;
    while i < v.len()
        invariant
            i <= v@.len(),
            forall|j: int| 0 <= j < i ==> v@[j] != e,
        decreases v.len() - i,
    {
        if v[i] == e {
            return true;
        }
        i = i + 1;
    }
    false
}

/// Priority/id order of two candidates, executable.
fn key_lt_exec(a: &RouteCandidate, b: &RouteCandidate) -> (r: bool)
    ensures
        r == key_lt(a@, b@),
{
    a.priority < b.priority || (a.priority == b.priority && text::str_lt(a.id.as_str(), b.id.as_str()))
}

fn latency_lt_exec(a: &RouteCandidate, b: &RouteCandidate) -> (r: bool)
    ensures
        r == latency_lt(a@, b@),
{
    let la = match a.latency_ms {
        Some(l) => l,
        None => u64::MAX,
    };
    let lb = match b.latency_ms {
        Some(l) => l,
        None => u64::MAX,
    };
    la < lb || (la == lb && key_lt_exec(a, b))
}

pub proof fn lemma_key_lt_strict(a: CandidateView, b: CandidateView)
    ensures
        !(key_lt(a, b) && key_lt(b, a)),
        !key_lt(a, a),
        !key_lt(a, b) && !key_lt(b, a) ==> a.priority == b.priority && a.id == b.id,
{
    text::lemma_seq_lt_total(a.id, b.id);
    text::lemma_seq_lt_irreflexive(a.id);
}

pub proof fn lemma_key_lt_transitive(a: CandidateView, b: CandidateView, c: CandidateView)
    requires
        key_lt(a, b),
        key_lt(b, c),
    ensures
        key_lt(a, c),
{
    if a.priority == b.priority && b.priority == c.priority {
        text::lemma_seq_lt_transitive(a.id, b.id, c.id);
    }
}

pub proof fn lemma_latency_lt_strict(a: CandidateView, b: CandidateView)
    ensures
        !(latency_lt(a, b) && latency_lt(b, a)),
        !latency_lt(a, a),
        !latency_lt(a, b) && !latency_lt(b, a) ==> latency_of(a) == latency_of(b)
            && a.priority == b.priority && a.id == b.id,
{
    lemma_key_lt_strict(a, b);
    lemma_key_lt_strict(a, a);
}

pub proof fn lemma_latency_lt_transitive(a: CandidateView, b: CandidateView, c: CandidateView)
    requires
        latency_lt(a, b),
        latency_lt(b, c),
    ensures
        latency_lt(a, c),
{
    if latency_of(a) == latency_of(b) && latency_of(b) == latency_of(c) {
        lemma_key_lt_transitive(a, b, c);
    }
}

pub proof fn lemma_best_rank_upto(r: RequestView, cs: Seq<CandidateView>, n: int)
    requires
        0 <= n <= cs.len(),
    ensures
        best_rank_upto(r, cs, n) <= 3,
        forall|j: int|
            0 <= j < n && eligible(r, cs[j]) ==> best_rank_upto(r, cs, n) <= health_rank(
                cs[j].health,
            ),
        best_rank_upto(r, cs, n) < 3 ==> exists|j: int|
            0 <= j < n && eligible(r, cs[j]) && health_rank(cs[j].health) == best_rank_upto(
                r,
                cs,
                n,
            ),
    decreases n,
{
    if n > 0 {
        lemma_best_rank_upto(r, cs, n - 1);
    }
}

/// Runtime-only smooth weighted round-robin state: the current score of each
/// candidate id. It is never persisted.
#[derive(Debug, PartialEq, Eq)]
pub struct WeightedSelectionState {
    current: Vec<(String, i64)>,
}

pub open spec fn entry_keys(v: Seq<(String, i64)>) -> Seq<Seq<char>> {
    v.map_values(|e: (String, i64)| e.0@)
}

/// The score map held by a list of entries with distinct keys.
pub open spec fn entries_map(v: Seq<(String, i64)>) -> Map<Seq<char>, i64>
    decreases v.len(),
{
    if v.len() == 0 {
        Map::empty()
    } else {
        entries_map(v.drop_last()).insert(v.last().0@, v.last().1)
    }
}

pub open spec fn distinct_keys(v: Seq<(String, i64)>) -> bool {
    forall|i: int, j: int| 0 <= i < j < v.len() ==> v[i].0@ != v[j].0@
}

impl View for WeightedSelectionState {
    type V = Map<Seq<char>, i64>;

    closed spec fn view(&self) -> Map<Seq<char>, i64> {
        entries_map(self.current@)
    }
}

pub open spec fn score_or_zero(m: Map<Seq<char>, i64>, k: Seq<char>) -> int {
    if m.contains_key(k) {
        m[k] as int
    } else {
        0
    }
}

pub open spec fn sat_i64(x: int) -> i64 {
    if x > i64::MAX {
        i64::MAX
    } else if x < i64::MIN {
        i64::MIN
    } else {
        x as i64
    }
}

pub open spec fn clamp_weight(w: u16) -> int {
    if w < 1 {
        1
    } else if w > 100 {
        100
    } else {
        w as int
    }
}

/// The scores after adding the clamped weight of every tier candidate of
/// `cs[..n]` to the score of its id (saturating), starting from `m`.
pub open spec fn raised_scores(
    m: Map<Seq<char>, i64>,
    cs: Seq<CandidateView>,
    p: spec_fn(int) -> bool,
    n: int,
) -> Map<Seq<char>, i64>
    decreases n,
{
    if n <= 0 {
        Map::empty()
    } else {
        let prev = raised_scores(m, cs, p, n - 1);
        if p(n - 1) {
            let k = cs[n - 1].id;
            let base = if prev.contains_key(k) {
                prev[k] as int
            } else {
                score_or_zero(m, k)
            };
            prev.insert(k, sat_i64(base + clamp_weight(cs[n - 1].weight)))
        } else {
            prev
        }
    }
}

/// Total of the clamped tier weights (saturating).
pub open spec fn tier_total(cs: Seq<CandidateView>, p: spec_fn(int) -> bool, n: int) -> i64
    decreases n,
{
    if n <= 0 {
        0
    } else if p(n - 1) {
        sat_i64(tier_total(cs, p, n - 1) + clamp_weight(cs[n - 1].weight))
    } else {
        tier_total(cs, p, n - 1)
    }
}

/// The id chosen by smooth weighted round-robin: the highest raised score,
/// ties broken by the smaller id.
pub open spec fn weighted_winner(s: Map<Seq<char>, i64>, k: Seq<char>) -> bool {
    &&& s.contains_key(k)
    &&& forall|o: Seq<char>|
        #![trigger s[o]]
        s.contains_key(o) && o != k ==> (s[o] < s[k] || (s[o] == s[k] && seq_lt(k, o)))
}

/// The state after one weighted selection of `k`.
pub open spec fn weighted_next(s: Map<Seq<char>, i64>, k: Seq<char>, total: i64) -> Map<
    Seq<char>,
    i64,
> {
    s.insert(k, sat_i64(s[k] - total))
}

pub open spec fn reason_for(
    p: PolicyView,
    r: RequestView,
    c: CandidateView,
) -> RouteReason {
    if r.previous_error is Some {
        RouteReason::FailoverAfterError
    } else if p.selection_strategy == SelectionStrategy::WeightedRoundRobin {
        RouteReason::WeightedSelection
    } else if p.selection_strategy == SelectionStrategy::LowestLatency && c.latency_ms is Some {
        RouteReason::LowestLatency
    } else if c.health == HealthStatus::Degraded {
        RouteReason::PrimaryDegraded
    } else {
        RouteReason::PrimaryHealthy
    }
}

/// The index chosen when no weighted state takes part.
pub open spec fn stateless_choice(p: PolicyView, r: RequestView, cs: Seq<CandidateView>, i: int) -> bool {
    if p.selection_strategy == SelectionStrategy::LowestLatency {
        lowest_latency_choice(cs, tier_pred(r, cs), p.latency_hysteresis_ms, i)
    } else {
        first_least(cs, tier_pred(r, cs), key_ltf(), i)
    }
}

pub open spec fn failover_refused(p: PolicyView, r: RequestView) -> bool {
    r.previous_error is Some && !p.failover_on.contains(r.previous_error.unwrap())
}

pub open spec fn has_tier(r: RequestView, cs: Seq<CandidateView>) -> bool {
    exists|j: int| in_tier(r, cs, j)
}

pub open spec fn refusal_message(e: StandardError) -> Seq<char> {
    "策略不允许在错误 "@ + standard_error_name(e) + " 后切换线路"@
}

pub open spec fn unavailable_message(model: Seq<char>) -> Seq<char> {
    "没有可用于模型 "@ + model + " 的候选线路"@
}

impl WeightedSelectionState {
    #[verifier::type_invariant]
    closed spec fn wf(self) -> bool {
        distinct_keys(self.current@)
    }

    pub fn new() -> (r: Self)
        ensures
            r@ == Map::<Seq<char>, i64>::empty(),
    {
        WeightedSelectionState { current: Vec::new() }
    }
}

impl Default for WeightedSelectionState {
    fn default() -> (r: Self)
        ensures
            r@ == Map::<Seq<char>, i64>::empty(),
    {
        WeightedSelectionState::new()
    }
}

fn sat_add_i64(a: i64, b: i64) -> (r: i64)
    ensures
        r == sat_i64(a + b),
{
    let s: i128 = a as i128 + b as i128;
    if s > i64::MAX as i128 {
        i64::MAX
    } else if s < i64::MIN as i128 {
        i64::MIN
    } else {
        s as i64
    }
}

fn sat_sub_i64(a: i64, b: i64) -> (r: i64)
    ensures
        r == sat_i64(a - b),
{
    let s: i128 = a as i128 - b as i128;
    if s > i64::MAX as i128 {
        i64::MAX
    } else if s < i64::MIN as i128 {
        i64::MIN
    } else {
        s as i64
    }
}

fn clamp_weight_exec(w: u16) -> (r: i64)
    ensures
        r as int == clamp_weight(w),
{
    if w < 1 {
        1
    } else if w > 100 {
        100
    } else {
        w as i64
    }
}

proof fn lemma_entries_map_push(v: Seq<(String, i64)>, e: (String, i64))
    ensures
        entries_map(v.push(e)) == entries_map(v).insert(e.0@, e.1),
{
    assert(v.push(e).drop_last() == v);
}

proof fn lemma_entries_map_dom(v: Seq<(String, i64)>)
    ensures
        forall|k: Seq<char>| entries_map(v).contains_key(k) <==> entry_keys(v).contains(k),
    decreases v.len(),
{
    if v.len() > 0 {
        let d = v.drop_last();
        lemma_entries_map_dom(d);
        assert(entry_keys(v) =~= entry_keys(d).push(v.last().0@));
        assert forall|k: Seq<char>| entries_map(v).contains_key(k) <==> entry_keys(v).contains(k) by {
            if entry_keys(d).contains(k) {
                let i = choose|i: int| 0 <= i < entry_keys(d).len() && entry_keys(d)[i] == k;
                assert(entry_keys(v)[i] == k);
            }
            if k == v.last().0@ {
                assert(entry_keys(v)[v.len() - 1] == k);
            }
            if entry_keys(v).contains(k) {
                let i = choose|i: int| 0 <= i < entry_keys(v).len() && entry_keys(v)[i] == k;
                if i < v.len() - 1 {
                    assert(entry_keys(d)[i] == k);
                }
            }
        }
    } else {
        assert(entries_map(v) =~= Map::<Seq<char>, i64>::empty());
    }
}

proof fn lemma_entries_map_value(v: Seq<(String, i64)>, i: int)
    requires
        distinct_keys(v),
        0 <= i < v.len(),
    ensures
        entries_map(v).contains_key(v[i].0@),
        entries_map(v)[v[i].0@] == v[i].1,
    decreases v.len(),
{
    if i < v.len() - 1 {
        lemma_entries_map_value(v.drop_last(), i);
        assert(v.drop_last()[i] == v[i]);
    }
}

proof fn lemma_entries_map_update(v: Seq<(String, i64)>, i: int, x: i64)
    requires
        distinct_keys(v),
        0 <= i < v.len(),
    ensures
        entries_map(v.update(i, (v[i].0, x))) == entries_map(v).insert(v[i].0@, x),
        distinct_keys(v.update(i, (v[i].0, x))),
    decreases v.len(),
{
    let w = v.update(i, (v[i].0, x));
    if i == v.len() - 1 {
        assert(w.drop_last() == v.drop_last());
        assert(entries_map(v).insert(v[i].0@, x) =~= entries_map(v.drop_last()).insert(v[i].0@, x));
    } else {
        lemma_entries_map_update(v.drop_last(), i, x);
        assert(w.drop_last() == v.drop_last().update(i, (v[i].0, x)));
        assert(v.drop_last()[i] == v[i]);
        assert(v[i].0@ != v.last().0@);
        assert(entries_map(w) =~= entries_map(v).insert(v[i].0@, x));
    }
}

impl RoutePolicy {
    /// Checks the schema version and the timeout, retry and hysteresis ranges.
    pub fn validate(&self) -> (r: Result<(), CoreError>)
        ensures
            r is Ok <==> policy_issues(self@).len() == 0,
            r matches Err(e) ==> e.code == ErrorCode::InvalidInput && e.message@ == "路由策略校验失败"@
                && e@.issues == policy_issues(self@),
    {
        let mut issues: Vec<ValidationIssue> = Vec::new();
        if self.schema_version != SCHEMA_VERSION {
            issues.push(ValidationIssue::new("schema_version", "UNSUPPORTED_SCHEMA", "路由策略 Schema 版本不受支持"));
        }
        if text::is_blank_str(self.id.as_str()) {
            issues.push(ValidationIssue::new("id", "REQUIRED", "策略 ID 不能为空"));
        }
        if self.timeout_ms == 0 || self.timeout_ms > 600_000 {
            issues.push(ValidationIssue::new("timeout_ms", "OUT_OF_RANGE", "超时必须在 1 到 600000 毫秒之间"));
        }
        if self.max_retries > 10 {
            issues.push(ValidationIssue::new("max_retries", "OUT_OF_RANGE", "首版最大重试次数不能超过 10"));
        }
        if self.latency_hysteresis_ms > 60_000 {
            issues.push(ValidationIssue::new("latency_hysteresis_ms", "OUT_OF_RANGE", "最低延迟滞回必须在 0 到 60000 毫秒之间"));
        }
        assert(issue_views(issues@) =~= policy_issues(self@));
        finish(issues, ErrorCode::InvalidInput, "路由策略校验失败")
    }

    /// Selects a candidate by model, health, priority and the previous error.
    pub fn decide(&self, request: &RouteRequest, candidates: &Vec<RouteCandidate>) -> (r: Result<RouteDecision, CoreError>)
        ensures
            decision_spec(self@, request@, candidate_views(candidates@), r),
            r matches Ok(d) ==> exists|i: int|
                #![trigger candidates@[i]]
                stateless_choice(self@, request@, candidate_views(candidates@), i)
                    && decision_is(self@, request@, candidate_views(candidates@)[i], d),
    {
        let mut state = WeightedSelectionState::new();
        let r = self.decide_inner(request, candidates, &mut state, false);
        r
    }

    /// Selects a candidate and advances the smooth weighted round-robin state.
    /// The caller keeps one state per publisher and public model.
    pub fn decide_with_state(
        &self,
        request: &RouteRequest,
        candidates: &Vec<RouteCandidate>,
        state: &mut WeightedSelectionState,
    ) -> (r: Result<RouteDecision, CoreError>)
        ensures
            decision_spec(self@, request@, candidate_views(candidates@), r),
            weighted_spec(self@, request@, candidate_views(candidates@), old(state)@, final(state)@, r, true),
    {
        self.decide_inner(request, candidates, state, true)
    }
}

/// What every decision satisfies, whichever strategy ran.
pub open spec fn decision_spec(
    p: PolicyView,
    r: RequestView,
    cs: Seq<CandidateView>,
    res: Result<RouteDecision, CoreError>,
) -> bool {
    match res {
        Err(e) => if policy_issues(p).len() > 0 {
            e.code == ErrorCode::InvalidInput && e.message@ == "路由策略校验失败"@ && e@.issues
                == policy_issues(p)
        } else if failover_refused(p, r) {
            e.code == ErrorCode::RouteUnavailable && e.message@ == refusal_message(
                r.previous_error.unwrap(),
            ) && e.issues@.len() == 0
        } else {
            !has_tier(r, cs) && e.code == ErrorCode::RouteUnavailable && e.message@
                == unavailable_message(r.model) && e.issues@.len() == 0
        },
        Ok(d) => policy_issues(p).len() == 0 && !failover_refused(p, r) && has_tier(r, cs),
    }
}

pub open spec fn decision_is(p: PolicyView, r: RequestView, c: CandidateView, d: RouteDecision) -> bool {
    &&& d.policy_id@ == p.id
    &&& d.candidate_id@ == c.id
    &&& d.reason == reason_for(p, r, c)
    &&& d.timeout_ms == p.timeout_ms
    &&& d.remaining_retries == p.max_retries
}

/// What a decision with a weighted state chooses, and how the state moves.
pub open spec fn weighted_spec(
    p: PolicyView,
    r: RequestView,
    cs: Seq<CandidateView>,
    before: Map<Seq<char>, i64>,
    after: Map<Seq<char>, i64>,
    res: Result<RouteDecision, CoreError>,
    with_state: bool,
) -> bool {
    let weighted = with_state && p.selection_strategy == SelectionStrategy::WeightedRoundRobin;
    let raised = raised_scores(before, cs, tier_pred(r, cs), cs.len() as int);
    &&& (policy_issues(p).len() > 0 || failover_refused(p, r) || !weighted) ==> after == before
    &&& (policy_issues(p).len() == 0 && !failover_refused(p, r) && weighted && !has_tier(r, cs))
        ==> after == Map::<Seq<char>, i64>::empty()
    &&& res matches Ok(d) ==> if weighted {
        exists|k: Seq<char>|
            #![trigger raised[k]]
            weighted_winner(raised, k) && after == weighted_next(
                raised,
                k,
                tier_total(cs, tier_pred(r, cs), cs.len() as int),
            ) && d.candidate_id@ == k && d.policy_id@ == p.id && d.reason == reason_for(
                p,
                r,
                cs[0],
            ) && d.timeout_ms == p.timeout_ms && d.remaining_retries == p.max_retries
    } else {
        exists|i: int|
            #![trigger cs[i]]
            stateless_choice(p, r, cs, i) && decision_is(p, r, cs[i], d)
    }
}


fn eligible_exec(request: &RouteRequest, c: &RouteCandidate) -> (r: bool)
    ensures
        r == eligible(request@, c@),
{
    c.enabled && !contains_string(&request.excluded_candidates, &c.id) && !(c.health
        == HealthStatus::Unhealthy) && !(c.health == HealthStatus::Paused) && (c.models.len() == 0
        || contains_string(&c.models, &request.model))
}

/// The tier of equally healthy best candidates, as a mask over `cands`.
fn tier_mask(request: &RouteRequest, cands: &Vec<RouteCandidate>) -> (m: Vec<bool>)
    ensures
        m@.len() == cands@.len(),
        mask_pred(m@) == tier_pred(request@, candidate_views(cands@)),
{
    let ghost r = request@;
    let ghost cs = candidate_views(cands@);
    let n = cands.len();
    let mut best: u8 = 3;
    let mut k: usize = 0;
    while k < n
        invariant
            n == cands@.len(),
            cs == candidate_views(cands@),
            r == request@,
            k <= n,
            best as nat == best_rank_upto(r, cs, k as int),
        decreases n - k,
    {
        assert(cs[k as int] == cands@[k as int]@);
        if eligible_exec(request, &cands[k]) {
            let rk = rank_of(cands[k].health);
            if rk < best {
                best = rk;
            }
        }
        k = k + 1;
    }
    let mut m: Vec<bool> = Vec::new();
    let mut k: usize = 0;
    while k < n
        invariant
            n == cands@.len(),
            cs == candidate_views(cands@),
            r == request@,
            k <= n,
            best as nat == best_rank(r, cs),
            m@.len() == k,
            forall|j: int| 0 <= j < k ==> m@[j] == in_tier(r, cs, j),
        decreases n - k,
    {
        assert(cs[k as int] == cands@[k as int]@);
        let e = eligible_exec(request, &cands[k]);
        let t = e && rank_of(cands[k].health) == best;
        m.push(t);
        k = k + 1;
    }
    assert(mask_pred(m@) =~= tier_pred(r, cs));
    m
}

/// The first least candidate by priority and id among the masked ones.
fn least_by_key(cands: &Vec<RouteCandidate>, mask: &Vec<bool>) -> (r: Option<usize>)
    requires
        mask@.len() == cands@.len(),
    ensures
        match r {
            Some(i) => first_least(candidate_views(cands@), mask_pred(mask@), key_ltf(), i as int),
            None => forall|j: int| !#[trigger] mask_pred(mask@)(j),
        },
{
    let ghost cs = candidate_views(cands@);
    let mut best: Option<usize> = None;
    let mut k: usize = 0;
    while k < cands.len()
        invariant
            mask@.len() == cands@.len(),
            cs == candidate_views(cands@),
            k <= cands@.len(),
            match best {
                Some(b) => b < k && mask@[b as int] && (forall|j: int|
                    0 <= j < k && mask@[j] ==> !key_lt(#[trigger] cs[j], cs[b as int])) && (forall|
                    j: int,
                | 0 <= j < b && mask@[j] ==> key_lt(cs[b as int], #[trigger] cs[j])),
                None => forall|j: int| 0 <= j < k ==> !mask@[j],
            },
        decreases cands.len() - k,
    {
        assert(cs[k as int] == cands@[k as int]@);
        if mask[k] {
            match best {
                None => {
                    proof {
                        lemma_key_lt_strict(cs[k as int], cs[k as int]);
                    }
                    best = Some(k);
                },
                Some(b) => {
                    assert(cs[b as int] == cands@[b as int]@);
                    if key_lt_exec(&cands[k], &cands[b]) {
                        proof {
                            let ck = cs[k as int];
                            let cb = cs[b as int];
                            assert forall|j: int| 0 <= j < k + 1 && mask@[j] implies !key_lt(
                                #[trigger] cs[j],
                                ck,
                            ) by {
                                lemma_key_lt_strict(ck, ck);
                                if j < k && key_lt(cs[j], ck) {
                                    lemma_key_lt_transitive(cs[j], ck, cb);
                                }
                            }
                            assert forall|j: int| 0 <= j < k && mask@[j] implies key_lt(
                                ck,
                                #[trigger] cs[j],
                            ) by {
                                lemma_key_lt_strict(cs[j], cb);
                                if key_lt(cb, cs[j]) {
                                    lemma_key_lt_transitive(ck, cb, cs[j]);
                                }
                            }
                        }
                        best = Some(k);
                    } else {
                        proof {
                            let ck = cs[k as int];
                            let cb = cs[b as int];
                            assert forall|j: int| 0 <= j < k + 1 && mask@[j] implies !key_lt(
                                #[trigger] cs[j],
                                cb,
                            ) by {
                            }
                        }
                    }
                },
            }
        }
        k = k + 1;
    }
    best
}

/// The first least candidate by latency, priority and id among the masked ones.
fn least_by_latency(cands: &Vec<RouteCandidate>, mask: &Vec<bool>) -> (r: Option<usize>)
    requires
        mask@.len() == cands@.len(),
    ensures
        match r {
            Some(i) => first_least(candidate_views(cands@), mask_pred(mask@), latency_ltf(), i as int),
            None => forall|j: int| !#[trigger] mask_pred(mask@)(j),
        },
{
    let ghost cs = candidate_views(cands@);
    let mut best: Option<usize> = None;
    let mut k: usize = 0;
    while k < cands.len()
        invariant
            mask@.len() == cands@.len(),
            cs == candidate_views(cands@),
            k <= cands@.len(),
            match best {
                Some(b) => b < k && mask@[b as int] && (forall|j: int|
                    0 <= j < k && mask@[j] ==> !latency_lt(#[trigger] cs[j], cs[b as int])) && (
                forall|j: int| 0 <= j < b && mask@[j] ==> latency_lt(cs[b as int], #[trigger] cs[j])),
                None => forall|j: int| 0 <= j < k ==> !mask@[j],
            },
        decreases cands.len() - k,
    {
        assert(cs[k as int] == cands@[k as int]@);
        if mask[k] {
            match best {
                None => {
                    proof {
                        lemma_latency_lt_strict(cs[k as int], cs[k as int]);
                    }
                    best = Some(k);
                },
                Some(b) => {
                    assert(cs[b as int] == cands@[b as int]@);
                    if latency_lt_exec(&cands[k], &cands[b]) {
                        proof {
                            let ck = cs[k as int];
                            let cb = cs[b as int];
                            assert forall|j: int| 0 <= j < k + 1 && mask@[j] implies !latency_lt(
                                #[trigger] cs[j],
                                ck,
                            ) by {
                                lemma_latency_lt_strict(ck, ck);
                                if j < k && latency_lt(cs[j], ck) {
                                    lemma_latency_lt_transitive(cs[j], ck, cb);
                                }
                            }
                            assert forall|j: int| 0 <= j < k && mask@[j] implies latency_lt(
                                ck,
                                #[trigger] cs[j],
                            ) by {
                                lemma_latency_lt_strict(cs[j], cb);
                                if latency_lt(cb, cs[j]) {
                                    lemma_latency_lt_transitive(ck, cb, cs[j]);
                                }
                            }
                        }
                        best = Some(k);
                    }
                },
            }
        }
        k = k + 1;
    }
    best
}

/// Lowest-latency selection among the masked candidates.
fn lowest_latency(cands: &Vec<RouteCandidate>, mask: &Vec<bool>, hysteresis_ms: u64) -> (r: Option<usize>)
    requires
        mask@.len() == cands@.len(),
    ensures
        match r {
            Some(i) => lowest_latency_choice(candidate_views(cands@), mask_pred(mask@), hysteresis_ms, i as int),
            None => forall|j: int| !#[trigger] mask_pred(mask@)(j),
        },
{
    let ghost cs = candidate_views(cands@);
    let ghost p = mask_pred(mask@);
    let n = cands.len();
    let mut sampled: Vec<bool> = Vec::new();
    let mut k: usize = 0;
    while k < n
        invariant
            n == cands@.len(),
            mask@.len() == n,
            cs == candidate_views(cands@),
            k <= n,
            sampled@.len() == k,
            forall|j: int| 0 <= j < k ==> sampled@[j] == (mask@[j] && cs[j].latency_ms is Some),
        decreases n - k,
    {
        assert(cs[k as int] == cands@[k as int]@);
        sampled.push(mask[k] && cands[k].latency_ms.is_some());
        k = k + 1;
    }
    assert(mask_pred(sampled@) =~= sampled_of(cs, p));
    match least_by_latency(cands, &sampled) {
        None => {
            let r = least_by_key(cands, mask);
            proof {
                assert(!(exists|j: int| #[trigger] sampled_of(cs, p)(j)));
            }
            r
        },
        Some(b) => {
            assert(cs[b as int] == cands@[b as int]@);
            let best_latency = match cands[b].latency_ms {
                Some(l) => l,
                None => u64::MAX,
            };
            let bound = best_latency.saturating_add(hysteresis_ms);
            let best_priority = cands[b].priority;
            let mut alt: Vec<bool> = Vec::new();
            let mut k: usize = 0;
            while k < n
                invariant
                    n == cands@.len(),
                    mask@.len() == n,
                    cs == candidate_views(cands@),
                    k <= n,
                    alt@.len() == k,
                    bound == sat_add_u64(latency_of(cs[b as int]), hysteresis_ms),
                    best_priority == cs[b as int].priority,
                    forall|j: int|
                        0 <= j < k ==> alt@[j] == (mask@[j] && cs[j].priority < best_priority
                            && cs[j].latency_ms is Some && cs[j].latency_ms.unwrap() <= bound),
                decreases n - k,
            {
                assert(cs[k as int] == cands@[k as int]@);
                let within = match cands[k].latency_ms {
                    Some(l) => l <= bound,
                    None => false,
                };
                alt.push(mask[k] && cands[k].priority < best_priority && within);
                k = k + 1;
            }
            assert(mask_pred(alt@) =~= within_hysteresis(cs, p, cs[b as int], hysteresis_ms));
            proof {
                assert(sampled_of(cs, p)(b as int));
            }
            match least_by_key(cands, &alt) {
                Some(a) => Some(a),
                None => Some(b),
            }
        },
    }
}

fn find_entry(v: &Vec<(String, i64)>, id: &String) -> (r: Option<usize>)
    requires
        distinct_keys(v@),
    ensures
        match r {
            Some(i) => i < v@.len() && v@[i as int].0@ == id@ && entries_map(v@).contains_key(id@)
                && entries_map(v@)[id@] == v@[i as int].1,
            None => !entries_map(v@).contains_key(id@),
        },
{
    proof {
        lemma_entries_map_dom(v@);
    }
    let mut i: usize = 0;
    while i < v.len()
        invariant
            i <= v@.len(),
            distinct_keys(v@),
            forall|j: int| 0 <= j < i ==> v@[j].0@ != id@,
        decreases v.len() - i,
    {
        if v[i].0 == *id {
            proof {
                lemma_entries_map_value(v@, i as int);
            }
            return Some(i);
        }
        i = i + 1;
    }
    assert forall|k: int| 0 <= k < entry_keys(v@).len() implies entry_keys(v@)[k] != id@ by {
        assert(entry_keys(v@)[k] == v@[k].0@);
    }
    assert(!entry_keys(v@).contains(id@));
    proof {
        lemma_entries_map_dom(v@);
    }
    assert(!entries_map(v@).contains_key(id@));
    None
}

/// Smooth weighted round-robin over the masked candidates. Raises each
/// candidate's score by its clamped weight, selects the highest score (ties:
/// smaller id), lowers the winner by the total weight, and forgets ids
/// outside the tier.
fn smooth_weighted(
    cands: &Vec<RouteCandidate>,
    mask: &Vec<bool>,
    state: &mut WeightedSelectionState,
) -> (r: Option<String>)
    requires
        mask@.len() == cands@.len(),
    ensures
        ({
            let cs = candidate_views(cands@);
            let p = mask_pred(mask@);
            let raised = raised_scores(old(state)@, cs, p, cs.len() as int);
            match r {
                None => (forall|j: int| !#[trigger] p(j)) && final(state)@ == Map::<Seq<char>, i64>::empty(),
                Some(k) => weighted_winner(raised, k@) && final(state)@ == weighted_next(
                    raised,
                    k@,
                    tier_total(cs, p, cs.len() as int),
                ),
            }
        }),
{
    proof {
        use_type_invariant(&*state);
    }
    let ghost cs = candidate_views(cands@);
    let ghost p = mask_pred(mask@);
    let ghost before = state@;
    let n = cands.len();
    let mut raised: Vec<(String, i64)> = Vec::new();
    let mut total: i64 = 0;
    let mut any = false;
    let mut k: usize = 0;
    while k < n
        invariant
            n == cands@.len(),
            mask@.len() == n,
            cs == candidate_views(cands@),
            p == mask_pred(mask@),
            before == state@,
            k <= n,
            distinct_keys(raised@),
            distinct_keys(state.current@),
            entries_map(raised@) == raised_scores(before, cs, p, k as int),
            total == tier_total(cs, p, k as int),
            any == exists|j: int| 0 <= j < k && #[trigger] p(j),
        decreases n - k,
    {
        assert(cs[k as int] == cands@[k as int]@);
        if mask[k] {
            let w = clamp_weight_exec(cands[k].weight);
            total = sat_add_i64(total, w);
            any = true;
            match find_entry(&raised, &cands[k].id) {
                Some(j) => {
                    let key = raised[j].0.clone();
                    let v = raised[j].1;
                    let nv = sat_add_i64(v, w);
                    proof {
                        lemma_entries_map_update(raised@, j as int, nv);
                    }
                    raised.set(j, (key, nv));
                },
                None => {
                    let base = match find_entry(&state.current, &cands[k].id) {
                        Some(i) => state.current[i].1,
                        None => 0,
                    };
                    let nv = sat_add_i64(base, w);
                    let key = cands[k].id.clone();
                    proof {
                        lemma_entries_map_push(raised@, (key, nv));
                        lemma_entries_map_dom(raised@);
                        assert forall|a: int, b: int| 0 <= a < b < raised@.len() + 1 implies
                            #[trigger] raised@.push((key, nv))[a].0@ != #[trigger] raised@.push((key, nv))[b].0@ by {
                            assert(raised@.push((key, nv))[a] == raised@[a]);
                            if b == raised@.len() {
                                assert(entry_keys(raised@)[a] == raised@[a].0@);
                                assert(!entry_keys(raised@).contains(key@));
                                assert(raised@.push((key, nv))[b].0@ == key@);
                            } else {
                                assert(raised@.push((key, nv))[b] == raised@[b]);
                            }
                        }
                    }
                    raised.push((key, nv));
                },
            }
        }
        proof {
            if !mask@[k as int] {
                assert(!p(k as int));
            }
        }
        k = k + 1;
    }
    if !any {
        state.current = Vec::new();
        proof {
            assert(entries_map(state.current@) =~= Map::<Seq<char>, i64>::empty());
        }
        return None;
    }
    // the tier is not empty, so the raised scores are not empty either
    proof {
        lemma_raised_dom(before, cs, p, n as int);
        let j = choose|j: int| 0 <= j < n && #[trigger] p(j);
        lemma_entries_map_dom(raised@);
        assert(raised_scores(before, cs, p, n as int).contains_key(cs[j].id));
    }
    let mut w: usize = 0;
    let mut i: usize = 1;
    while i < raised.len()
        invariant
            1 <= raised@.len(),
            distinct_keys(raised@),
            w < i <= raised@.len(),
            forall|j: int|
                0 <= j < i && j != w ==> (raised@[j].1 < raised@[w as int].1 || (raised@[j].1
                    == raised@[w as int].1 && seq_lt(raised@[w as int].0@, raised@[j].0@))),
        decreases raised.len() - i,
    {
        if raised[i].1 > raised[w].1 || (raised[i].1 == raised[w].1 && text::str_lt(
            raised[i].0.as_str(),
            raised[w].0.as_str(),
        )) {
            proof {
                let ki = raised@[i as int].0@;
                let kw = raised@[w as int].0@;
                assert forall|j: int| 0 <= j < i + 1 && j != i implies (raised@[j].1 < raised@[i as int].1 || (raised@[j].1
                    == raised@[i as int].1 && seq_lt(ki, #[trigger] raised@[j].0@))) by {
                    if j != w && raised@[j].1 == raised@[w as int].1 && raised@[w as int].1 == raised@[i as int].1 {
                        text::lemma_seq_lt_transitive(ki, kw, raised@[j].0@);
                    }
                }
            }
            w = i;
        } else {
            proof {
                let ki = raised@[i as int].0@;
                let kw = raised@[w as int].0@;
                assert(ki != kw);
                text::lemma_seq_lt_total(ki, kw);
            }
        }
        i = i + 1;
    }
    let ghost rv = raised@;
    proof {
        lemma_entries_map_dom(rv);
        lemma_entries_map_value(rv, w as int);
        let m = entries_map(rv);
        let kw = rv[w as int].0@;
        assert forall|o: Seq<char>| #![trigger m[o]] m.contains_key(o) && o != kw implies (m[o] < m[kw] || (m[o] == m[kw]
            && seq_lt(kw, o))) by {
            assert(entry_keys(rv).contains(o));
            let j = choose|j: int| 0 <= j < entry_keys(rv).len() && entry_keys(rv)[j] == o;
            assert(entry_keys(rv)[j] == rv[j].0@);
            lemma_entries_map_value(rv, j);
        }
    }
    let key = raised[w].0.clone();
    let score = raised[w].1;
    let lowered = sat_sub_i64(score, total);
    let result = raised[w].0.clone();
    proof {
        lemma_entries_map_update(raised@, w as int, lowered);
    }
    raised.set(w, (key, lowered));
    state.current = raised;
    Some(result)
}

proof fn lemma_raised_dom(m: Map<Seq<char>, i64>, cs: Seq<CandidateView>, p: spec_fn(int) -> bool, n: int)
    requires
        0 <= n <= cs.len(),
    ensures
        forall|j: int| 0 <= j < n && #[trigger] p(j) ==> raised_scores(m, cs, p, n).contains_key(cs[j].id),
    decreases n,
{
    if n > 0 {
        lemma_raised_dom(m, cs, p, n - 1);
    }
}

impl RoutePolicy {
    fn decide_inner(
        &self,
        request: &RouteRequest,
        candidates: &Vec<RouteCandidate>,
        state: &mut WeightedSelectionState,
        with_state: bool,
    ) -> (r: Result<RouteDecision, CoreError>)
        ensures
            decision_spec(self@, request@, candidate_views(candidates@), r),
            weighted_spec(self@, request@, candidate_views(candidates@), old(state)@, final(state)@, r, with_state),
            !with_state ==> final(state)@ == old(state)@,
    {
        let ghost p = self@;
        let ghost rq = request@;
        let ghost cs = candidate_views(candidates@);
        match self.validate() {
            Err(e) => {
                return Err(e);
            },
            Ok(()) => {},
        }
        match request.previous_error {
            Some(error) => {
                if !contains_error(&self.failover_on, error) {
                    let mut message = String::new();
                    text::push_str(&mut message, "策略不允许在错误 ");
                    text::push_str(&mut message, standard_error_str(error));
                    text::push_str(&mut message, " 后切换线路");
                    return Err(CoreError::new(ErrorCode::RouteUnavailable, message.as_str()));
                }
            },
            None => {},
        }
        let mask = tier_mask(request, candidates);
        let reason_base = request.previous_error.is_some();
        if with_state && self.selection_strategy == SelectionStrategy::WeightedRoundRobin {
            match smooth_weighted(candidates, &mask, state) {
                Some(id) => {
                    proof {
                        assert(raised_scores(old(state)@, cs, tier_pred(rq, cs), cs.len() as int).contains_key(id@));
                        lemma_raised_dom_only(old(state)@, cs, tier_pred(rq, cs), cs.len() as int, id@);
                        let w = choose|w: int| 0 <= w < cs.len() && #[trigger] tier_pred(rq, cs)(w) && cs[w].id == id@;
                        assert(in_tier(rq, cs, w));
                    }
                    let reason = if reason_base {
                        RouteReason::FailoverAfterError
                    } else {
                        RouteReason::WeightedSelection
                    };
                    return Ok(RouteDecision {
                        policy_id: self.id.clone(),
                        candidate_id: id,
                        reason,
                        timeout_ms: self.timeout_ms,
                        remaining_retries: self.max_retries,
                    });
                },
                None => {
                    let mut message = String::new();
                    text::push_str(&mut message, "没有可用于模型 ");
                    text::push_str(&mut message, request.model.as_str());
                    text::push_str(&mut message, " 的候选线路");
                    proof {
                        assert(!has_tier(rq, cs)) by {
                            if has_tier(rq, cs) {
                                let j = choose|j: int| in_tier(rq, cs, j);
                                assert(mask_pred(mask@)(j));
                            }
                        }
                    }
                    return Err(CoreError::new(ErrorCode::RouteUnavailable, message.as_str()));
                },
            }
        }
        let selected = if self.selection_strategy == SelectionStrategy::LowestLatency {
            lowest_latency(candidates, &mask, self.latency_hysteresis_ms)
        } else {
            least_by_key(candidates, &mask)
        };
        match selected {
            None => {
                let mut message = String::new();
                text::push_str(&mut message, "没有可用于模型 ");
                text::push_str(&mut message, request.model.as_str());
                text::push_str(&mut message, " 的候选线路");
                proof {
                    assert(!has_tier(rq, cs)) by {
                        if has_tier(rq, cs) {
                            let j = choose|j: int| in_tier(rq, cs, j);
                            assert(mask_pred(mask@)(j));
                        }
                    }
                }
                Err(CoreError::new(ErrorCode::RouteUnavailable, message.as_str()))
            },
            Some(i) => {
                let c = &candidates[i];
                assert(cs[i as int] == c@);
                proof {
                    if self.selection_strategy == SelectionStrategy::LowestLatency {
                        assert(lowest_latency_choice(cs, tier_pred(rq, cs), p.latency_hysteresis_ms, i as int));
                        lemma_lowest_latency_in(cs, tier_pred(rq, cs), p.latency_hysteresis_ms, i as int);
                    }
                    assert(in_tier(rq, cs, i as int));
                }
                let reason = if reason_base {
                    RouteReason::FailoverAfterError
                } else if self.selection_strategy == SelectionStrategy::WeightedRoundRobin {
                    RouteReason::WeightedSelection
                } else if self.selection_strategy == SelectionStrategy::LowestLatency
                    && c.latency_ms.is_some() {
                    RouteReason::LowestLatency
                } else if c.health == HealthStatus::Degraded {
                    RouteReason::PrimaryDegraded
                } else {
                    RouteReason::PrimaryHealthy
                };
                Ok(RouteDecision {
                    policy_id: self.id.clone(),
                    candidate_id: c.id.clone(),
                    reason,
                    timeout_ms: self.timeout_ms,
                    remaining_retries: self.max_retries,
                })
            },
        }
    }
}

proof fn lemma_raised_dom_only(m: Map<Seq<char>, i64>, cs: Seq<CandidateView>, p: spec_fn(int) -> bool, n: int, k: Seq<char>)
    requires
        0 <= n <= cs.len(),
        raised_scores(m, cs, p, n).contains_key(k),
    ensures
        exists|w: int| 0 <= w < cs.len() && #[trigger] p(w) && cs[w].id == k,
    decreases n,
{
    if n > 0 {
        if raised_scores(m, cs, p, n - 1).contains_key(k) {
            lemma_raised_dom_only(m, cs, p, n - 1, k);
        } else {
            assert(p(n - 1) && cs[n - 1].id == k);
        }
    }
}

proof fn lemma_lowest_latency_in(cs: Seq<CandidateView>, p: spec_fn(int) -> bool, h: u64, i: int)
    requires
        lowest_latency_choice(cs, p, h, i),
    ensures
        0 <= i < cs.len() && p(i),
{
    if exists|j: int| #[trigger] sampled_of(cs, p)(j) {
        let b = choose|b: int|
            #![trigger cs[b]]
            first_least(cs, sampled_of(cs, p), latency_ltf(), b) && if exists|j: int|
                #[trigger] within_hysteresis(cs, p, cs[b], h)(j) {
                first_least(cs, within_hysteresis(cs, p, cs[b], h), key_ltf(), i)
            } else {
                i == b
            };
        assert(sampled_of(cs, p)(b));
    }
}

} // verus!
