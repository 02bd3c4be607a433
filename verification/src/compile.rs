//! Compiles a canvas graph against the API wallet and the runtime
//! configuration into the model routes of its publisher, with a report of
//! every problem found.
use crate::canvas::{
    chain_issues, cissue_views, error_view, middleware_order, middleware_order_of, opt_error, probe_views,
    probes_of, push_error, unreachable_nodes, validate_probes, validate_service_plan_chain, CIssueView,
    CompilationIssue, ProbeView, enabled_unreachable_nodes, first_node,
};
use crate::error::{CoreError, ErrorCode};
use crate::graph::{
    graph_issues, CandidateBinding, ComposerConfig, Edge, MiddlewareConfig, MiddlewareKind, Node, NodeConfig,
    NodeKind, ProbeConfig, PublicModelRoute, WorkflowGraph,
};
use crate::routing::{RoutePolicy, SelectionStrategy, StandardError};
use crate::runtime::{provider_at, ModelRoute, ProviderInstance, RuntimeConfig, UpstreamRoute};
use crate::sort::str_views;
use crate::text::{self, is_blank, seq_lt};
use crate::workspace::{ApiAsset, ApiWallet};
use crate::SCHEMA_VERSION;
use vstd::prelude::*;

verus! {

#[derive(Debug, Clone, PartialEq, Eq)]
pub struct CompiledCandidate {
    pub provider_node_id: String,
    pub asset_id: String,
    pub public_model: String,
    pub upstream_model: String,
    pub priority: u32,
    pub weight: u16,
}

#[derive(Debug, Clone, PartialEq, Eq)]
pub struct CanvasCompilationReport {
    pub valid: bool,
    pub public_models: Vec<String>,
    pub candidates: Vec<CompiledCandidate>,
    pub candidate_count: usize,
    pub selected_strategy: SelectionStrategy,
    pub middleware_order: Vec<String>,
    pub unreachable_nodes: Vec<String>,
    pub missing_secrets: Vec<String>,
    pub stale_runtime: bool,
    pub requires_confirmation: bool,
    pub warnings: Vec<CompilationIssue>,
    pub errors: Vec<CompilationIssue>,
}

#[derive(Debug, Clone, PartialEq, Eq)]
pub struct CompiledCanvasGraph {
    pub routes: Vec<ModelRoute>,
    pub middleware: Vec<MiddlewareConfig>,
    pub probes: Vec<ProbeConfig>,
    pub report: CanvasCompilationReport,
}

pub struct CandidateView {
    pub provider_node_id: Seq<char>,
    pub asset_id: Seq<char>,
    pub public_model: Seq<char>,
    pub upstream_model: Seq<char>,
    pub priority: u32,
    pub weight: u16,
}

pub open spec fn candidate_view(c: CompiledCandidate) -> CandidateView {
    CandidateView {
        provider_node_id: c.provider_node_id@,
        asset_id: c.asset_id@,
        public_model: c.public_model@,
        upstream_model: c.upstream_model@,
        priority: c.priority,
        weight: c.weight,
    }
}

pub open spec fn candidate_views(v: Seq<CompiledCandidate>) -> Seq<CandidateView> {
    v.map_values(|c: CompiledCandidate| candidate_view(c))
}

/// An upstream of a compiled route: enabled and without conditions.
pub struct UpView {
    pub id: Seq<char>,
    pub provider_instance: Seq<char>,
    pub upstream_model: Seq<char>,
    pub priority: u32,
}

pub open spec fn up_view(u: UpstreamRoute) -> UpView {
    UpView { id: u.id@, provider_instance: u.provider_instance@, upstream_model: u.upstream_model@, priority: u.priority }
}

pub open spec fn up_views(v: Seq<UpstreamRoute>) -> Seq<UpView> {
    v.map_values(|u: UpstreamRoute| up_view(u))
}

pub open spec fn plain_upstream(u: UpstreamRoute) -> bool {
    u.enabled && u.conditions@.len() == 0
}

/// Ordered by priority, then id.
pub open spec fn up_lt(a: UpView, b: UpView) -> bool {
    a.priority < b.priority || (a.priority == b.priority && seq_lt(a.id, b.id))
}

/// `x` inserted after every element that is not greater.
pub open spec fn up_insert(t: Seq<UpView>, x: UpView) -> Seq<UpView>
    decreases t.len(),
{
    if t.len() == 0 {
        seq![x]
    } else if up_lt(x, t[0]) {
        seq![x] + t
    } else {
        seq![t[0]] + up_insert(t.drop_first(), x)
    }
}

/// The stable sort of upstreams by priority, then id.
pub open spec fn up_sort(s: Seq<UpView>) -> Seq<UpView>
    decreases s.len(),
{
    if s.len() == 0 {
        seq![]
    } else {
        up_insert(up_sort(s.drop_last()), s.last())
    }
}

/// The settings of the canvas's composer; the defaults when there is none.
pub struct Settings {
    pub strategy: SelectionStrategy,
    pub timeout_ms: u64,
    pub max_retries: u32,
    pub failover_on: Seq<StandardError>,
    pub latency_hysteresis_ms: u64,
    pub routes: Seq<PublicModelRoute>,
}

pub open spec fn default_failover() -> Seq<StandardError> {
    seq![StandardError::ProviderTimeout, StandardError::NetworkUnreachable, StandardError::RateLimited]
}

pub open spec fn first_composer(ns: Seq<Node>) -> Option<int> {
    if exists|k: int| 0 <= k < ns.len() && ns[k].kind == NodeKind::Composer {
        Some(choose|k: int| 0 <= k < ns.len() && ns[k].kind == NodeKind::Composer && forall|m: int|
            0 <= m < k ==> ns[m].kind != NodeKind::Composer)
    } else {
        None
    }
}

pub open spec fn settings_of(ns: Seq<Node>) -> Settings {
    match first_composer(ns) {
        Some(k) => match ns[k].config {
            NodeConfig::Composer(c) => Settings {
                strategy: c.strategy,
                timeout_ms: c.timeout_ms,
                max_retries: c.max_retries,
                failover_on: c.failover_on@,
                latency_hysteresis_ms: c.latency_hysteresis_ms,
                routes: c.routes@,
            },
            _ => default_settings(),
        },
        None => default_settings(),
    }
}

pub open spec fn default_settings() -> Settings {
    Settings {
        strategy: SelectionStrategy::PriorityFailover,
        timeout_ms: 30_000,
        max_retries: 2,
        failover_on: default_failover(),
        latency_hysteresis_ms: 25,
        routes: seq![],
    }
}

pub open spec fn composer_id_of(ns: Seq<Node>) -> Option<Seq<char>> {
    match first_composer(ns) {
        Some(k) => Some(ns[k].id@),
        None => None,
    }
}

pub open spec fn is_active_provider(n: Node) -> bool {
    n.kind == NodeKind::Provider && n.enabled
}

pub open spec fn count_kind(ns: Seq<Node>, kind: NodeKind, n: int) -> nat
    decreases n,
{
    if n <= 0 {
        0
    } else {
        count_kind(ns, kind, n - 1) + if ns[n - 1].kind == kind {
            1nat
        } else {
            0nat
        }
    }
}

pub open spec fn count_active_providers(ns: Seq<Node>, n: int) -> nat
    decreases n,
{
    if n <= 0 {
        0
    } else {
        count_active_providers(ns, n - 1) + if is_active_provider(ns[n - 1]) {
            1nat
        } else {
            0nat
        }
    }
}

/// The findings about node counts.
pub open spec fn count_issues(ns: Seq<Node>) -> Seq<CIssueView> {
    opt_error(
        count_kind(ns, NodeKind::Composer, ns.len() as int) != 1,
        error_view("COMPOSER_COUNT"@, "每个编组方案必须且只能包含一个 Composer。"@, None),
    ) + opt_error(
        count_kind(ns, NodeKind::Publisher, ns.len() as int) != 1,
        error_view("PUBLISHER_COUNT"@, "每个编组方案必须且只能包含一个 Publisher。"@, None),
    ) + opt_error(
        count_active_providers(ns, ns.len() as int) == 0,
        error_view("NO_PROVIDER"@, "Composer 至少需要一个启用的钱包 Provider。"@, None),
    )
}

pub open spec fn connected(es: Seq<Edge>, from: Seq<char>, to: Seq<char>) -> bool {
    exists|i: int| 0 <= i < es.len() && #[trigger] es[i].enabled && es[i].from.node@ == from && es[i].to.node@ == to
}

/// The active providers among the first `n` nodes that no enabled edge
/// connects to the composer.
pub open spec fn connection_issues(ns: Seq<Node>, es: Seq<Edge>, composer: Seq<char>, n: int) -> Seq<CIssueView>
    decreases n,
{
    if n <= 0 {
        seq![]
    } else {
        connection_issues(ns, es, composer, n - 1) + opt_error(
            is_active_provider(ns[n - 1]) && !connected(es, ns[n - 1].id@, composer),
            error_view(
                "PROVIDER_NOT_CONNECTED"@,
                "Provider "@ + ns[n - 1].name@ + " 尚未连接 Composer。"@,
                Some(ns[n - 1].id@),
            ),
        )
    }
}

/// The asset stored under a key.
pub open spec fn asset_at(assets: Seq<(String, ApiAsset)>, key: Seq<char>) -> Option<ApiAsset>
    decreases assets.len(),
{
    if assets.len() == 0 {
        None
    } else if assets[0].0@ == key {
        Some(assets[0].1)
    } else {
        asset_at(assets.drop_first(), key)
    }
}

/// What binding the providers has produced so far: findings, assets with no
/// secret, assets referenced, and `(node id, asset id, provider instance)`
/// for each provider bound.
pub struct BindState {
    pub errors: Seq<CIssueView>,
    pub missing: Seq<Seq<char>>,
    pub seen: Seq<Seq<char>>,
    pub bound: Seq<(Seq<char>, Seq<char>, Seq<char>)>,
}

pub open spec fn bind_step(st: BindState, node: Node, wallet: ApiWallet, runtime: RuntimeConfig) -> BindState {
    if !is_active_provider(node) {
        st
    } else {
        match node.config {
            NodeConfig::Provider(c) => {
                let a = c.asset_id@;
                if is_blank(a) {
                    BindState {
                        errors: st.errors.push(
                            error_view("PROVIDER_ASSET_REQUIRED"@, "Provider "@ + node.name@ + " 未绑定钱包资产。"@, Some(node.id@)),
                        ),
                        ..st
                    }
                } else {
                    let dup = st.seen.contains(a);
                    let seen = if dup {
                        st.seen
                    } else {
                        st.seen.push(a)
                    };
                    let e1 = st.errors + opt_error(
                        dup,
                        error_view("DUPLICATE_ASSET"@, "钱包资产 "@ + a + " 在同一编组方案中被重复引用。"@, Some(node.id@)),
                    );
                    match asset_at(wallet.assets@, a) {
                        None => BindState {
                            errors: e1.push(
                                error_view("ASSET_NOT_FOUND"@, "Provider "@ + node.name@ + " 引用了不存在的钱包资产。"@, Some(node.id@)),
                            ),
                            seen,
                            ..st
                        },
                        Some(asset) => match provider_at(runtime.providers@, asset.provider_instance_id@) {
                            None => BindState {
                                errors: e1.push(
                                    error_view(
                                        "PROVIDER_INSTANCE_NOT_FOUND"@,
                                        "钱包资产 "@ + asset.name@ + " 缺少 Provider 实例。"@,
                                        Some(node.id@),
                                    ),
                                ),
                                seen,
                                ..st
                            },
                            Some(inst) => {
                                let no_secret = inst.secret_refs@.len() == 0;
                                BindState {
                                    errors: e1 + opt_error(
                                        !asset.enabled || !inst.enabled,
                                        error_view(
                                            "PROVIDER_DISABLED"@,
                                            "钱包资产 "@ + asset.name@ + " 或其 Provider 实例已停用。"@,
                                            Some(node.id@),
                                        ),
                                    ) + opt_error(
                                        no_secret,
                                        error_view("SECRET_MISSING"@, "钱包资产 "@ + asset.name@ + " 缺少 Secret。"@, Some(node.id@)),
                                    ),
                                    missing: if no_secret {
                                        st.missing.push(a)
                                    } else {
                                        st.missing
                                    },
                                    seen,
                                    bound: st.bound.push((node.id@, a, asset.provider_instance_id@)),
                                }
                            },
                        },
                    }
                }
            },
            _ => st,
        }
    }
}

pub open spec fn bind_all(ns: Seq<Node>, wallet: ApiWallet, runtime: RuntimeConfig, n: int) -> BindState
    decreases n,
{
    if n <= 0 {
        BindState { errors: seq![], missing: seq![], seen: seq![], bound: seq![] }
    } else {
        bind_step(bind_all(ns, wallet, runtime, n - 1), ns[n - 1], wallet, runtime)
    }
}

/// One route per selected model of each active provider, when the composer
/// declares no routes.
pub struct RouteSpec {
    pub public_model: Seq<char>,
    pub candidates: Seq<(Seq<char>, Seq<char>, u32, u16)>,
}

pub open spec fn route_spec(r: PublicModelRoute) -> RouteSpec {
    RouteSpec {
        public_model: r.public_model@,
        candidates: cand_tuples(r.candidates@),
    }
}

pub open spec fn cand_tuples(cs: Seq<CandidateBinding>) -> Seq<(Seq<char>, Seq<char>, u32, u16)> {
    cs.map_values(|c: CandidateBinding| (c.provider_node_id@, c.upstream_model@, c.priority, c.weight))
}

pub open spec fn model_routes(node_id: Seq<char>, models: Seq<String>) -> Seq<RouteSpec> {
    models.map_values(|m: String| RouteSpec { public_model: m@, candidates: seq![(node_id, m@, 0u32, 1u16)] })
}

pub open spec fn implicit_routes(ns: Seq<Node>, n: int) -> Seq<RouteSpec>
    decreases n,
{
    if n <= 0 {
        seq![]
    } else {
        let rest = implicit_routes(ns, n - 1);
        let node = ns[n - 1];
        if is_active_provider(node) {
            match node.config {
                NodeConfig::Provider(c) => rest + model_routes(node.id@, c.selected_models@),
                _ => rest,
            }
        } else {
            rest
        }
    }
}

pub open spec fn route_specs(ns: Seq<Node>) -> Seq<RouteSpec> {
    let s = settings_of(ns);
    if s.routes.len() == 0 {
        implicit_routes(ns, ns.len() as int)
    } else {
        s.routes.map_values(|r: PublicModelRoute| route_spec(r))
    }
}

/// The last binding of a provider node.
pub open spec fn bound_at(bound: Seq<(Seq<char>, Seq<char>, Seq<char>)>, node_id: Seq<char>, n: int) -> Option<(Seq<char>, Seq<char>, Seq<char>)>
    decreases n,
{
    if n <= 0 {
        None
    } else if bound[n - 1].0 == node_id {
        Some(bound[n - 1])
    } else {
        bound_at(bound, node_id, n - 1)
    }
}

/// The upstreams and candidates of one route, and the findings of its
/// candidates, over the first `n` candidates.
pub open spec fn route_candidates(bound: Seq<(Seq<char>, Seq<char>, Seq<char>)>, pm: Seq<char>, cs: Seq<(Seq<char>, Seq<char>, u32, u16)>, n: int) -> (Seq<CIssueView>, Seq<UpView>, Seq<CandidateView>)
    decreases n,
{
    if n <= 0 {
        (seq![], seq![], seq![])
    } else {
        let rest = route_candidates(bound, pm, cs, n - 1);
        let c = cs[n - 1];
        if !(1 <= c.3 <= 100) {
            (rest.0.push(error_view("WEIGHT_OUT_OF_RANGE"@, "候选权重必须在 1 到 100 之间。"@, Some(c.0))), rest.1, rest.2)
        } else {
            match bound_at(bound, c.0, bound.len() as int) {
                None => (
                    rest.0.push(error_view("CANDIDATE_PROVIDER_NOT_FOUND"@, "公开模型 "@ + pm + " 引用了无效 Provider 节点。"@, Some(c.0))),
                    rest.1,
                    rest.2,
                ),
                Some(b) => {
                    let um = if is_blank(c.1) {
                        pm
                    } else {
                        c.1
                    };
                    (
                        rest.0,
                        rest.1.push(UpView { id: c.0 + ":"@ + pm, provider_instance: b.2, upstream_model: um, priority: c.2 }),
                        rest.2.push(CandidateView {
                            provider_node_id: c.0,
                            asset_id: b.1,
                            public_model: pm,
                            upstream_model: um,
                            priority: c.2,
                            weight: c.3,
                        }),
                    )
                },
            }
        }
    }
}

/// A compiled route: its public model and its sorted upstreams.
pub struct RouteOut {
    pub public_model: Seq<char>,
    pub upstreams: Seq<UpView>,
}

/// What compiling the routes has produced so far.
pub struct RouteState {
    pub names: Seq<Seq<char>>,
    pub errors: Seq<CIssueView>,
    pub routes: Seq<RouteOut>,
    pub candidates: Seq<CandidateView>,
}

pub open spec fn route_step(st: RouteState, r: RouteSpec, composer: Option<Seq<char>>, bound: Seq<(Seq<char>, Seq<char>, Seq<char>)>) -> RouteState {
    let pm = r.public_model;
    if is_blank(pm) || st.names.contains(pm) {
        RouteState {
            errors: st.errors.push(error_view("INVALID_PUBLIC_MODEL"@, "公开模型名不能为空且必须唯一。"@, composer)),
            ..st
        }
    } else if r.candidates.len() == 0 {
        RouteState {
            names: st.names.push(pm),
            errors: st.errors.push(error_view("ROUTE_WITHOUT_CANDIDATE"@, "公开模型 "@ + pm + " 没有候选上游。"@, composer)),
            ..st
        }
    } else {
        let c = route_candidates(bound, pm, r.candidates, r.candidates.len() as int);
        RouteState {
            names: st.names.push(pm),
            errors: st.errors + c.0,
            routes: st.routes.push(RouteOut { public_model: pm, upstreams: up_sort(c.1) }),
            candidates: st.candidates + c.2,
        }
    }
}

pub open spec fn routes_all(rs: Seq<RouteSpec>, composer: Option<Seq<char>>, bound: Seq<(Seq<char>, Seq<char>, Seq<char>)>, n: int) -> RouteState
    decreases n,
{
    if n <= 0 {
        RouteState { names: seq![], errors: seq![], routes: seq![], candidates: seq![] }
    } else {
        route_step(routes_all(rs, composer, bound, n - 1), rs[n - 1], composer, bound)
    }
}

pub open spec fn unreachable_issues(ids: Seq<Seq<char>>) -> Seq<CIssueView> {
    ids.map_values(|id: Seq<char>| error_view("UNREACHABLE_NODE"@, "启用节点无法到达 Publisher。"@, Some(id)))
}

/// Every error finding of a canvas compilation, in order.
#[verifier::opaque]
pub open spec fn compile_errors(g: WorkflowGraph, wallet: ApiWallet, runtime: RuntimeConfig) -> Seq<CIssueView> {
    let ns = g.nodes@;
    let es = g.edges@;
    let composer = composer_id_of(ns);
    let b = bind_all(ns, wallet, runtime, ns.len() as int);
    let rs = route_specs(ns);
    count_issues(ns) + (match composer {
        Some(c) => connection_issues(ns, es, c, ns.len() as int),
        None => seq![],
    }) + b.errors + routes_all(rs, composer, b.bound, rs.len() as int).errors + unreachable_issues(
        unreachable_nodes(ns, es),
    ) + chain_issues(ns, es, ns.len() as int) + probes_of(ns, ns.len() as int).0
}

pub open spec fn route_policy_is(p: RoutePolicy, graph_id: Seq<char>, s: Settings) -> bool {
    &&& p.schema_version == SCHEMA_VERSION
    &&& p.id@ == graph_id + "-route-policy"@
    &&& p.timeout_ms == s.timeout_ms
    &&& p.max_retries == s.max_retries
    &&& p.failover_on@ == s.failover_on
    &&& p.selection_strategy == s.strategy
    &&& p.latency_hysteresis_ms == s.latency_hysteresis_ms
}

/// Whether compiled routes are the routes of the specification.
pub open spec fn routes_are(rs: Seq<ModelRoute>, out: Seq<RouteOut>, graph_id: Seq<char>, s: Settings) -> bool {
    &&& rs.len() == out.len()
    &&& forall|i: int| 0 <= i < rs.len() ==> {
        &&& #[trigger] rs[i].public_model@ == out[i].public_model
        &&& up_views(rs[i].upstreams@) == out[i].upstreams
        &&& forall|j: int| 0 <= j < rs[i].upstreams@.len() ==> plain_upstream(#[trigger] rs[i].upstreams@[j])
        &&& route_policy_is(rs[i].policy, graph_id, s)
    }
}

/// The plain content of a middleware configuration.
pub enum MwView {
    RequestDefaults { temperature: Option<u64>, top_p: Option<u64>, max_output_tokens: Option<u32> },
    ModelPolicy { allowed_models: Seq<Seq<char>>, max_output_tokens: Option<u32> },
    RateLimit { requests_per_minute: u32, max_concurrent: u32 },
    BudgetMonitor { warning_thresholds: Seq<u8> },
}

pub open spec fn mw_view(m: MiddlewareConfig) -> MwView {
    match m.middleware {
        MiddlewareKind::RequestDefaults { temperature, top_p, max_output_tokens } => MwView::RequestDefaults {
            temperature,
            top_p,
            max_output_tokens,
        },
        MiddlewareKind::ModelPolicy { allowed_models, max_output_tokens } => MwView::ModelPolicy {
            allowed_models: str_views(allowed_models@),
            max_output_tokens,
        },
        MiddlewareKind::RateLimit { requests_per_minute, max_concurrent } => MwView::RateLimit {
            requests_per_minute,
            max_concurrent,
        },
        MiddlewareKind::BudgetMonitor { warning_thresholds } => MwView::BudgetMonitor {
            warning_thresholds: warning_thresholds@,
        },
    }
}

pub open spec fn mw_views(v: Seq<MiddlewareConfig>) -> Seq<MwView> {
    v.map_values(|m: MiddlewareConfig| mw_view(m))
}

/// The configurations of the first node of each id, where it is middleware.
pub open spec fn middleware_list(ns: Seq<Node>, ids: Seq<Seq<char>>, n: int) -> Seq<MwView>
    decreases n,
{
    if n <= 0 {
        seq![]
    } else {
        let rest = middleware_list(ns, ids, n - 1);
        match first_node(ns, ids[n - 1]) {
            Some(k) => match ns[k].config {
                NodeConfig::Middleware(m) => rest.push(mw_view(m)),
                _ => rest,
            },
            None => rest,
        }
    }
}

/// Whether a compiled canvas is the compilation of a graph that validated.
#[verifier::opaque]
pub open spec fn compiled_is(c: CompiledCanvasGraph, g: WorkflowGraph, wallet: ApiWallet, runtime: RuntimeConfig) -> bool {
    let ns = g.nodes@;
    let es = g.edges@;
    let composer = composer_id_of(ns);
    let b = bind_all(ns, wallet, runtime, ns.len() as int);
    let rs = route_specs(ns);
    let st = routes_all(rs, composer, b.bound, rs.len() as int);
    let s = settings_of(ns);
    let errors = compile_errors(g, wallet, runtime);
    &&& routes_are(c.routes@, st.routes, g.id@, s)
    &&& probe_views(c.probes@) == probes_of(ns, ns.len() as int).1
    &&& c.report.valid == (errors.len() == 0)
    &&& str_views(c.report.public_models@) == st.routes.map_values(|r: RouteOut| r.public_model)
    &&& candidate_views(c.report.candidates@) == st.candidates
    &&& c.report.candidate_count == st.candidates.len()
    &&& c.report.selected_strategy == s.strategy
    &&& str_views(c.report.middleware_order@) == middleware_order_of(ns, es)
    &&& mw_views(c.middleware@) == middleware_list(ns, middleware_order_of(ns, es), middleware_order_of(ns, es).len() as int)
    &&& str_views(c.report.unreachable_nodes@) == unreachable_nodes(ns, es)
    &&& str_views(c.report.missing_secrets@) == b.missing
    &&& !c.report.stale_runtime
    &&& !c.report.requires_confirmation
    &&& c.report.warnings@.len() == 0
    &&& cissue_views(c.report.errors@) == errors
}

pub(crate) fn count_kind_exec(ns: &Vec<Node>, kind: NodeKind) -> (r: usize)
    ensures
        r == count_kind(ns@, kind, ns@.len() as int),
{
    let mut n: usize = 0;
    let mut i: usize = 0;
    while i < ns.len()
        invariant
            i <= ns@.len(),
            n == count_kind(ns@, kind, i as int),
            n <= i,
        decreases ns.len() - i,
    {
        if ns[i].kind == kind {
            n = n + 1;
        }
        i = i + 1;
    }
    n
}

fn count_active_exec(ns: &Vec<Node>) -> (r: usize)
    ensures
        r == count_active_providers(ns@, ns@.len() as int),
{
    let mut n: usize = 0;
    let mut i: usize = 0;
    while i < ns.len()
        invariant
            i <= ns@.len(),
            n == count_active_providers(ns@, i as int),
            n <= i,
        decreases ns.len() - i,
    {
        if ns[i].kind == NodeKind::Provider && ns[i].enabled {
            n = n + 1;
        }
        i = i + 1;
    }
    n
}

fn find_composer(ns: &Vec<Node>) -> (r: Option<usize>)
    ensures
        match r {
            Some(k) => first_composer(ns@) == Some(k as int) && k < ns@.len(),
            None => first_composer(ns@) is None,
        },
{
    let mut k: usize = 0;
    while k < ns.len()
        invariant
            k <= ns@.len(),
            forall|m: int| 0 <= m < k ==> ns@[m].kind != NodeKind::Composer,
        decreases ns.len() - k,
    {
        if ns[k].kind == NodeKind::Composer {
            proof {
                let w = choose|w: int| 0 <= w < ns@.len() && ns@[w].kind == NodeKind::Composer && forall|m: int|
                    0 <= m < w ==> ns@[m].kind != NodeKind::Composer;
                if w > k {
                    assert(ns@[k as int].kind == NodeKind::Composer);
                }
            }
            return Some(k);
        }
        k = k + 1;
    }
    None
}

fn is_connected(es: &Vec<Edge>, from: &String, to: &String) -> (r: bool)
    ensures
        r == connected(es@, from@, to@),
{
    let mut i: usize = 0;
    while i < es.len()
        invariant
            i <= es@.len(),
            forall|k: int| 0 <= k < i ==> !(#[trigger] es@[k].enabled && es@[k].from.node@ == from@ && es@[k].to.node@ == to@),
        decreases es.len() - i,
    {
        if es[i].enabled && es[i].from.node == *from && es[i].to.node == *to {
            return true;
        }
        i = i + 1;
    }
    false
}

fn connection_check(ns: &Vec<Node>, es: &Vec<Edge>, composer: &String, errors: &mut Vec<CompilationIssue>)
    ensures
        cissue_views(final(errors)@) == cissue_views(old(errors)@) + connection_issues(ns@, es@, composer@, ns@.len() as int),
{
    let ghost start = cissue_views(errors@);
    let mut i: usize = 0;
    while i < ns.len()
        invariant
            i <= ns@.len(),
            cissue_views(errors@) == start + connection_issues(ns@, es@, composer@, i as int),
        decreases ns.len() - i,
    {
        let node = &ns[i];
        let active = node.kind == NodeKind::Provider && node.enabled;
        let missing = active && !is_connected(es, &node.id, composer);
        let mut message = text::owned("Provider ");
        text::push_str(&mut message, node.name.as_str());
        text::push_str(&mut message, " 尚未连接 Composer。");
        push_error(errors, missing, "PROVIDER_NOT_CONNECTED", message.as_str(), Some(node.id.as_str()));
        assert(cissue_views(errors@) =~= start + connection_issues(ns@, es@, composer@, i + 1));
        i = i + 1;
    }
}

pub(crate) fn find_asset(assets: &Vec<(String, ApiAsset)>, key: &String) -> (r: Option<usize>)
    ensures
        match r {
            Some(k) => k < assets@.len() && asset_at(assets@, key@) == Some(assets@[k as int].1),
            None => asset_at(assets@, key@) is None,
        },
{
    assert(assets@.subrange(0, assets@.len() as int) =~= assets@);
    let mut i: usize = 0;
    while i < assets.len()
        invariant
            i <= assets@.len(),
            asset_at(assets@, key@) == asset_at(assets@.subrange(i as int, assets@.len() as int), key@),
        decreases assets.len() - i,
    {
        let ghost rest = assets@.subrange(i as int, assets@.len() as int);
        assert(rest[0] == assets@[i as int]);
        if assets[i].0 == *key {
            return Some(i);
        }
        assert(rest.drop_first() =~= assets@.subrange(i + 1, assets@.len() as int));
        i = i + 1;
    }
    None
}

pub(crate) fn find_instance(ps: &Vec<(String, ProviderInstance)>, key: &String) -> (r: Option<usize>)
    ensures
        match r {
            Some(k) => k < ps@.len() && provider_at(ps@, key@) == Some(ps@[k as int].1),
            None => provider_at(ps@, key@) is None,
        },
{
    assert(ps@.subrange(0, ps@.len() as int) =~= ps@);
    let mut i: usize = 0;
    while i < ps.len()
        invariant
            i <= ps@.len(),
            provider_at(ps@, key@) == provider_at(ps@.subrange(i as int, ps@.len() as int), key@),
        decreases ps.len() - i,
    {
        let ghost rest = ps@.subrange(i as int, ps@.len() as int);
        assert(rest[0] == ps@[i as int]);
        if ps[i].0 == *key {
            return Some(i);
        }
        assert(rest.drop_first() =~= ps@.subrange(i + 1, ps@.len() as int));
        i = i + 1;
    }
    None
}

pub open spec fn triple_views(v: Seq<(String, String, String)>) -> Seq<(Seq<char>, Seq<char>, Seq<char>)> {
    v.map_values(|t: (String, String, String)| (t.0@, t.1@, t.2@))
}

fn contains_str(v: &Vec<String>, x: &String) -> (r: bool)
    ensures
        r == str_views(v@).contains(x@),
{
    let mut i: usize = 0;
    while i < v.len()
        invariant
            i <= v@.len(),
            forall|k: int| 0 <= k < i ==> v@[k]@ != x@,
        decreases v.len() - i,
    {
        if v[i] == *x {
            assert(str_views(v@)[i as int] == x@);
            return true;
        }
        i = i + 1;
    }
    proof {
        if str_views(v@).contains(x@) {
            let k = choose|k: int| 0 <= k < str_views(v@).len() && str_views(v@)[k] == x@;
            assert(v@[k]@ == x@);
        }
    }
    false
}

fn message3(a: &str, b: &str, c: &str) -> (r: String)
    ensures
        r@ == a@ + b@ + c@,
{
    let mut r = text::owned(a);
    text::push_str(&mut r, b);
    text::push_str(&mut r, c);
    r
}

#[verifier::rlimit(40)]
fn bind_node(
    node: &Node,
    wallet: &ApiWallet,
    runtime: &RuntimeConfig,
    errors: &mut Vec<CompilationIssue>,
    missing: &mut Vec<String>,
    seen: &mut Vec<String>,
    bound: &mut Vec<(String, String, String)>,
)
    ensures
        ({
            let st = BindState { errors: cissue_views(old(errors)@), missing: str_views(old(missing)@), seen: str_views(old(seen)@), bound: triple_views(old(bound)@) };
            let nx = bind_step(st, *node, *wallet, *runtime);
            cissue_views(final(errors)@) == nx.errors && str_views(final(missing)@) == nx.missing && str_views(final(seen)@) == nx.seen && triple_views(final(bound)@) == nx.bound
        }),
{
    if !(node.kind == NodeKind::Provider && node.enabled) {
        return;
    }
    let c = match &node.config {
        NodeConfig::Provider(c) => c,
        _ => {
            return;
        },
    };
    let a = &c.asset_id;
    let nid = node.id.as_str();
    if text::is_blank_str(a.as_str()) {
        let m = message3("Provider ", node.name.as_str(), " 未绑定钱包资产。");
        errors.push(CompilationIssue::error("PROVIDER_ASSET_REQUIRED", m.as_str(), Some(nid)));
        return;
    }
    let dup = contains_str(seen, a);
    if !dup {
        let ghost sb = str_views(seen@);
        seen.push(a.clone());
        assert(str_views(seen@) =~= sb.push(a@));
    }
    let m = message3("钱包资产 ", a.as_str(), " 在同一编组方案中被重复引用。");
    push_error(errors, dup, "DUPLICATE_ASSET", m.as_str(), Some(nid));
    let k = match find_asset(&wallet.assets, a) {
        None => {
            let m = message3("Provider ", node.name.as_str(), " 引用了不存在的钱包资产。");
            errors.push(CompilationIssue::error("ASSET_NOT_FOUND", m.as_str(), Some(nid)));
            return;
        },
        Some(k) => k,
    };
    let asset = &wallet.assets[k].1;
    let p = match find_instance(&runtime.providers, &asset.provider_instance_id) {
        None => {
            let m = message3("钱包资产 ", asset.name.as_str(), " 缺少 Provider 实例。");
            errors.push(CompilationIssue::error("PROVIDER_INSTANCE_NOT_FOUND", m.as_str(), Some(nid)));
            return;
        },
        Some(p) => p,
    };
    let inst = &runtime.providers[p].1;
    let m = message3("钱包资产 ", asset.name.as_str(), " 或其 Provider 实例已停用。");
    push_error(errors, !asset.enabled || !inst.enabled, "PROVIDER_DISABLED", m.as_str(), Some(nid));
    let no_secret = inst.secret_refs.len() == 0;
    if no_secret {
        let ghost mb = str_views(missing@);
        missing.push(a.clone());
        assert(str_views(missing@) =~= mb.push(a@));
    }
    let m = message3("钱包资产 ", asset.name.as_str(), " 缺少 Secret。");
    push_error(errors, no_secret, "SECRET_MISSING", m.as_str(), Some(nid));
    let ghost bb = triple_views(bound@);
    bound.push((node.id.clone(), a.clone(), asset.provider_instance_id.clone()));
    assert(triple_views(bound@) =~= bb.push((node.id@, a@, asset.provider_instance_id@)));
}

fn bind_providers(ns: &Vec<Node>, wallet: &ApiWallet, runtime: &RuntimeConfig, errors: &mut Vec<CompilationIssue>) -> (r: (Vec<String>, Vec<(String, String, String)>))
    ensures
        cissue_views(final(errors)@) == cissue_views(old(errors)@) + bind_all(ns@, *wallet, *runtime, ns@.len() as int).errors,
        str_views(r.0@) == bind_all(ns@, *wallet, *runtime, ns@.len() as int).missing,
        triple_views(r.1@) == bind_all(ns@, *wallet, *runtime, ns@.len() as int).bound,
{
    let ghost start = cissue_views(errors@);
    let mut local: Vec<CompilationIssue> = Vec::new();
    let mut missing: Vec<String> = Vec::new();
    let mut seen: Vec<String> = Vec::new();
    let mut bound: Vec<(String, String, String)> = Vec::new();
    let mut i: usize = 0;
    assert(cissue_views(local@) =~= seq![]);
    assert(str_views(missing@) =~= seq![]);
    assert(str_views(seen@) =~= seq![]);
    assert(triple_views(bound@) =~= seq![]);
    while i < ns.len()
        invariant
            i <= ns@.len(),
            ({
                let st = bind_all(ns@, *wallet, *runtime, i as int);
                cissue_views(local@) == st.errors && str_views(missing@) == st.missing && str_views(seen@) == st.seen
                    && triple_views(bound@) == st.bound
            }),
        decreases ns.len() - i,
    {
        bind_node(&ns[i], wallet, runtime, &mut local, &mut missing, &mut seen, &mut bound);
        i = i + 1;
    }
    let mut j: usize = 0;
    let ghost le = cissue_views(local@);
    while j < local.len()
        invariant
            j <= local@.len(),
            le == cissue_views(local@),
            cissue_views(errors@) == start + le.take(j as int),
        decreases local.len() - j,
    {
        let ghost before = cissue_views(errors@);
        errors.push(local[j].clone_issue());
        assert(cissue_views(errors@) =~= before.push(local@[j as int]@));
        assert(le.take(j + 1) =~= le.take(j as int).push(le[j as int]));
        j = j + 1;
    }
    assert(le.take(local@.len() as int) =~= le);
    (missing, bound)
}

impl CompilationIssue {
    pub fn clone_issue(&self) -> (r: Self)
        ensures
            r@ == self@,
    {
        CompilationIssue {
            code: self.code.clone(),
            severity: self.severity,
            message: self.message.clone(),
            node_id: match &self.node_id {
                Some(s) => Some(s.clone()),
                None => None,
            },
            edge_id: match &self.edge_id {
                Some(s) => Some(s.clone()),
                None => None,
            },
            field: match &self.field {
                Some(s) => Some(s.clone()),
                None => None,
            },
            fix_target: match &self.fix_target {
                Some(s) => Some(s.clone()),
                None => None,
            },
        }
    }
}

proof fn lemma_up_insert_at(t: Seq<UpView>, x: UpView, k: int)
    requires
        0 <= k <= t.len(),
        forall|j: int| 0 <= j < k ==> !up_lt(x, #[trigger] t[j]),
        k < t.len() ==> up_lt(x, t[k]),
    ensures
        up_insert(t, x) == t.insert(k, x),
    decreases t.len(),
{
    if t.len() == 0 {
        assert(t.insert(k, x) =~= seq![x]);
    } else if k == 0 {
        assert(t.insert(0, x) =~= seq![x] + t);
    } else {
        let t1 = t.drop_first();
        assert forall|j: int| 0 <= j < k - 1 implies !up_lt(x, #[trigger] t1[j]) by {
            assert(t1[j] == t[j + 1]);
        }
        if k - 1 < t1.len() {
            assert(t1[k - 1] == t[k]);
        }
        lemma_up_insert_at(t1, x, k - 1);
        assert(t.insert(k, x) =~= seq![t[0]] + t1.insert(k - 1, x));
    }
}

fn up_less(a: &UpstreamRoute, b: &UpstreamRoute) -> (r: bool)
    ensures
        r == up_lt(up_view(*a), up_view(*b)),
{
    a.priority < b.priority || (a.priority == b.priority && text::str_lt(a.id.as_str(), b.id.as_str()))
}

/// Sorts upstreams by priority, then id, keeping equal ones in order.
fn sort_upstreams(v: Vec<UpstreamRoute>) -> (r: Vec<UpstreamRoute>)
    requires
        forall|j: int| 0 <= j < v@.len() ==> plain_upstream(#[trigger] v@[j]),
    ensures
        up_views(r@) == up_sort(up_views(v@)),
        forall|j: int| 0 <= j < r@.len() ==> plain_upstream(#[trigger] r@[j]),
{
    let mut v = v;
    let total: usize = v.len();
    let ghost vv = up_views(v@);
    let ghost orig = v@;
    let mut r: Vec<UpstreamRoute> = Vec::new();
    let mut i: usize = 0;
    assert(vv.take(0) =~= seq![]);
    while v.len() > 0
        invariant
            i + v@.len() == orig.len(),
            orig.len() == total,
            v@ == orig.subrange(i as int, orig.len() as int),
            vv == up_views(orig),
            up_views(r@) == up_sort(vv.take(i as int)),
            forall|j: int| 0 <= j < orig.len() ==> plain_upstream(#[trigger] orig[j]),
            forall|j: int| 0 <= j < r@.len() ==> plain_upstream(#[trigger] r@[j]),
        decreases v@.len(),
    {
        let x = v.remove(0);
        assert(x == orig[i as int]);
        let ghost rv = up_views(r@);
        let mut k: usize = 0;
        while k < r.len() && !up_less(&x, &r[k])
            invariant
                k <= r@.len(),
                rv == up_views(r@),
                forall|j: int| 0 <= j < k ==> !up_lt(up_view(x), #[trigger] rv[j]),
            decreases r@.len() - k,
        {
            k = k + 1;
        }
        proof {
            lemma_up_insert_at(rv, up_view(x), k as int);
            assert(vv.take(i + 1).drop_last() =~= vv.take(i as int));
            assert(vv.take(i + 1).last() == up_view(x));
        }
        let ghost rold = r@;
        r.insert(k, x);
        assert(up_views(r@) =~= rv.insert(k as int, up_view(x)));
        assert forall|j: int| 0 <= j < r@.len() implies plain_upstream(#[trigger] r@[j]) by {
            if j < k {
                assert(r@[j] == rold[j]);
            } else if j > k {
                assert(r@[j] == rold[j - 1]);
            }
        }
        i = i + 1;
        assert(v@ =~= orig.subrange(i as int, orig.len() as int));
    }
    assert(vv.take(i as int) =~= vv);
    r
}

impl CandidateBinding {
    pub fn duplicate(&self) -> (r: Self)
        ensures
            r.provider_node_id@ == self.provider_node_id@,
            r.upstream_model@ == self.upstream_model@,
            r.priority == self.priority,
            r.weight == self.weight,
    {
        CandidateBinding {
            provider_node_id: self.provider_node_id.clone(),
            upstream_model: self.upstream_model.clone(),
            priority: self.priority,
            weight: self.weight,
        }
    }
}

impl PublicModelRoute {
    pub fn duplicate(&self) -> (r: Self)
        ensures
            route_spec(r) == route_spec(*self),
    {
        let mut candidates: Vec<CandidateBinding> = Vec::new();
        let mut i: usize = 0;
        while i < self.candidates.len()
            invariant
                i <= self.candidates@.len(),
                candidates@.len() == i,
                forall|k: int| 0 <= k < i ==> (#[trigger] candidates@[k]).provider_node_id@ == self.candidates@[k].provider_node_id@
                    && candidates@[k].upstream_model@ == self.candidates@[k].upstream_model@
                    && candidates@[k].priority == self.candidates@[k].priority
                    && candidates@[k].weight == self.candidates@[k].weight,
            decreases self.candidates.len() - i,
        {
            candidates.push(self.candidates[i].duplicate());
            i = i + 1;
        }
        let r = PublicModelRoute { public_model: self.public_model.clone(), candidates };
        assert(route_spec(r).candidates =~= route_spec(*self).candidates);
        r
    }
}

pub open spec fn route_spec_views(v: Seq<PublicModelRoute>) -> Seq<RouteSpec> {
    v.map_values(|r: PublicModelRoute| route_spec(r))
}

fn implicit_routes_exec(ns: &Vec<Node>) -> (r: Vec<PublicModelRoute>)
    ensures
        route_spec_views(r@) == implicit_routes(ns@, ns@.len() as int),
{
    let mut r: Vec<PublicModelRoute> = Vec::new();
    let mut i: usize = 0;
    while i < ns.len()
        invariant
            i <= ns@.len(),
            route_spec_views(r@) == implicit_routes(ns@, i as int),
        decreases ns.len() - i,
    {
        let node = &ns[i];
        if node.kind == NodeKind::Provider && node.enabled {
            match &node.config {
                NodeConfig::Provider(c) => {
                    let ghost base = route_spec_views(r@);
                    let mut j: usize = 0;
                    while j < c.selected_models.len()
                        invariant
                            j <= c.selected_models@.len(),
                            route_spec_views(r@) == base + model_routes(node.id@, c.selected_models@.take(j as int)),
                        decreases c.selected_models.len() - j,
                    {
                        let m = &c.selected_models[j];
                        let mut candidates: Vec<CandidateBinding> = Vec::new();
                        candidates.push(CandidateBinding { provider_node_id: node.id.clone(), upstream_model: m.clone(), priority: 0, weight: 1 });
                        let route = PublicModelRoute { public_model: m.clone(), candidates };
                        assert(route_spec(route).candidates =~= seq![(node.id@, m@, 0u32, 1u16)]);
                        let ghost before = route_spec_views(r@);
                        r.push(route);
                        assert(route_spec_views(r@) =~= before.push(route_spec(route)));
                        assert(c.selected_models@.take(j + 1) =~= c.selected_models@.take(j as int).push(*m));
                        assert(model_routes(node.id@, c.selected_models@.take(j + 1)) =~= model_routes(node.id@, c.selected_models@.take(j as int)).push(route_spec(route)));
                        j = j + 1;
                    }
                    assert(c.selected_models@.take(c.selected_models@.len() as int) =~= c.selected_models@);
                },
                _ => {},
            }
        }
        i = i + 1;
    }
    r
}

/// The composer's settings, with its routes copied.
fn settings_exec(ns: &Vec<Node>) -> (r: (SelectionStrategy, u64, u32, Vec<StandardError>, u64, Vec<PublicModelRoute>))
    ensures
        r.0 == settings_of(ns@).strategy,
        r.1 == settings_of(ns@).timeout_ms,
        r.2 == settings_of(ns@).max_retries,
        r.3@ == settings_of(ns@).failover_on,
        r.4 == settings_of(ns@).latency_hysteresis_ms,
        route_spec_views(r.5@) == settings_of(ns@).routes.map_values(|x: PublicModelRoute| route_spec(x)),
{
    match find_composer(ns) {
        Some(k) => match &ns[k].config {
            NodeConfig::Composer(c) => {
                let mut failover: Vec<StandardError> = Vec::new();
                let mut i: usize = 0;
                while i < c.failover_on.len()
                    invariant
                        i <= c.failover_on@.len(),
                        failover@ == c.failover_on@.take(i as int),
                    decreases c.failover_on.len() - i,
                {
                    failover.push(c.failover_on[i]);
                    assert(c.failover_on@.take(i + 1) =~= c.failover_on@.take(i as int).push(c.failover_on@[i as int]));
                    i = i + 1;
                }
                assert(c.failover_on@.take(c.failover_on@.len() as int) =~= c.failover_on@);
                let mut routes: Vec<PublicModelRoute> = Vec::new();
                let mut j: usize = 0;
                while j < c.routes.len()
                    invariant
                        j <= c.routes@.len(),
                        route_spec_views(routes@) == c.routes@.take(j as int).map_values(|x: PublicModelRoute| route_spec(x)),
                    decreases c.routes.len() - j,
                {
                    let ghost before = route_spec_views(routes@);
                    routes.push(c.routes[j].duplicate());
                    assert(route_spec_views(routes@) =~= before.push(route_spec(c.routes@[j as int])));
                    assert(c.routes@.take(j + 1).map_values(|x: PublicModelRoute| route_spec(x)) =~= c.routes@.take(j as int).map_values(|x: PublicModelRoute| route_spec(x)).push(route_spec(c.routes@[j as int])));
                    j = j + 1;
                }
                assert(c.routes@.take(c.routes@.len() as int) =~= c.routes@);
                (c.strategy, c.timeout_ms, c.max_retries, failover, c.latency_hysteresis_ms, routes)
            },
            _ => default_settings_exec(),
        },
        None => default_settings_exec(),
    }
}

fn default_settings_exec() -> (r: (SelectionStrategy, u64, u32, Vec<StandardError>, u64, Vec<PublicModelRoute>))
    ensures
        r.0 == default_settings().strategy,
        r.1 == default_settings().timeout_ms,
        r.2 == default_settings().max_retries,
        r.3@ == default_settings().failover_on,
        r.4 == default_settings().latency_hysteresis_ms,
        route_spec_views(r.5@) == default_settings().routes.map_values(|x: PublicModelRoute| route_spec(x)),
{
    let mut failover: Vec<StandardError> = Vec::new();
    failover.push(StandardError::ProviderTimeout);
    failover.push(StandardError::NetworkUnreachable);
    failover.push(StandardError::RateLimited);
    assert(failover@ =~= default_failover());
    let routes: Vec<PublicModelRoute> = Vec::new();
    assert(route_spec_views(routes@) =~= default_settings().routes.map_values(|x: PublicModelRoute| route_spec(x)));
    (SelectionStrategy::PriorityFailover, 30_000, 2, failover, 25, routes)
}

fn find_bound(bound: &Vec<(String, String, String)>, id: &String) -> (r: Option<usize>)
    ensures
        match r {
            Some(k) => k < bound@.len() && bound_at(triple_views(bound@), id@, bound@.len() as int) == Some(
                triple_views(bound@)[k as int],
            ),
            None => bound_at(triple_views(bound@), id@, bound@.len() as int) is None,
        },
{
    let ghost tv = triple_views(bound@);
    let mut i: usize = bound.len();
    while i > 0
        invariant
            i <= bound@.len(),
            tv == triple_views(bound@),
            bound_at(tv, id@, bound@.len() as int) == bound_at(tv, id@, i as int),
        decreases i,
    {
        if bound[i - 1].0 == *id {
            return Some(i - 1);
        }
        i = i - 1;
    }
    None
}

/// Appends copies of `more` to `errors`.
fn append_issues(errors: &mut Vec<CompilationIssue>, more: &Vec<CompilationIssue>)
    ensures
        cissue_views(final(errors)@) == cissue_views(old(errors)@) + cissue_views(more@),
{
    let ghost start = cissue_views(errors@);
    let ghost mv = cissue_views(more@);
    let mut j: usize = 0;
    while j < more.len()
        invariant
            j <= more@.len(),
            mv == cissue_views(more@),
            cissue_views(errors@) == start + mv.take(j as int),
        decreases more.len() - j,
    {
        let ghost before = cissue_views(errors@);
        errors.push(more[j].clone_issue());
        assert(cissue_views(errors@) =~= before.push(more@[j as int]@));
        assert(mv.take(j + 1) =~= mv.take(j as int).push(mv[j as int]));
        j = j + 1;
    }
    assert(mv.take(more@.len() as int) =~= mv);
}

#[verifier::rlimit(40)]
fn route_candidates_exec(bound: &Vec<(String, String, String)>, pm: &String, cs: &Vec<CandidateBinding>) -> (r: (
    Vec<CompilationIssue>,
    Vec<UpstreamRoute>,
    Vec<CompiledCandidate>,
))
    ensures
        ({
            let c = route_candidates(triple_views(bound@), pm@, cand_tuples(cs@), cs@.len() as int);
            cissue_views(r.0@) == c.0 && up_views(r.1@) == c.1 && candidate_views(r.2@) == c.2
        }),
        forall|j: int| 0 <= j < r.1@.len() ==> plain_upstream(#[trigger] r.1@[j]),
{
    let ghost tv = triple_views(bound@);
    let ghost ct = cand_tuples(cs@);
    let mut errs: Vec<CompilationIssue> = Vec::new();
    let mut ups: Vec<UpstreamRoute> = Vec::new();
    let mut cands: Vec<CompiledCandidate> = Vec::new();
    let mut i: usize = 0;
    assert(cissue_views(errs@) =~= seq![]);
    assert(up_views(ups@) =~= seq![]);
    assert(candidate_views(cands@) =~= seq![]);
    while i < cs.len()
        invariant
            i <= cs@.len(),
            tv == triple_views(bound@),
            ct == cand_tuples(cs@),
            ({
                let c = route_candidates(tv, pm@, ct, i as int);
                cissue_views(errs@) == c.0 && up_views(ups@) == c.1 && candidate_views(cands@) == c.2
            }),
            forall|j: int| 0 <= j < ups@.len() ==> plain_upstream(#[trigger] ups@[j]),
        decreases cs.len() - i,
    {
        let c = &cs[i];
        let ghost e0 = cissue_views(errs@);
        let ghost u0 = up_views(ups@);
        let ghost c0 = candidate_views(cands@);
        let ghost old_ups = ups@;
        assert(ct[i as int] == (c.provider_node_id@, c.upstream_model@, c.priority, c.weight));
        if !(1 <= c.weight && c.weight <= 100) {
            errs.push(CompilationIssue::error("WEIGHT_OUT_OF_RANGE", "候选权重必须在 1 到 100 之间。", Some(c.provider_node_id.as_str())));
            assert(cissue_views(errs@) =~= e0.push(errs@[e0.len() as int]@));
        } else {
            match find_bound(bound, &c.provider_node_id) {
                None => {
                    let m = message3("公开模型 ", pm.as_str(), " 引用了无效 Provider 节点。");
                    errs.push(CompilationIssue::error("CANDIDATE_PROVIDER_NOT_FOUND", m.as_str(), Some(c.provider_node_id.as_str())));
                    assert(cissue_views(errs@) =~= e0.push(errs@[e0.len() as int]@));
                },
                Some(k) => {
                    let b = &bound[k];
                    let um = if text::is_blank_str(c.upstream_model.as_str()) {
                        pm.clone()
                    } else {
                        c.upstream_model.clone()
                    };
                    let id = message3(c.provider_node_id.as_str(), ":", pm.as_str());
                    let up = UpstreamRoute {
                        id,
                        provider_instance: b.2.clone(),
                        upstream_model: um.clone(),
                        priority: c.priority,
                        enabled: true,
                        conditions: Vec::new(),
                    };
                    ups.push(up);
                    assert(up_views(ups@) =~= u0.push(up_view(ups@[u0.len() as int])));
                    assert forall|j: int| 0 <= j < ups@.len() implies plain_upstream(#[trigger] ups@[j]) by {
                        if j < old_ups.len() {
                            assert(ups@[j] == old_ups[j]);
                        }
                    }
                    let cand = CompiledCandidate {
                        provider_node_id: c.provider_node_id.clone(),
                        asset_id: b.1.clone(),
                        public_model: pm.clone(),
                        upstream_model: um,
                        priority: c.priority,
                        weight: c.weight,
                    };
                    cands.push(cand);
                    assert(candidate_views(cands@) =~= c0.push(candidate_view(cands@[c0.len() as int])));
                },
            }
        }
        i = i + 1;
    }
    (errs, ups, cands)
}

fn make_policy(
    graph_id: &String,
    strategy: SelectionStrategy,
    timeout_ms: u64,
    max_retries: u32,
    failover_on: &Vec<StandardError>,
    latency_hysteresis_ms: u64,
) -> (p: RoutePolicy)
    ensures
        p.schema_version == SCHEMA_VERSION,
        p.id@ == graph_id@ + "-route-policy"@,
        p.timeout_ms == timeout_ms,
        p.max_retries == max_retries,
        p.failover_on@ == failover_on@,
        p.selection_strategy == strategy,
        p.latency_hysteresis_ms == latency_hysteresis_ms,
{
    let mut id = graph_id.clone();
    text::push_str(&mut id, "-route-policy");
    let mut f: Vec<StandardError> = Vec::new();
    let mut i: usize = 0;
    while i < failover_on.len()
        invariant
            i <= failover_on@.len(),
            f@ == failover_on@.take(i as int),
        decreases failover_on.len() - i,
    {
        f.push(failover_on[i]);
        assert(failover_on@.take(i + 1) =~= failover_on@.take(i as int).push(failover_on@[i as int]));
        i = i + 1;
    }
    assert(failover_on@.take(failover_on@.len() as int) =~= failover_on@);
    RoutePolicy {
        schema_version: SCHEMA_VERSION,
        id,
        timeout_ms,
        max_retries,
        failover_on: f,
        selection_strategy: strategy,
        latency_hysteresis_ms,
    }
}

proof fn lemma_routes_push(rs: Seq<ModelRoute>, m: ModelRoute, out: Seq<RouteOut>, o: RouteOut, graph_id: Seq<char>, s: Settings)
    requires
        routes_are(rs, out, graph_id, s),
        m.public_model@ == o.public_model,
        up_views(m.upstreams@) == o.upstreams,
        forall|j: int| 0 <= j < m.upstreams@.len() ==> plain_upstream(#[trigger] m.upstreams@[j]),
        route_policy_is(m.policy, graph_id, s),
    ensures
        routes_are(rs.push(m), out.push(o), graph_id, s),
{
    let rs2 = rs.push(m);
    let out2 = out.push(o);
    assert forall|i: int| 0 <= i < rs2.len() implies {
        &&& #[trigger] rs2[i].public_model@ == out2[i].public_model
        &&& up_views(rs2[i].upstreams@) == out2[i].upstreams
        &&& forall|j: int| 0 <= j < rs2[i].upstreams@.len() ==> plain_upstream(#[trigger] rs2[i].upstreams@[j])
        &&& route_policy_is(rs2[i].policy, graph_id, s)
    } by {
        if i < rs.len() {
            assert(rs2[i] == rs[i]);
            assert(out2[i] == out[i]);
        }
    }
}

/// Compiles the routes of the specification in order.
#[verifier::rlimit(60)]
fn compile_routes(
    specs: &Vec<PublicModelRoute>,
    composer: Option<&str>,
    bound: &Vec<(String, String, String)>,
    graph_id: &String,
    strategy: SelectionStrategy,
    timeout_ms: u64,
    max_retries: u32,
    failover_on: &Vec<StandardError>,
    latency_hysteresis_ms: u64,
    Ghost(s): Ghost<Settings>,
    errors: &mut Vec<CompilationIssue>,
) -> (r: (Vec<ModelRoute>, Vec<CompiledCandidate>))
    requires
        s.strategy == strategy,
        s.timeout_ms == timeout_ms,
        s.max_retries == max_retries,
        s.failover_on == failover_on@,
        s.latency_hysteresis_ms == latency_hysteresis_ms,
    ensures
        ({
            let cv = match composer {
                Some(c) => Some(c@),
                None => None,
            };
            let st = routes_all(route_spec_views(specs@), cv, triple_views(bound@), specs@.len() as int);
            &&& cissue_views(final(errors)@) == cissue_views(old(errors)@) + st.errors
            &&& routes_are(r.0@, st.routes, graph_id@, s)
            &&& candidate_views(r.1@) == st.candidates
        }),
{
    let ghost cv = match composer {
        Some(c) => Some(c@),
        None => None,
    };
    let ghost rsv = route_spec_views(specs@);
    let ghost tv = triple_views(bound@);
    let ghost start = cissue_views(errors@);
    let mut names: Vec<String> = Vec::new();
    let mut routes: Vec<ModelRoute> = Vec::new();
    let mut cands: Vec<CompiledCandidate> = Vec::new();
    let mut i: usize = 0;
    assert(str_views(names@) =~= seq![]);
    assert(candidate_views(cands@) =~= seq![]);
    while i < specs.len()
        invariant
            i <= specs@.len(),
            rsv == route_spec_views(specs@),
            tv == triple_views(bound@),
            cv == (match composer {
                Some(c) => Some(c@),
                None => None::<Seq<char>>,
            }),
            s.strategy == strategy,
            s.timeout_ms == timeout_ms,
            s.max_retries == max_retries,
            s.failover_on == failover_on@,
            s.latency_hysteresis_ms == latency_hysteresis_ms,
            ({
                let st = routes_all(rsv, cv, tv, i as int);
                &&& str_views(names@) == st.names
                &&& cissue_views(errors@) == start + st.errors
                &&& routes_are(routes@, st.routes, graph_id@, s)
                &&& candidate_views(cands@) == st.candidates
            }),
        decreases specs.len() - i,
    {
        let route = &specs[i];
        let pm = &route.public_model;
        let ghost st0 = routes_all(rsv, cv, tv, i as int);
        let ghost e0 = cissue_views(errors@);
        let ghost n0 = str_views(names@);
        assert(rsv[i as int] == route_spec(*route));
        let blank = text::is_blank_str(pm.as_str());
        let dup = contains_str(&names, pm);
        if blank || dup {
            errors.push(CompilationIssue::error("INVALID_PUBLIC_MODEL", "公开模型名不能为空且必须唯一。", composer));
            assert(cissue_views(errors@) =~= e0.push(errors@[e0.len() as int]@));
        } else if route.candidates.len() == 0 {
            names.push(pm.clone());
            assert(str_views(names@) =~= n0.push(pm@));
            let m = message3("公开模型 ", pm.as_str(), " 没有候选上游。");
            errors.push(CompilationIssue::error("ROUTE_WITHOUT_CANDIDATE", m.as_str(), composer));
            assert(cissue_views(errors@) =~= e0.push(errors@[e0.len() as int]@));
        } else {
            names.push(pm.clone());
            assert(str_views(names@) =~= n0.push(pm@));
            let (errs, ups, more) = route_candidates_exec(bound, pm, &route.candidates);
            append_issues(errors, &errs);
            let ghost uv = up_views(ups@);
            let ghost cr = route_candidates(tv, pm@, cand_tuples(route.candidates@), route.candidates@.len() as int);
            assert(uv == cr.1);
            let sorted = sort_upstreams(ups);
            let policy = make_policy(graph_id, strategy, timeout_ms, max_retries, failover_on, latency_hysteresis_ms);
            let ghost old_routes = routes@;
            let mr = ModelRoute { public_model: pm.clone(), policy, upstreams: sorted };
            let ghost mrg = mr;
            routes.push(mr);
            let ghost st1 = routes_all(rsv, cv, tv, i + 1);
            assert(st1 == route_step(st0, rsv[i as int], cv, tv));
            assert(!is_blank(pm@) && !st0.names.contains(pm@));
            assert(st1.routes == st0.routes.push(RouteOut { public_model: pm@, upstreams: up_sort(cr.1) }));
            assert(st1.errors == st0.errors + cr.0);
            assert(st1.candidates == st0.candidates + cr.2);
            proof {
                lemma_routes_push(old_routes, mrg, st0.routes, RouteOut { public_model: pm@, upstreams: up_sort(cr.1) }, graph_id@, s);
            }
            let ghost c0 = candidate_views(cands@);
            let ghost mv = candidate_views(more@);
            let mut j: usize = 0;
            while j < more.len()
                invariant
                    j <= more@.len(),
                    mv == candidate_views(more@),
                    candidate_views(cands@) == c0 + mv.take(j as int),
                decreases more.len() - j,
            {
                let ghost before = candidate_views(cands@);
                let c = &more[j];
                cands.push(CompiledCandidate {
                    provider_node_id: c.provider_node_id.clone(),
                    asset_id: c.asset_id.clone(),
                    public_model: c.public_model.clone(),
                    upstream_model: c.upstream_model.clone(),
                    priority: c.priority,
                    weight: c.weight,
                });
                assert(candidate_views(cands@) =~= before.push(mv[j as int]));
                assert(mv.take(j + 1) =~= mv.take(j as int).push(mv[j as int]));
                j = j + 1;
            }
            assert(mv.take(more@.len() as int) =~= mv);
        }
        i = i + 1;
    }
    (routes, cands)
}

fn copy_strings(v: &Vec<String>) -> (r: Vec<String>)
    ensures
        str_views(r@) == str_views(v@),
{
    let mut r: Vec<String> = Vec::new();
    let mut i: usize = 0;
    while i < v.len()
        invariant
            i <= v@.len(),
            str_views(r@) == str_views(v@).take(i as int),
        decreases v.len() - i,
    {
        let ghost before = str_views(r@);
        r.push(v[i].clone());
        assert(str_views(r@) =~= before.push(v@[i as int]@));
        assert(str_views(v@).take(i + 1) =~= str_views(v@).take(i as int).push(v@[i as int]@));
        i = i + 1;
    }
    assert(str_views(v@).take(v@.len() as int) =~= str_views(v@));
    r
}

fn copy_bytes(v: &Vec<u8>) -> (r: Vec<u8>)
    ensures
        r@ == v@,
{
    let mut r: Vec<u8> = Vec::new();
    let mut i: usize = 0;
    while i < v.len()
        invariant
            i <= v@.len(),
            r@ == v@.take(i as int),
        decreases v.len() - i,
    {
        r.push(v[i]);
        assert(v@.take(i + 1) =~= v@.take(i as int).push(v@[i as int]));
        i = i + 1;
    }
    assert(v@.take(v@.len() as int) =~= v@);
    r
}

impl MiddlewareConfig {
    pub fn duplicate(&self) -> (r: Self)
        ensures
            mw_view(r) == mw_view(*self),
    {
        let middleware = match &self.middleware {
            MiddlewareKind::RequestDefaults { temperature, top_p, max_output_tokens } => MiddlewareKind::RequestDefaults {
                temperature: *temperature,
                top_p: *top_p,
                max_output_tokens: *max_output_tokens,
            },
            MiddlewareKind::ModelPolicy { allowed_models, max_output_tokens } => MiddlewareKind::ModelPolicy {
                allowed_models: copy_strings(allowed_models),
                max_output_tokens: *max_output_tokens,
            },
            MiddlewareKind::RateLimit { requests_per_minute, max_concurrent } => MiddlewareKind::RateLimit {
                requests_per_minute: *requests_per_minute,
                max_concurrent: *max_concurrent,
            },
            MiddlewareKind::BudgetMonitor { warning_thresholds } => MiddlewareKind::BudgetMonitor {
                warning_thresholds: copy_bytes(warning_thresholds),
            },
        };
        MiddlewareConfig { middleware }
    }
}

/// The configurations of the middleware nodes in the given order.
fn middleware_configs(ns: &Vec<Node>, order: &Vec<String>) -> (r: Vec<MiddlewareConfig>)
    ensures
        mw_views(r@) == middleware_list(ns@, str_views(order@), order@.len() as int),
{
    let ghost ids = str_views(order@);
    let mut r: Vec<MiddlewareConfig> = Vec::new();
    let mut i: usize = 0;
    assert(mw_views(r@) =~= seq![]);
    while i < order.len()
        invariant
            i <= order@.len(),
            ids == str_views(order@),
            mw_views(r@) == middleware_list(ns@, ids, i as int),
        decreases order.len() - i,
    {
        let ghost before = mw_views(r@);
        assert(ids[i as int] == order@[i as int]@);
        match crate::canvas::find_first_node(ns, &order[i]) {
            Some(k) => match &ns[k].config {
                NodeConfig::Middleware(m) => {
                    r.push(m.duplicate());
                    assert(mw_views(r@) =~= before.push(mw_view(*m)));
                },
                _ => {},
            },
            None => {},
        }
        i = i + 1;
    }
    r
}

pub open spec fn connection_part(ns: Seq<Node>, es: Seq<Edge>) -> Seq<CIssueView> {
    match composer_id_of(ns) {
        Some(c) => connection_issues(ns, es, c, ns.len() as int),
        None => seq![],
    }
}

/// The checks before the routes: node counts, connections to the composer
/// and provider bindings.
fn check_nodes(ns: &Vec<Node>, es: &Vec<Edge>, wallet: &ApiWallet, runtime: &RuntimeConfig) -> (r: (
    Vec<CompilationIssue>,
    Vec<String>,
    Vec<(String, String, String)>,
    Option<usize>,
))
    ensures
        cissue_views(r.0@) == count_issues(ns@) + connection_part(ns@, es@) + bind_all(ns@, *wallet, *runtime, ns@.len() as int).errors,
        str_views(r.1@) == bind_all(ns@, *wallet, *runtime, ns@.len() as int).missing,
        triple_views(r.2@) == bind_all(ns@, *wallet, *runtime, ns@.len() as int).bound,
        match r.3 {
            Some(k) => first_composer(ns@) == Some(k as int) && k < ns@.len(),
            None => first_composer(ns@) is None,
        },
{
    let mut errors: Vec<CompilationIssue> = Vec::new();
    assert(cissue_views(errors@) =~= seq![]);
    let composers = count_kind_exec(ns, NodeKind::Composer);
    push_error(&mut errors, composers != 1, "COMPOSER_COUNT", "每个编组方案必须且只能包含一个 Composer。", None);
    let publishers = count_kind_exec(ns, NodeKind::Publisher);
    push_error(&mut errors, publishers != 1, "PUBLISHER_COUNT", "每个编组方案必须且只能包含一个 Publisher。", None);
    let active = count_active_exec(ns);
    push_error(&mut errors, active == 0, "NO_PROVIDER", "Composer 至少需要一个启用的钱包 Provider。", None);
    assert(cissue_views(errors@) =~= count_issues(ns@));
    let composer_index = find_composer(ns);
    match composer_index {
        Some(k) => {
            connection_check(ns, es, &ns[k].id, &mut errors);
        },
        None => {
            assert(cissue_views(errors@) =~= count_issues(ns@) + connection_part(ns@, es@));
        },
    }
    let (missing, bound) = bind_providers(ns, wallet, runtime, &mut errors);
    (errors, missing, bound, composer_index)
}

/// The checks after the routes: unreachable nodes, the service-plan chain
/// and the probes.
fn check_reach(ns: &Vec<Node>, es: &Vec<Edge>, errors: &mut Vec<CompilationIssue>) -> (r: (Vec<String>, Vec<ProbeConfig>))
    ensures
        cissue_views(final(errors)@) == cissue_views(old(errors)@) + unreachable_issues(unreachable_nodes(ns@, es@))
            + chain_issues(ns@, es@, ns@.len() as int) + probes_of(ns@, ns@.len() as int).0,
        str_views(r.0@) == unreachable_nodes(ns@, es@),
        probe_views(r.1@) == probes_of(ns@, ns@.len() as int).1,
{
    let unreachable = enabled_unreachable_nodes(ns, es);
    let ghost ui = unreachable_issues(str_views(unreachable@));
    let ghost e5 = cissue_views(errors@);
    let mut u: usize = 0;
    while u < unreachable.len()
        invariant
            u <= unreachable@.len(),
            ui == unreachable_issues(str_views(unreachable@)),
            cissue_views(errors@) == e5 + ui.take(u as int),
        decreases unreachable.len() - u,
    {
        let ghost before = cissue_views(errors@);
        errors.push(CompilationIssue::error("UNREACHABLE_NODE", "启用节点无法到达 Publisher。", Some(unreachable[u].as_str())));
        assert(cissue_views(errors@) =~= before.push(ui[u as int]));
        assert(ui.take(u + 1) =~= ui.take(u as int).push(ui[u as int]));
        u = u + 1;
    }
    assert(ui.take(unreachable@.len() as int) =~= ui);
    validate_service_plan_chain(ns, es, errors);
    let probes = validate_probes(ns, errors);
    (unreachable, probes)
}

fn route_names(routes: &Vec<ModelRoute>) -> (r: Vec<String>)
    ensures
        str_views(r@) == routes@.map_values(|m: ModelRoute| m.public_model@),
{
    let mut names: Vec<String> = Vec::new();
    let mut p: usize = 0;
    while p < routes.len()
        invariant
            p <= routes@.len(),
            str_views(names@) == routes@.take(p as int).map_values(|m: ModelRoute| m.public_model@),
        decreases routes.len() - p,
    {
        names.push(routes[p].public_model.clone());
        assert(routes@.take(p + 1).map_values(|m: ModelRoute| m.public_model@) =~= routes@.take(p as int).map_values(
            |m: ModelRoute| m.public_model@,
        ).push(routes@[p as int].public_model@));
        assert(str_views(names@) =~= routes@.take(p + 1).map_values(|m: ModelRoute| m.public_model@));
        p = p + 1;
    }
    assert(routes@.take(routes@.len() as int) =~= routes@);
    names
}

proof fn lemma_compiled_is(c: CompiledCanvasGraph, g: WorkflowGraph, wallet: ApiWallet, runtime: RuntimeConfig)
    requires
        ({
            let ns = g.nodes@;
            let es = g.edges@;
            let b = bind_all(ns, wallet, runtime, ns.len() as int);
            let rs = route_specs(ns);
            let st = routes_all(rs, composer_id_of(ns), b.bound, rs.len() as int);
            let s = settings_of(ns);
            let errors = compile_errors(g, wallet, runtime);
            &&& routes_are(c.routes@, st.routes, g.id@, s)
            &&& probe_views(c.probes@) == probes_of(ns, ns.len() as int).1
            &&& c.report.valid == (errors.len() == 0)
            &&& str_views(c.report.public_models@) == st.routes.map_values(|r: RouteOut| r.public_model)
            &&& candidate_views(c.report.candidates@) == st.candidates
            &&& c.report.candidate_count == st.candidates.len()
            &&& c.report.selected_strategy == s.strategy
            &&& str_views(c.report.middleware_order@) == middleware_order_of(ns, es)
            &&& mw_views(c.middleware@) == middleware_list(ns, middleware_order_of(ns, es), middleware_order_of(ns, es).len() as int)
            &&& str_views(c.report.unreachable_nodes@) == unreachable_nodes(ns, es)
            &&& str_views(c.report.missing_secrets@) == b.missing
            &&& !c.report.stale_runtime
            &&& !c.report.requires_confirmation
            &&& c.report.warnings@.len() == 0
            &&& cissue_views(c.report.errors@) == errors
        }),
    ensures
        compiled_is(c, g, wallet, runtime),
{
    reveal(compiled_is);
}

/// Compiles a canvas graph against the wallet and the runtime configuration.
/// A graph that does not validate is refused with the validation error;
/// otherwise every check runs and the report lists each finding: node
/// counts, unconnected providers, provider bindings, routes and their
/// candidates, unreachable nodes, the service-plan chain and the probes.
pub fn compile_canvas_graph(graph: &WorkflowGraph, wallet: &ApiWallet, runtime: &RuntimeConfig) -> (r: Result<CompiledCanvasGraph, CoreError>)
    ensures
        match r {
            Ok(c) => graph_issues(*graph).len() == 0 && compiled_is(c, *graph, *wallet, *runtime),
            Err(e) => graph_issues(*graph).len() > 0 && e.code == ErrorCode::GraphInvalid && e.message@ == "编组图校验失败"@
                && e@.issues == graph_issues(*graph),
        },
{
    match graph.validate() {
        Err(e) => Err(e),
        Ok(_) => Ok(compile_checked(graph, wallet, runtime)),
    }
}

/// The compilation of a graph, whether or not it validates.
#[verifier::rlimit(40)]
fn compile_checked(graph: &WorkflowGraph, wallet: &ApiWallet, runtime: &RuntimeConfig) -> (c: CompiledCanvasGraph)
    ensures
        compiled_is(c, *graph, *wallet, *runtime),
{
    let ns = &graph.nodes;
    let es = &graph.edges;
    let ghost nv = ns@;
    let ghost ev = es@;
    let (mut errors, missing, bound, composer_index) = check_nodes(ns, es, wallet, runtime);
    let composer: Option<&str> = match composer_index {
        Some(k) => Some(ns[k].id.as_str()),
        None => None,
    };
    let ghost cv: Option<Seq<char>> = match composer {
        Some(c) => Some(c@),
        None => None,
    };
    assert(cv == composer_id_of(nv));
    let (strategy, timeout_ms, max_retries, failover_on, latency_hysteresis_ms, routes_spec) = settings_exec(ns);
    let specs = if routes_spec.len() == 0 {
        implicit_routes_exec(ns)
    } else {
        routes_spec
    };
    assert(route_spec_views(specs@) == route_specs(nv));
    let (routes, candidates) = compile_routes(
        &specs,
        composer,
        &bound,
        &graph.id,
        strategy,
        timeout_ms,
        max_retries,
        &failover_on,
        latency_hysteresis_ms,
        Ghost(settings_of(nv)),
        &mut errors,
    );
    let (unreachable, probes) = check_reach(ns, es, &mut errors);
    let order = middleware_order(ns, es);
    let middleware = middleware_configs(ns, &order);
    let public_models = route_names(&routes);
    let ghost b = bind_all(nv, *wallet, *runtime, nv.len() as int);
    let ghost st = routes_all(route_specs(nv), composer_id_of(nv), b.bound, route_specs(nv).len() as int);
    assert(str_views(public_models@) =~= st.routes.map_values(|r: RouteOut| r.public_model)) by {
        assert forall|k: int| 0 <= k < routes@.len() implies #[trigger] routes@[k].public_model@ == st.routes[k].public_model by {}
    }
    let ghost errs = cissue_views(errors@);
    assert(errs == compile_errors(*graph, *wallet, *runtime)) by {
        reveal(compile_errors);
    }
    let candidate_count = candidates.len();
    let valid = errors.len() == 0;
    let report = CanvasCompilationReport {
        valid,
        public_models,
        candidates,
        candidate_count,
        selected_strategy: strategy,
        middleware_order: order,
        unreachable_nodes: unreachable,
        missing_secrets: missing,
        stale_runtime: false,
        requires_confirmation: false,
        warnings: Vec::new(),
        errors,
    };
    let c = CompiledCanvasGraph { routes, middleware, probes, report };
    assert(compiled_is(c, *graph, *wallet, *runtime)) by {
        let s0 = settings_of(nv);
        assert(routes_are(c.routes@, st.routes, graph.id@, s0));
        assert(probe_views(c.probes@) == probes_of(nv, nv.len() as int).1);
        assert(c.report.valid == (errs.len() == 0));
        assert(candidate_views(c.report.candidates@) == st.candidates);
        assert(c.report.candidate_count == st.candidates.len());
        assert(c.report.selected_strategy == s0.strategy);
        assert(str_views(c.report.middleware_order@) == middleware_order_of(nv, ev));
        assert(mw_views(c.middleware@) == middleware_list(nv, middleware_order_of(nv, ev), middleware_order_of(nv, ev).len() as int));
        assert(str_views(c.report.unreachable_nodes@) == unreachable_nodes(nv, ev));
        assert(str_views(c.report.missing_secrets@) == b.missing);
        assert(c.report.warnings@.len() == 0);
        assert(cissue_views(c.report.errors@) == errs);
        lemma_compiled_is(c, *graph, *wallet, *runtime);
    }
    c
}

} // verus!
