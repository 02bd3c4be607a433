//! New nodes, the empty canvas and the deterministic canvas templates built
//! from wallet asset identities.
use crate::compile::{count_kind, default_failover, route_spec, route_spec_views, RouteSpec};
use crate::error::{CoreError, ErrorCode};
use crate::graph::{
    contract_inputs, contract_outputs, graph_issues, port_views, ports_for, CandidateBinding, ComposerConfig, Edge,
    Endpoint, GraphTemplateKind, GroupConfig, MiddlewareConfig, MiddlewareKind, Node, NodeConfig, NodeKind,
    ProbeConfig, ProviderConfig, PublicModelRoute, PublisherNodeConfig, WorkflowGraph, GRAPH_SCHEMA_VERSION,
};
use crate::routing::{SelectionStrategy, StandardError};
use crate::sort::str_views;
use crate::text::{self, decimal};
use vstd::prelude::*;

verus! {

/// A node with the given identity, enabled, with the fixed ports of its kind.
pub open spec fn node_is(n: Node, id: Seq<char>, name: Seq<char>, kind: NodeKind) -> bool {
    &&& n.id@ == id
    &&& n.name@ == name
    &&& n.kind == kind
    &&& n.enabled
    &&& port_views(n.inputs@) == contract_inputs(kind)
    &&& port_views(n.outputs@) == contract_outputs(kind)
}

/// The composer defaults: priority failover, 30 s timeout, two retries,
/// failover on timeouts, unreachable networks and rate limits, 25 ms
/// latency hysteresis, no degradation, no routes.
pub open spec fn composer_defaults(c: ComposerConfig, strategy: SelectionStrategy) -> bool {
    &&& c.strategy == strategy
    &&& c.timeout_ms == 30_000
    &&& c.max_retries == 2
    &&& c.failover_on@ == default_failover()
    &&& !c.allow_capability_degradation
    &&& c.latency_hysteresis_ms == 25
}

/// The probe defaults: every 300 s, 10 s timeout, three failures, two
/// recoveries, safe requests only.
pub open spec fn probe_defaults(c: ProbeConfig, provider: Seq<char>) -> bool {
    &&& c.provider_node_id@ == provider
    &&& c.interval_seconds == 300
    &&& c.timeout_ms == 10_000
    &&& c.failure_threshold == 3
    &&& c.recovery_threshold == 2
    &&& c.safe_only
}

/// The configuration a new node of a kind starts with.
pub open spec fn default_config_is(c: NodeConfig, kind: NodeKind) -> bool {
    match kind {
        NodeKind::Provider => c matches NodeConfig::Provider(p) && p.asset_id@.len() == 0 && str_views(
            p.selected_models@,
        ) == seq!["default"@],
        NodeKind::Composer => c matches NodeConfig::Composer(p) && composer_defaults(p, SelectionStrategy::PriorityFailover)
            && p.routes@.len() == 0,
        NodeKind::Middleware => c == NodeConfig::Middleware(
            MiddlewareConfig { middleware: MiddlewareKind::RequestDefaults { temperature: None, top_p: None, max_output_tokens: None } },
        ),
        NodeKind::Probe => c matches NodeConfig::Probe(p) && probe_defaults(p, seq![]),
        NodeKind::Publisher => c == NodeConfig::Publisher(PublisherNodeConfig { publisher_id: None }),
        NodeKind::Group => c matches NodeConfig::Group(g) && g.member_ids@.len() == 0 && !g.collapsed,
    }
}

fn default_composer_config(strategy: SelectionStrategy) -> (c: ComposerConfig)
    ensures
        composer_defaults(c, strategy),
        c.routes@.len() == 0,
{
    let mut failover_on: Vec<StandardError> = Vec::new();
    failover_on.push(StandardError::ProviderTimeout);
    failover_on.push(StandardError::NetworkUnreachable);
    failover_on.push(StandardError::RateLimited);
    assert(failover_on@ =~= default_failover());
    ComposerConfig {
        strategy,
        timeout_ms: 30_000,
        max_retries: 2,
        failover_on,
        allow_capability_degradation: false,
        latency_hysteresis_ms: 25,
        routes: Vec::new(),
    }
}

fn default_probe_config(provider: String) -> (c: ProbeConfig)
    ensures
        probe_defaults(c, provider@),
{
    ProbeConfig {
        provider_node_id: provider,
        interval_seconds: 300,
        timeout_ms: 10_000,
        failure_threshold: 3,
        recovery_threshold: 2,
        safe_only: true,
    }
}

fn default_config(kind: NodeKind) -> (c: NodeConfig)
    ensures
        default_config_is(c, kind),
{
    match kind {
        NodeKind::Provider => {
            let mut selected_models: Vec<String> = Vec::new();
            selected_models.push(text::owned("default"));
            assert(str_views(selected_models@) =~= seq!["default"@]);
            NodeConfig::Provider(ProviderConfig { asset_id: String::new(), selected_models })
        },
        NodeKind::Composer => NodeConfig::Composer(default_composer_config(SelectionStrategy::PriorityFailover)),
        NodeKind::Middleware => NodeConfig::Middleware(
            MiddlewareConfig { middleware: MiddlewareKind::RequestDefaults { temperature: None, top_p: None, max_output_tokens: None } },
        ),
        NodeKind::Probe => NodeConfig::Probe(default_probe_config(String::new())),
        NodeKind::Publisher => NodeConfig::Publisher(PublisherNodeConfig { publisher_id: None }),
        NodeKind::Group => NodeConfig::Group(GroupConfig { member_ids: Vec::new(), collapsed: false }),
    }
}

/// A new enabled node of a kind, with its fixed ports and default
/// configuration.
pub fn new_node(id: &str, name: &str, kind: NodeKind) -> (n: Node)
    ensures
        node_is(n, id@, name@, kind),
        default_config_is(n.config, kind),
{
    node_from(text::owned(id), text::owned(name), kind)
}

fn node_from(id: String, name: String, kind: NodeKind) -> (n: Node)
    ensures
        node_is(n, id@, name@, kind),
        default_config_is(n.config, kind),
{
    let (inputs, outputs) = ports_for(kind);
    Node { id, name, kind, enabled: true, inputs, outputs, config: default_config(kind) }
}

/// The plain content of an edge.
pub struct EdgeView {
    pub id: Seq<char>,
    pub from_node: Seq<char>,
    pub from_port: Seq<char>,
    pub to_node: Seq<char>,
    pub to_port: Seq<char>,
    pub enabled: bool,
    pub label: Option<Seq<char>>,
}

pub open spec fn edge_view(e: Edge) -> EdgeView {
    EdgeView {
        id: e.id@,
        from_node: e.from.node@,
        from_port: e.from.port@,
        to_node: e.to.node@,
        to_port: e.to.port@,
        enabled: e.enabled,
        label: match e.label {
            Some(l) => Some(l@),
            None => None,
        },
    }
}

pub open spec fn edge_views(v: Seq<Edge>) -> Seq<EdgeView> {
    v.map_values(|e: Edge| edge_view(e))
}

/// An enabled edge.
pub open spec fn link(
    id: Seq<char>,
    from_node: Seq<char>,
    from_port: Seq<char>,
    to_node: Seq<char>,
    to_port: Seq<char>,
    label: Option<Seq<char>>,
) -> EdgeView {
    EdgeView { id, from_node, from_port, to_node, to_port, enabled: true, label }
}

fn make_edge(id: String, from_node: String, from_port: &str, to_node: String, to_port: &str, label: Option<&str>) -> (e: Edge)
    ensures
        edge_view(e) == link(
            id@,
            from_node@,
            from_port@,
            to_node@,
            to_port@,
            match label {
                Some(l) => Some(l@),
                None => None,
            },
        ),
{
    Edge {
        id,
        from: Endpoint { node: from_node, port: text::owned(from_port) },
        to: Endpoint { node: to_node, port: text::owned(to_port) },
        enabled: true,
        label: match label {
            Some(l) => Some(text::owned(l)),
            None => None,
        },
    }
}

pub open spec fn output_link() -> EdgeView {
    link("composer-to-output"@, "composer"@, "service_plan_out"@, "total-output"@, "service_plan_in"@, None)
}

/// The empty canvas `id`: a composer wired to the total output.
pub open spec fn is_new_canvas_graph(g: WorkflowGraph, id: Seq<char>) -> bool {
    &&& g.schema_version == GRAPH_SCHEMA_VERSION
    &&& g.id@ == id
    &&& g.nodes@.len() == 2
    &&& node_is(g.nodes@[0], "composer"@, "Composer"@, NodeKind::Composer)
    &&& default_config_is(g.nodes@[0].config, NodeKind::Composer)
    &&& node_is(g.nodes@[1], "total-output"@, "本地总输出"@, NodeKind::Publisher)
    &&& default_config_is(g.nodes@[1].config, NodeKind::Publisher)
    &&& edge_views(g.edges@) == seq![output_link()]
}

/// The empty canvas: a composer wired to the total output.
pub fn new_canvas_graph(id: &str) -> (g: WorkflowGraph)
    ensures
        is_new_canvas_graph(g, id@),
{
    let mut nodes: Vec<Node> = Vec::new();
    nodes.push(new_node("composer", "Composer", NodeKind::Composer));
    nodes.push(new_node("total-output", "本地总输出", NodeKind::Publisher));
    let mut edges: Vec<Edge> = Vec::new();
    edges.push(
        make_edge(text::owned("composer-to-output"), text::owned("composer"), "service_plan_out", text::owned("total-output"), "service_plan_in", None),
    );
    assert(edge_views(edges@) =~= seq![output_link()]);
    WorkflowGraph { schema_version: GRAPH_SCHEMA_VERSION, id: text::owned(id), nodes, edges }
}

/// How many wallet assets a template binds.
pub open spec fn required_of(t: GraphTemplateKind) -> int {
    if t == GraphTemplateKind::SingleProvider {
        1
    } else {
        2
    }
}

/// Templates that watch each provider with a probe.
pub open spec fn has_probes(t: GraphTemplateKind) -> bool {
    t == GraphTemplateKind::FailoverWithProbe || t == GraphTemplateKind::GuardedFailover || t
        == GraphTemplateKind::LowestLatency
}

pub open spec fn probe_count(t: GraphTemplateKind) -> int {
    if has_probes(t) {
        required_of(t)
    } else {
        0
    }
}

pub open spec fn provider_id(i: int) -> Seq<char> {
    "provider-"@ + decimal((i + 1) as nat)
}

pub open spec fn probe_id(i: int) -> Seq<char> {
    "probe-"@ + decimal((i + 1) as nat)
}

/// The model a provider of the template offers.
pub open spec fn model_of(t: GraphTemplateKind, i: int) -> Seq<char> {
    if t == GraphTemplateKind::MultiModel {
        "model-"@ + decimal((i + 1) as nat)
    } else {
        "default"@
    }
}

pub open spec fn strategy_of(t: GraphTemplateKind) -> SelectionStrategy {
    match t {
        GraphTemplateKind::WeightedRoundRobin => SelectionStrategy::WeightedRoundRobin,
        GraphTemplateKind::LowestLatency => SelectionStrategy::LowestLatency,
        _ => SelectionStrategy::PriorityFailover,
    }
}

/// Weighted round robin weighs the first provider 70 and the second 30.
pub open spec fn weight_of(t: GraphTemplateKind, i: int) -> u16 {
    if t == GraphTemplateKind::WeightedRoundRobin {
        if i == 0 {
            70
        } else {
            30
        }
    } else {
        1
    }
}

pub open spec fn model_route(t: GraphTemplateKind, i: int) -> RouteSpec {
    RouteSpec { public_model: model_of(t, i), candidates: seq![(provider_id(i), model_of(t, i), 0u32, 1u16)] }
}

pub open spec fn default_candidate(t: GraphTemplateKind, i: int) -> (Seq<char>, Seq<char>, u32, u16) {
    (provider_id(i), "default"@, i as u32, weight_of(t, i))
}

/// The composer routes of a template: one route per model for the
/// multi-model template, otherwise one `default` route over every provider
/// in order of priority.
pub open spec fn template_routes(t: GraphTemplateKind) -> Seq<RouteSpec> {
    if t == GraphTemplateKind::MultiModel {
        Seq::new(required_of(t) as nat, |i: int| model_route(t, i))
    } else {
        seq![RouteSpec { public_model: "default"@, candidates: Seq::new(required_of(t) as nat, |i: int| default_candidate(t, i)) }]
    }
}

pub open spec fn provider_is(n: Node, i: int, asset: (String, String), t: GraphTemplateKind) -> bool {
    &&& node_is(n, provider_id(i), asset.1@, NodeKind::Provider)
    &&& n.config matches NodeConfig::Provider(c) && c.asset_id@ == asset.0@ && str_views(c.selected_models@) == seq![model_of(t, i)]
}

pub open spec fn composer_is(n: Node, t: GraphTemplateKind) -> bool {
    &&& node_is(n, "composer"@, "Composer"@, NodeKind::Composer)
    &&& n.config matches NodeConfig::Composer(c) && composer_defaults(c, strategy_of(t)) && route_spec_views(c.routes@)
        == template_routes(t)
}

pub open spec fn probe_is(n: Node, i: int, provider_name: Seq<char>) -> bool {
    &&& node_is(n, probe_id(i), provider_name + " 健康探测"@, NodeKind::Probe)
    &&& n.config matches NodeConfig::Probe(c) && probe_defaults(c, provider_id(i))
}

pub open spec fn rate_limit_is(n: Node) -> bool {
    &&& node_is(n, "middleware-rate-limit"@, "入口限流"@, NodeKind::Middleware)
    &&& n.config == NodeConfig::Middleware(
        MiddlewareConfig { middleware: MiddlewareKind::RateLimit { requests_per_minute: 60, max_concurrent: 8 } },
    )
}

pub open spec fn budget_is(n: Node) -> bool {
    &&& node_is(n, "middleware-budget"@, "预算预警"@, NodeKind::Middleware)
    &&& n.config matches NodeConfig::Middleware(m) && m.middleware matches MiddlewareKind::BudgetMonitor { warning_thresholds }
        && warning_thresholds@ == seq![50u8, 80u8, 100u8]
}

pub open spec fn provider_link(i: int) -> EdgeView {
    link(provider_id(i) + "-candidate"@, provider_id(i), "candidate_out"@, "composer"@, "candidate_in"@, None)
}

pub open spec fn probe_link(i: int) -> EdgeView {
    link(probe_id(i) + "-health"@, probe_id(i), "health_out"@, "composer"@, "health_in"@, Some("健康滞回"@))
}

pub open spec fn guard_links() -> Seq<EdgeView> {
    seq![
        link("composer-to-rate-limit"@, "composer"@, "service_plan_out"@, "middleware-rate-limit"@, "service_plan_in"@, None),
        link("rate-limit-to-budget"@, "middleware-rate-limit"@, "service_plan_out"@, "middleware-budget"@, "service_plan_in"@, None),
        link("budget-to-publisher"@, "middleware-budget"@, "service_plan_out"@, "total-output"@, "service_plan_in"@, None),
    ]
}

/// The edges of a template: the composer feeds the total output directly,
/// or through rate limit and budget middleware when guarded; each provider
/// feeds the composer its candidates and each probe its health.
pub open spec fn template_edges(t: GraphTemplateKind) -> Seq<EdgeView> {
    let guarded = t == GraphTemplateKind::GuardedFailover;
    (if guarded {
        seq![]
    } else {
        seq![output_link()]
    }) + Seq::new(required_of(t) as nat, |i: int| provider_link(i)) + Seq::new(probe_count(t) as nat, |i: int| probe_link(i))
        + (if guarded {
        guard_links()
    } else {
        seq![]
    })
}

/// The draft graph of a template over the first assets, each an
/// `(asset id, name)` pair: the providers, the composer, the total output,
/// the probes and, when guarded, the rate limit and budget middleware.
pub open spec fn draft_is(g: WorkflowGraph, graph_id: Seq<char>, t: GraphTemplateKind, assets: Seq<(String, String)>) -> bool {
    let k = required_of(t);
    let p = probe_count(t);
    let ns = g.nodes@;
    &&& g.schema_version == GRAPH_SCHEMA_VERSION
    &&& g.id@ == graph_id
    &&& ns.len() == k + 2 + p + (if t == GraphTemplateKind::GuardedFailover {
        2int
    } else {
        0int
    })
    &&& forall|i: int| 0 <= i < k ==> provider_is(#[trigger] ns[i], i, assets[i], t)
    &&& composer_is(ns[k], t)
    &&& node_is(ns[k + 1], "total-output"@, "本地总输出"@, NodeKind::Publisher)
    &&& default_config_is(ns[k + 1].config, NodeKind::Publisher)
    &&& forall|j: int| k + 2 <= j < k + 2 + p ==> probe_is(#[trigger] ns[j], j - k - 2, assets[j - k - 2].1@)
    &&& t == GraphTemplateKind::GuardedFailover ==> rate_limit_is(ns[k + 2 + p]) && budget_is(ns[k + 3 + p])
    &&& edge_views(g.edges@) == template_edges(t)
}

fn index_name(prefix: &str, i: usize) -> (r: String)
    requires
        i < 2,
    ensures
        r@ == prefix@ + decimal((i + 1) as nat),
{
    let mut r = text::owned(prefix);
    let d = text::decimal_string((i + 1) as u64);
    text::push_str(&mut r, d.as_str());
    r
}

fn template_provider(i: usize, asset: &(String, String), t: GraphTemplateKind) -> (n: Node)
    requires
        i < 2,
    ensures
        provider_is(n, i as int, *asset, t),
{
    let mut n = node_from(index_name("provider-", i), asset.1.clone(), NodeKind::Provider);
    let model = if t == GraphTemplateKind::MultiModel {
        index_name("model-", i)
    } else {
        text::owned("default")
    };
    let mut selected_models: Vec<String> = Vec::new();
    selected_models.push(model);
    assert(str_views(selected_models@) =~= seq![model_of(t, i as int)]);
    n.config = NodeConfig::Provider(ProviderConfig { asset_id: asset.0.clone(), selected_models });
    n
}

fn template_probe(i: usize, provider_name: &String) -> (n: Node)
    requires
        i < 2,
    ensures
        probe_is(n, i as int, provider_name@),
{
    let mut name = provider_name.clone();
    text::push_str(&mut name, " 健康探测");
    let mut n = node_from(index_name("probe-", i), name, NodeKind::Probe);
    n.config = NodeConfig::Probe(default_probe_config(index_name("provider-", i)));
    n
}

fn template_routes_exec(t: GraphTemplateKind, k: usize) -> (r: Vec<PublicModelRoute>)
    requires
        k == required_of(t),
    ensures
        route_spec_views(r@) == template_routes(t),
{
    let mut r: Vec<PublicModelRoute> = Vec::new();
    if t == GraphTemplateKind::MultiModel {
        let mut i: usize = 0;
        while i < k
            invariant
                k == required_of(t),
                t == GraphTemplateKind::MultiModel,
                i <= k,
                route_spec_views(r@) == Seq::new(i as nat, |j: int| model_route(t, j)),
            decreases k - i,
        {
            let mut candidates: Vec<CandidateBinding> = Vec::new();
            candidates.push(
                CandidateBinding { provider_node_id: index_name("provider-", i), upstream_model: index_name("model-", i), priority: 0, weight: 1 },
            );
            let route = PublicModelRoute { public_model: index_name("model-", i), candidates };
            assert(route_spec(route).candidates =~= model_route(t, i as int).candidates);
            let ghost before = route_spec_views(r@);
            r.push(route);
            assert(route_spec_views(r@) =~= before.push(route_spec(route)));
            assert(Seq::new((i + 1) as nat, |j: int| model_route(t, j)) =~= Seq::new(i as nat, |j: int| model_route(t, j)).push(
                model_route(t, i as int),
            ));
            i = i + 1;
        }
    } else {
        let mut candidates: Vec<CandidateBinding> = Vec::new();
        let mut i: usize = 0;
        while i < k
            invariant
                k == required_of(t),
                i <= k,
                crate::compile::cand_tuples(candidates@) == Seq::new(i as nat, |j: int| default_candidate(t, j)),
            decreases k - i,
        {
            let weight: u16 = if t == GraphTemplateKind::WeightedRoundRobin {
                if i == 0 {
                    70
                } else {
                    30
                }
            } else {
                1
            };
            let c = CandidateBinding {
                provider_node_id: index_name("provider-", i),
                upstream_model: text::owned("default"),
                priority: i as u32,
                weight,
            };
            let ghost before = crate::compile::cand_tuples(candidates@);
            candidates.push(c);
            assert(crate::compile::cand_tuples(candidates@) =~= before.push(default_candidate(t, i as int)));
            assert(Seq::new((i + 1) as nat, |j: int| default_candidate(t, j)) =~= Seq::new(i as nat, |j: int| default_candidate(t, j)).push(
                default_candidate(t, i as int),
            ));
            i = i + 1;
        }
        let route = PublicModelRoute { public_model: text::owned("default"), candidates };
        r.push(route);
        assert(route_spec_views(r@) =~= seq![route_spec(route)]);
    }
    assert(route_spec_views(r@) =~= template_routes(t));
    r
}

fn named_edge(prefix: &str, i: usize, suffix: &str, from_port: &str, to_port: &str, label: Option<&str>) -> (e: Edge)
    requires
        i < 2,
    ensures
        edge_view(e) == link(
            prefix@ + decimal((i + 1) as nat) + suffix@,
            prefix@ + decimal((i + 1) as nat),
            from_port@,
            "composer"@,
            to_port@,
            match label {
                Some(l) => Some(l@),
                None => None,
            },
        ),
{
    let mut id = index_name(prefix, i);
    text::push_str(&mut id, suffix);
    make_edge(id, index_name(prefix, i), from_port, text::owned("composer"), to_port, label)
}

fn template_edges_exec(t: GraphTemplateKind, k: usize) -> (r: Vec<Edge>)
    requires
        k == required_of(t),
    ensures
        edge_views(r@) == template_edges(t),
{
    let guarded = t == GraphTemplateKind::GuardedFailover;
    let probes = t == GraphTemplateKind::FailoverWithProbe || t == GraphTemplateKind::GuardedFailover || t
        == GraphTemplateKind::LowestLatency;
    let mut r: Vec<Edge> = Vec::new();
    let ghost head = if guarded {
        Seq::<EdgeView>::empty()
    } else {
        seq![output_link()]
    };
    if !guarded {
        r.push(make_edge(text::owned("composer-to-output"), text::owned("composer"), "service_plan_out", text::owned("total-output"), "service_plan_in", None));
    }
    assert(edge_views(r@) =~= head);
    let ghost pl = Seq::new(k as nat, |i: int| provider_link(i));
    r.push(named_edge("provider-", 0, "-candidate", "candidate_out", "candidate_in", None));
    if k == 2 {
        r.push(named_edge("provider-", 1, "-candidate", "candidate_out", "candidate_in", None));
    }
    assert(edge_views(r@) =~= head + pl);
    let ghost ql = Seq::new(probe_count(t) as nat, |i: int| probe_link(i));
    if probes {
        r.push(named_edge("probe-", 0, "-health", "health_out", "health_in", Some("健康滞回")));
        if k == 2 {
            r.push(named_edge("probe-", 1, "-health", "health_out", "health_in", Some("健康滞回")));
        }
    }
    assert(edge_views(r@) =~= head + pl + ql);
    if guarded {
        r.push(make_edge(text::owned("composer-to-rate-limit"), text::owned("composer"), "service_plan_out", text::owned("middleware-rate-limit"), "service_plan_in", None));
        r.push(make_edge(text::owned("rate-limit-to-budget"), text::owned("middleware-rate-limit"), "service_plan_out", text::owned("middleware-budget"), "service_plan_in", None));
        r.push(make_edge(text::owned("budget-to-publisher"), text::owned("middleware-budget"), "service_plan_out", text::owned("total-output"), "service_plan_in", None));
        assert(edge_views(r@) =~= head + pl + ql + guard_links());
    } else {
        assert(edge_views(r@) =~= head + pl + ql + Seq::<EdgeView>::empty());
    }
    r
}

fn middleware_node(id: &str, name: &str, middleware: MiddlewareKind) -> (n: Node)
    ensures
        node_is(n, id@, name@, NodeKind::Middleware),
        n.config == NodeConfig::Middleware(MiddlewareConfig { middleware }),
{
    let mut n = node_from(text::owned(id), text::owned(name), NodeKind::Middleware);
    n.config = NodeConfig::Middleware(MiddlewareConfig { middleware });
    n
}

/// Generates the deterministic draft of a template from the first wallet
/// assets, each an `(asset id, name)` pair: no secret or publisher token is
/// taken. Too few assets are refused; otherwise the draft is returned when
/// it validates, and its validation error when it does not.
pub fn generate_graph_template(graph_id: &str, template: GraphTemplateKind, assets: &[(String, String)]) -> (r: Result<
    WorkflowGraph,
    CoreError,
>)
    ensures
        assets@.len() < required_of(template) ==> (r matches Err(e) && e.code == ErrorCode::GraphInvalid && e@.issues.len()
            == 0 && e.message@ == (if template == GraphTemplateKind::SingleProvider {
            "模板至少需要 1 个钱包资产"@
        } else {
            "模板至少需要 2 个钱包资产"@
        })),
        assets@.len() >= required_of(template) ==> match r {
            Ok(g) => draft_is(g, graph_id@, template, assets@) && graph_issues(g).len() == 0,
            Err(e) => e.code == ErrorCode::GraphInvalid && exists|g: WorkflowGraph|
                #![trigger draft_is(g, graph_id@, template, assets@)]
                draft_is(g, graph_id@, template, assets@) && graph_issues(g).len() > 0 && e@.issues == graph_issues(g),
        },
{
    let k = template.required_assets();
    if assets.len() < k {
        let message = if k == 1 {
            "模板至少需要 1 个钱包资产"
        } else {
            "模板至少需要 2 个钱包资产"
        };
        return Err(CoreError::new(ErrorCode::GraphInvalid, message));
    }
    let guarded = template == GraphTemplateKind::GuardedFailover;
    let probes = template == GraphTemplateKind::FailoverWithProbe || template == GraphTemplateKind::GuardedFailover
        || template == GraphTemplateKind::LowestLatency;
    let strategy = match template {
        GraphTemplateKind::WeightedRoundRobin => SelectionStrategy::WeightedRoundRobin,
        GraphTemplateKind::LowestLatency => SelectionStrategy::LowestLatency,
        _ => SelectionStrategy::PriorityFailover,
    };
    let ghost av = assets@;
    let mut nodes: Vec<Node> = Vec::new();
    let p0 = template_provider(0, &assets[0], template);
    let ghost g0 = p0;
    nodes.push(p0);
    let ghost mut g1 = g0;
    if k == 2 {
        let p1 = template_provider(1, &assets[1], template);
        proof {
            g1 = p1;
        }
        nodes.push(p1);
    }
    let mut composer = node_from(text::owned("composer"), text::owned("Composer"), NodeKind::Composer);
    let mut cc = default_composer_config(strategy);
    cc.routes = template_routes_exec(template, k);
    composer.config = NodeConfig::Composer(cc);
    let ghost gc = composer;
    nodes.push(composer);
    let publisher = node_from(text::owned("total-output"), text::owned("本地总输出"), NodeKind::Publisher);
    let ghost gp = publisher;
    nodes.push(publisher);
    let ghost mut q0 = gp;
    let ghost mut q1 = gp;
    if probes {
        let b0 = template_probe(0, &assets[0].1);
        proof {
            q0 = b0;
        }
        nodes.push(b0);
        if k == 2 {
            let b1 = template_probe(1, &assets[1].1);
            proof {
                q1 = b1;
            }
            nodes.push(b1);
        }
    }
    let ghost before_guard = nodes@;
    if guarded {
        nodes.push(middleware_node("middleware-rate-limit", "入口限流", MiddlewareKind::RateLimit { requests_per_minute: 60, max_concurrent: 8 }));
        let mut thresholds: Vec<u8> = Vec::new();
        thresholds.push(50);
        thresholds.push(80);
        thresholds.push(100);
        assert(thresholds@ =~= seq![50u8, 80u8, 100u8]);
        nodes.push(middleware_node("middleware-budget", "预算预警", MiddlewareKind::BudgetMonitor { warning_thresholds: thresholds }));
    }
    let edges = template_edges_exec(template, k);
    let g = WorkflowGraph { schema_version: GRAPH_SCHEMA_VERSION, id: text::owned(graph_id), nodes, edges };
    proof {
        let ns = g.nodes@;
        let kk = k as int;
        let pc = probe_count(template);
        assert(ns.len() == kk + 2 + pc + (if guarded {
            2int
        } else {
            0int
        }));
        assert(ns[0] == g0);
        if k == 2 {
            assert(ns[1] == g1);
        }
        assert forall|i: int| 0 <= i < kk implies provider_is(#[trigger] ns[i], i, av[i], template) by {
            if i == 0 {
                assert(ns[0] == g0);
            } else {
                assert(ns[1] == g1);
            }
        }
        assert(ns[kk] == gc);
        assert(ns[kk + 1] == gp);
        assert forall|j: int| kk + 2 <= j < kk + 2 + pc implies probe_is(#[trigger] ns[j], j - kk - 2, av[j - kk - 2].1@) by {
            if j == kk + 2 {
                assert(ns[j] == q0);
            } else {
                assert(ns[j] == q1);
            }
        }
        assert(draft_is(g, graph_id@, template, av));
    }
    match g.validate() {
        Ok(_) => Ok(g),
        Err(e) => Err(e),
    }
}

proof fn lemma_count_single(ns: Seq<Node>, kind: NodeKind, k: int, n: int)
    requires
        0 <= k < ns.len(),
        0 <= n <= ns.len(),
        forall|j: int| 0 <= j < ns.len() ==> ((#[trigger] ns[j]).kind == kind <==> j == k),
    ensures
        count_kind(ns, kind, n) == (if n > k {
            1nat
        } else {
            0nat
        }),
    decreases n,
{
    if n > 0 {
        lemma_count_single(ns, kind, k, n - 1);
    }
}

/// Every template draft has exactly one composer and exactly one publisher,
/// the total output.
pub proof fn law_template_has_one_composer_and_publisher(
    g: WorkflowGraph,
    graph_id: Seq<char>,
    t: GraphTemplateKind,
    assets: Seq<(String, String)>,
)
    requires
        draft_is(g, graph_id, t, assets),
    ensures
        count_kind(g.nodes@, NodeKind::Composer, g.nodes@.len() as int) == 1,
        count_kind(g.nodes@, NodeKind::Publisher, g.nodes@.len() as int) == 1,
{
    let ns = g.nodes@;
    let k = required_of(t);
    let p = probe_count(t);
    assert forall|j: int| 0 <= j < ns.len() implies ((#[trigger] ns[j]).kind == NodeKind::Composer <==> j == k) && (ns[j].kind
        == NodeKind::Publisher <==> j == k + 1) by {
        if j < k {
            assert(provider_is(ns[j], j, assets[j], t));
        } else if j == k {
        } else if j == k + 1 {
        } else if j < k + 2 + p {
            assert(probe_is(ns[j], j - k - 2, assets[j - k - 2].1@));
        } else if j == k + 2 + p {
            assert(rate_limit_is(ns[k + 2 + p]));
        } else {
            assert(budget_is(ns[k + 3 + p]));
        }
    }
    lemma_count_single(ns, NodeKind::Composer, k, ns.len() as int);
    lemma_count_single(ns, NodeKind::Publisher, k + 1, ns.len() as int);
}

} // verus!
