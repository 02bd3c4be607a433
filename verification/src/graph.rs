//! Workflow graphs (Graph V3): providers feed a composer, which feeds an
//! optional middleware chain ending in one publisher; probes report health.
//! This module holds the node vocabulary, the fixed port contract of each
//! node kind, and the structural validation of a graph.
use crate::error::{issue_views, iv, CoreError, ErrorCode, IssueView, ValidationIssue};
use crate::routing::{opt_issue, SelectionStrategy, StandardError};
use crate::sort::str_views;
use crate::text::{self, decimal, is_blank};
use crate::topology::{kahn_order, link_views, topo_order};
use vstd::prelude::*;

verus! {

pub const GRAPH_SCHEMA_VERSION: u32 = 3;

#[derive(Debug, Clone, Copy, PartialEq, Eq, Structural)]
pub enum NodeKind {
    Provider,
    Composer,
    Middleware,
    Probe,
    Publisher,
    Group,
}

#[derive(Debug, Clone, Copy, PartialEq, Eq, Structural)]
pub enum PortType {
    Candidate,
    ServicePlan,
    HealthSignal,
}

#[derive(Debug, Clone, PartialEq, Eq)]
pub struct Port {
    pub id: String,
    pub data_type: PortType,
}

#[derive(Debug, Clone, PartialEq, Eq)]
pub struct ProviderConfig {
    pub asset_id: String,
    pub selected_models: Vec<String>,
}

#[derive(Debug, Clone, PartialEq, Eq)]
pub struct CandidateBinding {
    pub provider_node_id: String,
    pub upstream_model: String,
    pub priority: u32,
    pub weight: u16,
}

#[derive(Debug, Clone, PartialEq, Eq)]
pub struct PublicModelRoute {
    pub public_model: String,
    pub candidates: Vec<CandidateBinding>,
}

#[derive(Debug, Clone, PartialEq, Eq)]
pub struct ComposerConfig {
    pub strategy: SelectionStrategy,
    pub timeout_ms: u64,
    pub max_retries: u32,
    pub failover_on: Vec<StandardError>,
    pub allow_capability_degradation: bool,
    pub latency_hysteresis_ms: u64,
    pub routes: Vec<PublicModelRoute>,
}

/// A middleware step. Request defaults carry `temperature` and `top_p` as
/// the IEEE 754 bit patterns of their `f64` values (`f64::to_bits`).
#[derive(Debug, Clone, PartialEq, Eq)]
pub enum MiddlewareKind {
    RequestDefaults { temperature: Option<u64>, top_p: Option<u64>, max_output_tokens: Option<u32> },
    ModelPolicy { allowed_models: Vec<String>, max_output_tokens: Option<u32> },
    RateLimit { requests_per_minute: u32, max_concurrent: u32 },
    BudgetMonitor { warning_thresholds: Vec<u8> },
}

#[derive(Debug, Clone, PartialEq, Eq)]
pub struct MiddlewareConfig {
    pub middleware: MiddlewareKind,
}

#[derive(Debug, Clone, PartialEq, Eq)]
pub struct ProbeConfig {
    pub provider_node_id: String,
    pub interval_seconds: u64,
    pub timeout_ms: u64,
    pub failure_threshold: u32,
    pub recovery_threshold: u32,
    pub safe_only: bool,
}

#[derive(Debug, Clone, PartialEq, Eq)]
pub struct PublisherNodeConfig {
    pub publisher_id: Option<String>,
}

#[derive(Debug, Clone, PartialEq, Eq)]
pub struct GroupConfig {
    pub member_ids: Vec<String>,
    pub collapsed: bool,
}

#[derive(Debug, Clone, PartialEq, Eq)]
pub enum NodeConfig {
    Provider(ProviderConfig),
    Composer(ComposerConfig),
    Middleware(MiddlewareConfig),
    Probe(ProbeConfig),
    Publisher(PublisherNodeConfig),
    Group(GroupConfig),
}

#[derive(Debug, Clone, PartialEq, Eq)]
pub struct Node {
    pub id: String,
    pub name: String,
    pub kind: NodeKind,
    pub enabled: bool,
    pub inputs: Vec<Port>,
    pub outputs: Vec<Port>,
    pub config: NodeConfig,
}

#[derive(Debug, Clone, PartialEq, Eq)]
pub struct Endpoint {
    pub node: String,
    pub port: String,
}

#[derive(Debug, Clone, PartialEq, Eq)]
pub struct Edge {
    pub id: String,
    pub from: Endpoint,
    pub to: Endpoint,
    pub enabled: bool,
    pub label: Option<String>,
}

#[derive(Debug, Clone, PartialEq, Eq)]
pub struct WorkflowGraph {
    pub schema_version: u32,
    pub id: String,
    pub nodes: Vec<Node>,
    pub edges: Vec<Edge>,
}

#[derive(Debug, Clone, PartialEq, Eq)]
pub struct GraphSummary {
    pub node_count: usize,
    pub edge_count: usize,
    pub enabled_node_count: usize,
    pub publisher_count: usize,
    pub topological_order: Vec<String>,
}

#[derive(Debug, Clone, PartialEq, Eq)]
pub struct NodeDefinition {
    pub kind: NodeKind,
    pub label: String,
    pub description: String,
    pub inputs: Vec<Port>,
    pub outputs: Vec<Port>,
}

#[derive(Debug, Clone, Copy, PartialEq, Eq, Structural)]
pub enum GraphTemplateKind {
    SingleProvider,
    PriorityFailover,
    MultiModel,
    WeightedRoundRobin,
    LowestLatency,
    FailoverWithProbe,
    GuardedFailover,
}

impl GraphTemplateKind {
    /// How many wallet assets the template binds.
    pub fn required_assets(self) -> (r: usize)
        ensures
            r == (if self == GraphTemplateKind::SingleProvider {
                1usize
            } else {
                2usize
            }),
    {
        match self {
            GraphTemplateKind::SingleProvider => 1,
            _ => 2,
        }
    }
}

impl NodeConfig {
    /// The node kind the configuration belongs to.
    pub fn kind(&self) -> (r: NodeKind)
        ensures
            r == config_kind(*self),
    {
        match self {
            NodeConfig::Provider(_) => NodeKind::Provider,
            NodeConfig::Composer(_) => NodeKind::Composer,
            NodeConfig::Middleware(_) => NodeKind::Middleware,
            NodeConfig::Probe(_) => NodeKind::Probe,
            NodeConfig::Publisher(_) => NodeKind::Publisher,
            NodeConfig::Group(_) => NodeKind::Group,
        }
    }
}

pub open spec fn config_kind(c: NodeConfig) -> NodeKind {
    match c {
        NodeConfig::Provider(_) => NodeKind::Provider,
        NodeConfig::Composer(_) => NodeKind::Composer,
        NodeConfig::Middleware(_) => NodeKind::Middleware,
        NodeConfig::Probe(_) => NodeKind::Probe,
        NodeConfig::Publisher(_) => NodeKind::Publisher,
        NodeConfig::Group(_) => NodeKind::Group,
    }
}

impl Node {
    pub fn provider_config(&self) -> (r: Option<&ProviderConfig>)
        ensures
            match self.config {
                NodeConfig::Provider(c) => r == Some(&c),
                _ => r is None,
            },
    {
        match &self.config {
            NodeConfig::Provider(config) => Some(config),
            _ => None,
        }
    }

    /// The provider configuration, to change in place.
    pub fn provider_config_mut(&mut self) -> (r: Option<&mut ProviderConfig>)
        ensures
            match old(self).config {
                NodeConfig::Provider(c) => r matches Some(x) && *x == c && *final(self) == (Node {
                    config: NodeConfig::Provider(*final(x)),
                    ..*old(self)
                }),
                _ => r is None && *final(self) == *old(self),
            },
    {
        match &mut self.config {
            NodeConfig::Provider(config) => Some(config),
            _ => None,
        }
    }

    /// The composer configuration, to change in place.
    pub fn composer_config_mut(&mut self) -> (r: Option<&mut ComposerConfig>)
        ensures
            match old(self).config {
                NodeConfig::Composer(c) => r matches Some(x) && *x == c && *final(self) == (Node {
                    config: NodeConfig::Composer(*final(x)),
                    ..*old(self)
                }),
                _ => r is None && *final(self) == *old(self),
            },
    {
        match &mut self.config {
            NodeConfig::Composer(config) => Some(config),
            _ => None,
        }
    }

    /// The publisher configuration, to change in place.
    pub fn publisher_config_mut(&mut self) -> (r: Option<&mut PublisherNodeConfig>)
        ensures
            match old(self).config {
                NodeConfig::Publisher(c) => r matches Some(x) && *x == c && *final(self) == (Node {
                    config: NodeConfig::Publisher(*final(x)),
                    ..*old(self)
                }),
                _ => r is None && *final(self) == *old(self),
            },
    {
        match &mut self.config {
            NodeConfig::Publisher(config) => Some(config),
            _ => None,
        }
    }
}

pub open spec fn port_views(ps: Seq<Port>) -> Seq<(Seq<char>, PortType)> {
    ps.map_values(|p: Port| (p.id@, p.data_type))
}

pub open spec fn port_types(ps: Seq<Port>) -> Seq<PortType> {
    ps.map_values(|p: Port| p.data_type)
}

/// The fixed inputs of a node kind.
pub open spec fn contract_inputs(kind: NodeKind) -> Seq<(Seq<char>, PortType)> {
    match kind {
        NodeKind::Composer => seq![("candidate_in"@, PortType::Candidate), ("health_in"@, PortType::HealthSignal)],
        NodeKind::Middleware => seq![("service_plan_in"@, PortType::ServicePlan)],
        NodeKind::Publisher => seq![("service_plan_in"@, PortType::ServicePlan)],
        _ => seq![],
    }
}

/// The fixed outputs of a node kind.
pub open spec fn contract_outputs(kind: NodeKind) -> Seq<(Seq<char>, PortType)> {
    match kind {
        NodeKind::Provider => seq![("candidate_out"@, PortType::Candidate)],
        NodeKind::Composer => seq![("service_plan_out"@, PortType::ServicePlan)],
        NodeKind::Middleware => seq![("service_plan_out"@, PortType::ServicePlan)],
        NodeKind::Probe => seq![("health_out"@, PortType::HealthSignal)],
        _ => seq![],
    }
}

pub open spec fn types_of(ps: Seq<(Seq<char>, PortType)>) -> Seq<PortType> {
    ps.map_values(|p: (Seq<char>, PortType)| p.1)
}

fn port(id: &str, data_type: PortType) -> (r: Port)
    ensures
        r.id@ == id@,
        r.data_type == data_type,
{
    Port { id: text::owned(id), data_type }
}

/// The fixed input and output ports of a node kind.
pub fn ports_for(kind: NodeKind) -> (r: (Vec<Port>, Vec<Port>))
    ensures
        port_views(r.0@) == contract_inputs(kind),
        port_views(r.1@) == contract_outputs(kind),
{
    let mut inputs: Vec<Port> = Vec::new();
    let mut outputs: Vec<Port> = Vec::new();
    match kind {
        NodeKind::Provider => {
            outputs.push(port("candidate_out", PortType::Candidate));
        },
        NodeKind::Composer => {
            inputs.push(port("candidate_in", PortType::Candidate));
            inputs.push(port("health_in", PortType::HealthSignal));
            outputs.push(port("service_plan_out", PortType::ServicePlan));
        },
        NodeKind::Middleware => {
            inputs.push(port("service_plan_in", PortType::ServicePlan));
            outputs.push(port("service_plan_out", PortType::ServicePlan));
        },
        NodeKind::Probe => {
            outputs.push(port("health_out", PortType::HealthSignal));
        },
        NodeKind::Publisher => {
            inputs.push(port("service_plan_in", PortType::ServicePlan));
        },
        NodeKind::Group => {},
    }
    assert(port_views(inputs@) =~= contract_inputs(kind));
    assert(port_views(outputs@) =~= contract_outputs(kind));
    (inputs, outputs)
}

/// Which connections a port type allows between node kinds.
pub open spec fn connection_allowed(from: NodeKind, to: NodeKind, port: PortType) -> bool {
    ||| from == NodeKind::Provider && to == NodeKind::Composer && port == PortType::Candidate
    ||| from == NodeKind::Probe && to == NodeKind::Composer && port == PortType::HealthSignal
    ||| (from == NodeKind::Composer || from == NodeKind::Middleware) && (to == NodeKind::Middleware || to
        == NodeKind::Publisher) && port == PortType::ServicePlan
}

pub fn valid_connection(from: NodeKind, to: NodeKind, port: PortType) -> (r: bool)
    ensures
        r == connection_allowed(from, to, port),
{
    (from == NodeKind::Provider && to == NodeKind::Composer && port == PortType::Candidate) || (from
        == NodeKind::Probe && to == NodeKind::Composer && port == PortType::HealthSignal) || ((from
        == NodeKind::Composer || from == NodeKind::Middleware) && (to == NodeKind::Middleware || to
        == NodeKind::Publisher) && port == PortType::ServicePlan)
}

pub open spec fn catalog_entry(kind: NodeKind) -> (Seq<char>, Seq<char>) {
    match kind {
        NodeKind::Provider => ("钱包 Provider"@, "引用一个 API 钱包资产"@),
        NodeKind::Composer => ("Composer"@, "合并模型并执行候选选择策略"@),
        NodeKind::Middleware => ("Middleware"@, "执行受控限流、默认值或预算策略"@),
        NodeKind::Probe => ("Probe"@, "执行无副作用健康探测"@),
        NodeKind::Publisher => ("Publisher"@, "编组方案唯一 OpenAI-compatible 出口"@),
        NodeKind::Group => ("Group"@, "仅用于视觉组织"@),
    }
}

pub open spec fn catalog_kinds() -> Seq<NodeKind> {
    seq![
        NodeKind::Provider,
        NodeKind::Composer,
        NodeKind::Middleware,
        NodeKind::Probe,
        NodeKind::Publisher,
        NodeKind::Group,
    ]
}

pub open spec fn definition_is(d: NodeDefinition, kind: NodeKind) -> bool {
    &&& d.kind == kind
    &&& d.label@ == catalog_entry(kind).0
    &&& d.description@ == catalog_entry(kind).1
    &&& port_views(d.inputs@) == contract_inputs(kind)
    &&& port_views(d.outputs@) == contract_outputs(kind)
}

fn definition(kind: NodeKind, label: &str, description: &str) -> (r: NodeDefinition)
    ensures
        r.kind == kind,
        r.label@ == label@,
        r.description@ == description@,
        port_views(r.inputs@) == contract_inputs(kind),
        port_views(r.outputs@) == contract_outputs(kind),
{
    let (inputs, outputs) = ports_for(kind);
    NodeDefinition { kind, label: text::owned(label), description: text::owned(description), inputs, outputs }
}

/// The six node kinds the canvas offers, with their labels and fixed ports.
pub fn node_catalog() -> (r: Vec<NodeDefinition>)
    ensures
        r@.len() == 6,
        forall|i: int| 0 <= i < 6 ==> definition_is(#[trigger] r@[i], catalog_kinds()[i]),
{
    let mut r: Vec<NodeDefinition> = Vec::new();
    r.push(definition(NodeKind::Provider, "钱包 Provider", "引用一个 API 钱包资产"));
    r.push(definition(NodeKind::Composer, "Composer", "合并模型并执行候选选择策略"));
    r.push(definition(NodeKind::Middleware, "Middleware", "执行受控限流、默认值或预算策略"));
    r.push(definition(NodeKind::Probe, "Probe", "执行无副作用健康探测"));
    r.push(definition(NodeKind::Publisher, "Publisher", "编组方案唯一 OpenAI-compatible 出口"));
    r.push(definition(NodeKind::Group, "Group", "仅用于视觉组织"));
    r
}

/// `(0.0..=2.0).contains(&f64::from_bits(bits))`: non-negative values up to
/// 2.0 and negative zero.
pub open spec fn f64_bits_within_two(bits: u64) -> bool {
    bits <= 0x4000_0000_0000_0000u64 || bits == 0x8000_0000_0000_0000u64
}

/// `(0.0..=1.0).contains(&f64::from_bits(bits))`.
pub open spec fn f64_bits_within_one(bits: u64) -> bool {
    bits <= 0x3FF0_0000_0000_0000u64 || bits == 0x8000_0000_0000_0000u64
}

pub open spec fn any_blank(s: Seq<String>) -> bool {
    exists|i: int| 0 <= i < s.len() && is_blank(#[trigger] s[i]@)
}

pub open spec fn config_message(c: NodeConfig) -> Option<(Seq<char>, Seq<char>)> {
    match c {
        NodeConfig::Provider(p) => if is_blank(p.asset_id@) || any_blank(p.selected_models@) {
            Some(("REQUIRED"@, "Provider 必须绑定钱包资产，模型名称不能为空"@))
        } else {
            None
        },
        NodeConfig::Composer(p) => if p.timeout_ms == 0 || p.timeout_ms > 600_000 || p.max_retries > 10
            || p.latency_hysteresis_ms > 60_000 {
            Some(("OUT_OF_RANGE"@, "Composer 超时、重试或延迟滞回超出安全范围"@))
        } else {
            None
        },
        NodeConfig::Middleware(m) => match m.middleware {
            MiddlewareKind::RequestDefaults { temperature, top_p, max_output_tokens } => if (temperature
                matches Some(t) && !f64_bits_within_two(t)) || (top_p matches Some(p)
                && !f64_bits_within_one(p)) || max_output_tokens == Some(0u32) {
                Some(("OUT_OF_RANGE"@, "请求默认值超出安全范围"@))
            } else {
                None
            },
            MiddlewareKind::ModelPolicy { allowed_models, max_output_tokens } => if any_blank(allowed_models@)
                || max_output_tokens == Some(0u32) {
                Some(("OUT_OF_RANGE"@, "模型策略包含空模型或无效 Token 限制"@))
            } else {
                None
            },
            MiddlewareKind::RateLimit { requests_per_minute, max_concurrent } => if requests_per_minute == 0
                || requests_per_minute > 1_000_000 || max_concurrent == 0 || max_concurrent > 10_000 {
                Some(("OUT_OF_RANGE"@, "限流配置超出安全范围"@))
            } else {
                None
            },
            MiddlewareKind::BudgetMonitor { warning_thresholds } => if warning_thresholds@.len() == 0 || exists|
                i: int,
            | 0 <= i < warning_thresholds@.len() && (#[trigger] warning_thresholds@[i] == 0
                || warning_thresholds@[i] > 100) {
                Some(("OUT_OF_RANGE"@, "预算阈值必须在 1 到 100 之间"@))
            } else {
                None
            },
        },
        _ => None,
    }
}

pub open spec fn node_path(index: int, suffix: Seq<char>) -> Seq<char> {
    "nodes["@ + decimal(index as nat) + "]"@ + suffix
}

/// The issues of a node's configuration: a kind that differs from the node's,
/// else the first rule its configuration breaks.
pub open spec fn config_issues(index: int, n: Node) -> Seq<IssueView> {
    if config_kind(n.config) != n.kind {
        seq![iv(node_path(index, ".config"@), "CONFIG_KIND_MISMATCH"@, "节点类型和强类型配置不一致"@)]
    } else {
        match config_message(n.config) {
            Some((code, message)) => seq![iv(node_path(index, ".config"@), code, message)],
            None => seq![],
        }
    }
}

/// The issue of a node whose ports differ from its kind's contract.
pub open spec fn contract_issues(index: int, n: Node) -> Seq<IssueView> {
    opt_issue(
        port_types(n.inputs@) != types_of(contract_inputs(n.kind)) || port_types(n.outputs@) != types_of(
            contract_outputs(n.kind),
        ),
        iv(node_path(index, ".ports"@), "NODE_PORT_CONTRACT"@, "节点端口不符合 Graph V3 固定契约"@),
    )
}

pub open spec fn port_repeats(ps: Seq<Port>, j: int) -> bool {
    exists|k: int| 0 <= k < j && ps[k].id@ == ps[j].id@
}

/// Blank or repeated port ids among the first `n` ports in `direction`.
pub open spec fn ports_issues(index: int, direction: Seq<char>, ps: Seq<Port>, n: int) -> Seq<IssueView>
    decreases n,
{
    if n <= 0 {
        seq![]
    } else {
        ports_issues(index, direction, ps, n - 1) + opt_issue(
            is_blank(ps[n - 1].id@) || port_repeats(ps, n - 1),
            iv(
                node_path(index, "."@ + direction + "["@ + decimal((n - 1) as nat) + "]"@ + ".id"@),
                "INVALID_OR_DUPLICATE"@,
                "端口 ID 不能为空且必须唯一"@,
            ),
        )
    }
}

pub open spec fn node_id_repeats(ns: Seq<Node>, i: int) -> bool {
    exists|k: int| 0 <= k < i && ns[k].id@ == ns[i].id@
}

/// The issues of the `i`-th node.
#[verifier::opaque]
pub open spec fn node_issues(ns: Seq<Node>, i: int) -> Seq<IssueView> {
    let n = ns[i];
    (if is_blank(n.id@) {
        seq![iv(node_path(i, ".id"@), "REQUIRED"@, "节点 ID 不能为空"@)]
    } else if node_id_repeats(ns, i) {
        seq![iv(node_path(i, ".id"@), "DUPLICATE"@, "节点 ID 必须唯一"@)]
    } else {
        seq![]
    }) + ports_issues(i, "inputs"@, n.inputs@, n.inputs@.len() as int) + ports_issues(
        i,
        "outputs"@,
        n.outputs@,
        n.outputs@.len() as int,
    ) + contract_issues(i, n) + config_issues(i, n)
}

pub open spec fn nodes_issues(ns: Seq<Node>, n: int) -> Seq<IssueView>
    decreases n,
{
    if n <= 0 {
        seq![]
    } else {
        nodes_issues(ns, n - 1) + node_issues(ns, n - 1)
    }
}

/// The index of the last of the first `n` nodes with an id.
pub open spec fn last_node_with(ns: Seq<Node>, id: Seq<char>, n: int) -> Option<int>
    decreases n,
{
    if n <= 0 {
        None
    } else if ns[n - 1].id@ == id {
        Some(n - 1)
    } else {
        last_node_with(ns, id, n - 1)
    }
}

/// The node an edge end names: the last node with that non-blank id.
pub open spec fn node_lookup(ns: Seq<Node>, id: Seq<char>) -> Option<int> {
    if is_blank(id) {
        None
    } else {
        last_node_with(ns, id, ns.len() as int)
    }
}

/// The first port with an id.
pub open spec fn port_lookup(ps: Seq<Port>, id: Seq<char>) -> Option<int> {
    if exists|k: int| 0 <= k < ps.len() && ps[k].id@ == id {
        Some(choose|k: int| 0 <= k < ps.len() && ps[k].id@ == id && forall|m: int| 0 <= m < k ==> ps[m].id@ != id)
    } else {
        None
    }
}

pub open spec fn edge_path(index: int, suffix: Seq<char>) -> Seq<char> {
    "edges["@ + decimal(index as nat) + "]"@ + suffix
}

pub open spec fn same_connection(a: Edge, b: Edge) -> bool {
    a.from.node@ == b.from.node@ && a.from.port@ == b.from.port@ && a.to.node@ == b.to.node@ && a.to.port@
        == b.to.port@
}

pub open spec fn edge_id_repeats(es: Seq<Edge>, i: int) -> bool {
    exists|k: int| 0 <= k < i && es[k].id@ == es[i].id@
}

pub open spec fn connection_repeats(es: Seq<Edge>, i: int) -> bool {
    exists|k: int| 0 <= k < i && es[k].enabled && same_connection(es[k], es[i])
}

/// The issue of an edge's ends: a missing node, a missing port, or ports
/// that the node kinds may not connect.
#[verifier::opaque]
pub open spec fn endpoint_issues(ns: Seq<Node>, e: Edge, i: int) -> Seq<IssueView> {
    match node_lookup(ns, e.from.node@) {
        None => seq![iv(edge_path(i, ".from.node"@), "NODE_NOT_FOUND"@, "源节点不存在"@)],
        Some(a) => match node_lookup(ns, e.to.node@) {
            None => seq![iv(edge_path(i, ".to.node"@), "NODE_NOT_FOUND"@, "目标节点不存在"@)],
            Some(b) => match port_lookup(ns[a].outputs@, e.from.port@) {
                None => seq![iv(edge_path(i, ".from.port"@), "PORT_NOT_FOUND"@, "源输出端口不存在"@)],
                Some(o) => match port_lookup(ns[b].inputs@, e.to.port@) {
                    None => seq![iv(edge_path(i, ".to.port"@), "PORT_NOT_FOUND"@, "目标输入端口不存在"@)],
                    Some(p) => {
                        let t = ns[a].outputs@[o].data_type;
                        opt_issue(
                            !(t == ns[b].inputs@[p].data_type && connection_allowed(ns[a].kind, ns[b].kind, t)),
                            iv(edge_path(i, seq![]), "PORT_TYPE_MISMATCH"@, "连接两端端口不兼容"@),
                        )
                    },
                },
            },
        },
    }
}

/// The issues of the `i`-th edge.
#[verifier::opaque]
pub open spec fn edge_issues(ns: Seq<Node>, es: Seq<Edge>, i: int) -> Seq<IssueView> {
    let e = es[i];
    opt_issue(
        is_blank(e.id@) || edge_id_repeats(es, i),
        iv(edge_path(i, ".id"@), "DUPLICATE"@, "连接 ID 不能为空且必须唯一"@),
    ) + opt_issue(
        e.enabled && connection_repeats(es, i),
        iv(edge_path(i, seq![]), "DUPLICATE_CONNECTION"@, "同一对端口之间不允许重复连接"@),
    ) + opt_issue(e.from.node@ == e.to.node@, iv(edge_path(i, seq![]), "SELF_LOOP"@, "节点不能连接到自身"@))
        + endpoint_issues(ns, e, i)
}

pub open spec fn edges_issues(ns: Seq<Node>, es: Seq<Edge>, n: int) -> Seq<IssueView>
    decreases n,
{
    if n <= 0 {
        seq![]
    } else {
        edges_issues(ns, es, n - 1) + edge_issues(ns, es, n - 1)
    }
}

pub open spec fn node_ids(ns: Seq<Node>) -> Seq<Seq<char>> {
    ns.map_values(|n: Node| n.id@)
}

/// The `(from, to)` node ids of the enabled edges, in edge order.
pub open spec fn enabled_links(es: Seq<Edge>) -> Seq<(Seq<char>, Seq<char>)>
    decreases es.len(),
{
    if es.len() == 0 {
        seq![]
    } else {
        let rest = enabled_links(es.drop_last());
        if es.last().enabled {
            rest.push((es.last().from.node@, es.last().to.node@))
        } else {
            rest
        }
    }
}

/// The topological order of a graph's nodes over its enabled edges.
pub open spec fn graph_order(ns: Seq<Node>, es: Seq<Edge>) -> Seq<Seq<char>> {
    topo_order(node_ids(ns), enabled_links(es))
}

/// Every issue that graph validation reports, in order.
pub open spec fn graph_issues(g: WorkflowGraph) -> Seq<IssueView> {
    opt_issue(
        g.schema_version != GRAPH_SCHEMA_VERSION,
        iv("schema_version"@, "UNSUPPORTED_SCHEMA"@, "编组图 Schema 版本不受支持"@),
    ) + opt_issue(is_blank(g.id@), iv("id"@, "REQUIRED"@, "编组图 ID 不能为空"@)) + nodes_issues(
        g.nodes@,
        g.nodes@.len() as int,
    ) + edges_issues(g.nodes@, g.edges@, g.edges@.len() as int) + opt_issue(
        graph_order(g.nodes@, g.edges@).len() != g.nodes@.len(),
        iv("edges"@, "CYCLE_DETECTED"@, "编组图不允许环路"@),
    )
}

pub open spec fn count_nodes(ns: Seq<Node>, n: int, publishers_only: bool) -> nat
    decreases n,
{
    if n <= 0 {
        0
    } else {
        count_nodes(ns, n - 1, publishers_only) + if (publishers_only && ns[n - 1].kind == NodeKind::Publisher)
            || (!publishers_only && ns[n - 1].enabled) {
            1nat
        } else {
            0nat
        }
    }
}

fn push_if(issues: &mut Vec<ValidationIssue>, cond: bool, path: String, code: &str, message: &str)
    ensures
        issue_views(final(issues)@) == issue_views(old(issues)@) + opt_issue(cond, iv(path@, code@, message@)),
{
    if cond {
        issues.push(ValidationIssue::at(path, code, message));
    }
    assert(issue_views(final(issues)@) =~= issue_views(old(issues)@) + opt_issue(cond, iv(path@, code@, message@)));
}

fn cat(a: &str, b: &str) -> (r: String)
    ensures
        r@ == a@ + b@,
{
    let mut r = text::owned(a);
    text::push_str(&mut r, b);
    r
}

fn node_path_exec(index: usize, suffix: &str) -> (r: String)
    ensures
        r@ == node_path(index as int, suffix@),
{
    let mut r = text::owned("nodes[");
    let d = text::decimal_string(index as u64);
    text::push_str(&mut r, d.as_str());
    text::push_str(&mut r, "]");
    text::push_str(&mut r, suffix);
    r
}

fn edge_path_exec(index: usize, suffix: &str) -> (r: String)
    ensures
        r@ == edge_path(index as int, suffix@),
{
    let mut r = text::owned("edges[");
    let d = text::decimal_string(index as u64);
    text::push_str(&mut r, d.as_str());
    text::push_str(&mut r, "]");
    text::push_str(&mut r, suffix);
    r
}

fn port_seen(ps: &Vec<Port>, j: usize) -> (r: bool)
    requires
        j < ps@.len(),
    ensures
        r == port_repeats(ps@, j as int),
{
    let mut k: usize = 0;
    while k < j
        invariant
            k <= j < ps@.len(),
            forall|m: int| 0 <= m < k ==> ps@[m].id@ != ps@[j as int].id@,
        decreases j - k,
    {
        if ps[k].id == ps[j].id {
            return true;
        }
        k = k + 1;
    }
    false
}

fn validate_ports(node_index: usize, direction: &str, ports: &Vec<Port>, issues: &mut Vec<ValidationIssue>)
    ensures
        issue_views(final(issues)@) == issue_views(old(issues)@) + ports_issues(
            node_index as int,
            direction@,
            ports@,
            ports@.len() as int,
        ),
{
    let ghost start = issue_views(issues@);
    let mut j: usize = 0;
    while j < ports.len()
        invariant
            j <= ports@.len(),
            issue_views(issues@) == start + ports_issues(node_index as int, direction@, ports@, j as int),
        decreases ports.len() - j,
    {
        let bad = text::is_blank_str(ports[j].id.as_str()) || port_seen(ports, j);
        let mut suffix = text::owned(".");
        text::push_str(&mut suffix, direction);
        text::push_str(&mut suffix, "[");
        let d = text::decimal_string(j as u64);
        text::push_str(&mut suffix, d.as_str());
        text::push_str(&mut suffix, "]");
        text::push_str(&mut suffix, ".id");
        let path = node_path_exec(node_index, suffix.as_str());
        push_if(issues, bad, path, "INVALID_OR_DUPLICATE", "端口 ID 不能为空且必须唯一");
        assert(issue_views(issues@) =~= start + ports_issues(node_index as int, direction@, ports@, j + 1));
        j = j + 1;
    }
}

fn types_match(ports: &Vec<Port>, expected: &Vec<Port>) -> (r: bool)
    ensures
        r == (port_types(ports@) == port_types(expected@)),
{
    if ports.len() != expected.len() {
        assert(port_types(ports@).len() != port_types(expected@).len());
        return false;
    }
    let mut i: usize = 0;
    while i < ports.len()
        invariant
            i <= ports@.len(),
            ports@.len() == expected@.len(),
            forall|k: int| 0 <= k < i ==> ports@[k].data_type == expected@[k].data_type,
        decreases ports.len() - i,
    {
        if ports[i].data_type != expected[i].data_type {
            assert(port_types(ports@)[i as int] != port_types(expected@)[i as int]);
            return false;
        }
        i = i + 1;
    }
    assert(port_types(ports@) =~= port_types(expected@));
    true
}

fn validate_node_contract(index: usize, node: &Node, issues: &mut Vec<ValidationIssue>)
    ensures
        issue_views(final(issues)@) == issue_views(old(issues)@) + contract_issues(index as int, *node),
{
    let (inputs, outputs) = ports_for(node.kind);
    assert(port_types(inputs@) =~= types_of(contract_inputs(node.kind)));
    assert(port_types(outputs@) =~= types_of(contract_outputs(node.kind)));
    let bad = !types_match(&node.inputs, &inputs) || !types_match(&node.outputs, &outputs);
    push_if(issues, bad, node_path_exec(index, ".ports"), "NODE_PORT_CONTRACT", "节点端口不符合 Graph V3 固定契约");
}

fn any_blank_exec(v: &Vec<String>) -> (r: bool)
    ensures
        r == any_blank(v@),
{
    let mut i: usize = 0;
    while i < v.len()
        invariant
            i <= v@.len(),
            forall|k: int| 0 <= k < i ==> !is_blank(#[trigger] v@[k]@),
        decreases v.len() - i,
    {
        if text::is_blank_str(v[i].as_str()) {
            return true;
        }
        i = i + 1;
    }
    false
}

fn config_message_exec(c: &NodeConfig) -> (r: Option<(&'static str, &'static str)>)
    ensures
        match r {
            Some((code, message)) => config_message(*c) == Some((code@, message@)),
            None => config_message(*c) is None,
        },
{
    match c {
        NodeConfig::Provider(p) => if text::is_blank_str(p.asset_id.as_str()) || any_blank_exec(&p.selected_models) {
            Some(("REQUIRED", "Provider 必须绑定钱包资产，模型名称不能为空"))
        } else {
            None
        },
        NodeConfig::Composer(p) => if p.timeout_ms == 0 || p.timeout_ms > 600_000 || p.max_retries > 10
            || p.latency_hysteresis_ms > 60_000 {
            Some(("OUT_OF_RANGE", "Composer 超时、重试或延迟滞回超出安全范围"))
        } else {
            None
        },
        NodeConfig::Middleware(m) => match &m.middleware {
            MiddlewareKind::RequestDefaults { temperature, top_p, max_output_tokens } => {
                let bad_temperature = match temperature {
                    Some(t) => !(*t <= 0x4000_0000_0000_0000u64 || *t == 0x8000_0000_0000_0000u64),
                    None => false,
                };
                let bad_top_p = match top_p {
                    Some(p) => !(*p <= 0x3FF0_0000_0000_0000u64 || *p == 0x8000_0000_0000_0000u64),
                    None => false,
                };
                let zero_tokens = match max_output_tokens {
                    Some(n) => *n == 0,
                    None => false,
                };
                if bad_temperature || bad_top_p || zero_tokens {
                    Some(("OUT_OF_RANGE", "请求默认值超出安全范围"))
                } else {
                    None
                }
            },
            MiddlewareKind::ModelPolicy { allowed_models, max_output_tokens } => {
                let zero_tokens = match max_output_tokens {
                    Some(n) => *n == 0,
                    None => false,
                };
                if any_blank_exec(allowed_models) || zero_tokens {
                    Some(("OUT_OF_RANGE", "模型策略包含空模型或无效 Token 限制"))
                } else {
                    None
                }
            },
            MiddlewareKind::RateLimit { requests_per_minute, max_concurrent } => if *requests_per_minute == 0
                || *requests_per_minute > 1_000_000 || *max_concurrent == 0 || *max_concurrent > 10_000 {
                Some(("OUT_OF_RANGE", "限流配置超出安全范围"))
            } else {
                None
            },
            MiddlewareKind::BudgetMonitor { warning_thresholds } => {
                let mut bad = warning_thresholds.len() == 0;
                let mut i: usize = 0;
                while i < warning_thresholds.len()
                    invariant
                        i <= warning_thresholds@.len(),
                        bad == (warning_thresholds@.len() == 0 || exists|k: int|
                            0 <= k < i && (#[trigger] warning_thresholds@[k] == 0 || warning_thresholds@[k] > 100)),
                    decreases warning_thresholds.len() - i,
                {
                    if warning_thresholds[i] == 0 || warning_thresholds[i] > 100 {
                        bad = true;
                    }
                    i = i + 1;
                }
                if bad {
                    Some(("OUT_OF_RANGE", "预算阈值必须在 1 到 100 之间"))
                } else {
                    None
                }
            },
        },
        _ => None,
    }
}

fn validate_node_config(index: usize, node: &Node, issues: &mut Vec<ValidationIssue>)
    ensures
        issue_views(final(issues)@) == issue_views(old(issues)@) + config_issues(index as int, *node),
{
    if node.config.kind() != node.kind {
        issues.push(ValidationIssue::at(node_path_exec(index, ".config"), "CONFIG_KIND_MISMATCH", "节点类型和强类型配置不一致"));
        assert(issue_views(final(issues)@) =~= issue_views(old(issues)@) + config_issues(index as int, *node));
        return;
    }
    match config_message_exec(&node.config) {
        Some((code, message)) => {
            issues.push(ValidationIssue::at(node_path_exec(index, ".config"), code, message));
        },
        None => {},
    }
    assert(issue_views(final(issues)@) =~= issue_views(old(issues)@) + config_issues(index as int, *node));
}

fn node_id_seen(ns: &Vec<Node>, i: usize) -> (r: bool)
    requires
        i < ns@.len(),
    ensures
        r == node_id_repeats(ns@, i as int),
{
    let mut k: usize = 0;
    while k < i
        invariant
            k <= i < ns@.len(),
            forall|m: int| 0 <= m < k ==> ns@[m].id@ != ns@[i as int].id@,
        decreases i - k,
    {
        if ns[k].id == ns[i].id {
            return true;
        }
        k = k + 1;
    }
    false
}

fn node_check(ns: &Vec<Node>, i: usize, issues: &mut Vec<ValidationIssue>)
    requires
        i < ns@.len(),
    ensures
        issue_views(final(issues)@) == issue_views(old(issues)@) + node_issues(ns@, i as int),
{
    reveal(node_issues);
    let ghost start = issue_views(issues@);
    let node = &ns[i];
    if text::is_blank_str(node.id.as_str()) {
        issues.push(ValidationIssue::at(node_path_exec(i, ".id"), "REQUIRED", "节点 ID 不能为空"));
    } else if node_id_seen(ns, i) {
        issues.push(ValidationIssue::at(node_path_exec(i, ".id"), "DUPLICATE", "节点 ID 必须唯一"));
    }
    let ghost s1 = issue_views(issues@);
    validate_ports(i, "inputs", &node.inputs, issues);
    validate_ports(i, "outputs", &node.outputs, issues);
    validate_node_contract(i, node, issues);
    validate_node_config(i, node, issues);
    assert(issue_views(issues@) =~= start + node_issues(ns@, i as int));
}

proof fn lemma_last_node_bound(ns: Seq<Node>, id: Seq<char>, n: int)
    requires
        0 <= n <= ns.len(),
    ensures
        last_node_with(ns, id, n) matches Some(k) ==> 0 <= k < n,
    decreases n,
{
    if n > 0 {
        lemma_last_node_bound(ns, id, n - 1);
    }
}

/// The index of the last node with a non-blank id.
fn find_node(ns: &Vec<Node>, id: &String) -> (r: Option<usize>)
    ensures
        match r {
            Some(k) => node_lookup(ns@, id@) == Some(k as int) && k < ns@.len(),
            None => node_lookup(ns@, id@) is None,
        },
{
    if text::is_blank_str(id.as_str()) {
        return None;
    }
    let mut found: Option<usize> = None;
    let mut i: usize = 0;
    while i < ns.len()
        invariant
            i <= ns@.len(),
            match found {
                Some(k) => last_node_with(ns@, id@, i as int) == Some(k as int) && k < i,
                None => last_node_with(ns@, id@, i as int) is None,
            },
        decreases ns.len() - i,
    {
        if ns[i].id == *id {
            found = Some(i);
        }
        i = i + 1;
    }
    found
}

fn find_port(ps: &Vec<Port>, id: &String) -> (r: Option<usize>)
    ensures
        match r {
            Some(k) => port_lookup(ps@, id@) == Some(k as int) && k < ps@.len(),
            None => port_lookup(ps@, id@) is None,
        },
{
    let mut k: usize = 0;
    while k < ps.len()
        invariant
            k <= ps@.len(),
            forall|m: int| 0 <= m < k ==> ps@[m].id@ != id@,
        decreases ps.len() - k,
    {
        if ps[k].id == *id {
            assert(port_lookup(ps@, id@) == Some(k as int)) by {
                let w = choose|w: int| 0 <= w < ps@.len() && ps@[w].id@ == id@ && forall|m: int| 0 <= m < w ==> ps@[m].id@ != id@;
                if w > k {
                    assert(ps@[k as int].id@ == id@);
                }
            }
            return Some(k);
        }
        k = k + 1;
    }
    None
}

fn edge_seen(es: &Vec<Edge>, i: usize) -> (r: (bool, bool))
    requires
        i < es@.len(),
    ensures
        r.0 == edge_id_repeats(es@, i as int),
        r.1 == connection_repeats(es@, i as int),
{
    let mut id_seen = false;
    let mut conn_seen = false;
    let mut k: usize = 0;
    while k < i
        invariant
            k <= i < es@.len(),
            id_seen == exists|m: int| 0 <= m < k && #[trigger] es@[m].id@ == es@[i as int].id@,
            conn_seen == exists|m: int| 0 <= m < k && #[trigger] es@[m].enabled && same_connection(es@[m], es@[i as int]),
        decreases i - k,
    {
        if es[k].id == es[i].id {
            id_seen = true;
        }
        if es[k].enabled && es[k].from.node == es[i].from.node && es[k].from.port == es[i].from.port
            && es[k].to.node == es[i].to.node && es[k].to.port == es[i].to.port {
            conn_seen = true;
        }
        k = k + 1;
    }
    (id_seen, conn_seen)
}

#[verifier::rlimit(30)]
fn endpoint_check(ns: &Vec<Node>, e: &Edge, i: usize, issues: &mut Vec<ValidationIssue>)
    ensures
        issue_views(final(issues)@) == issue_views(old(issues)@) + endpoint_issues(ns@, *e, i as int),
{
    reveal(endpoint_issues);
    proof {
        reveal_strlit("");
    }
    match find_node(ns, &e.from.node) {
        None => {
            issues.push(ValidationIssue::at(edge_path_exec(i, ".from.node"), "NODE_NOT_FOUND", "源节点不存在"));
        },
        Some(a) => match find_node(ns, &e.to.node) {
            None => {
                issues.push(ValidationIssue::at(edge_path_exec(i, ".to.node"), "NODE_NOT_FOUND", "目标节点不存在"));
            },
            Some(b) => match find_port(&ns[a].outputs, &e.from.port) {
                None => {
                    issues.push(ValidationIssue::at(edge_path_exec(i, ".from.port"), "PORT_NOT_FOUND", "源输出端口不存在"));
                },
                Some(o) => match find_port(&ns[b].inputs, &e.to.port) {
                    None => {
                        issues.push(ValidationIssue::at(edge_path_exec(i, ".to.port"), "PORT_NOT_FOUND", "目标输入端口不存在"));
                    },
                    Some(p) => {
                        let t = ns[a].outputs[o].data_type;
                        let ok = t == ns[b].inputs[p].data_type && valid_connection(ns[a].kind, ns[b].kind, t);
                        push_if(issues, !ok, edge_path_exec(i, ""), "PORT_TYPE_MISMATCH", "连接两端端口不兼容");
                    },
                },
            },
        },
    }
    assert(issue_views(final(issues)@) =~= issue_views(old(issues)@) + endpoint_issues(ns@, *e, i as int));
}

fn edge_check(ns: &Vec<Node>, es: &Vec<Edge>, i: usize, issues: &mut Vec<ValidationIssue>)
    requires
        i < es@.len(),
    ensures
        issue_views(final(issues)@) == issue_views(old(issues)@) + edge_issues(ns@, es@, i as int),
{
    reveal(edge_issues);
    proof {
        reveal_strlit("");
    }
    let ghost start = issue_views(issues@);
    let e = &es[i];
    let (id_seen, conn_seen) = edge_seen(es, i);
    push_if(issues, text::is_blank_str(e.id.as_str()) || id_seen, edge_path_exec(i, ".id"), "DUPLICATE", "连接 ID 不能为空且必须唯一");
    push_if(issues, e.enabled && conn_seen, edge_path_exec(i, ""), "DUPLICATE_CONNECTION", "同一对端口之间不允许重复连接");
    push_if(issues, e.from.node == e.to.node, edge_path_exec(i, ""), "SELF_LOOP", "节点不能连接到自身");
    endpoint_check(ns, e, i, issues);
    assert(issue_views(issues@) =~= start + edge_issues(ns@, es@, i as int));
}

/// The topological order of the nodes over the enabled edges.
pub fn topological_order(nodes: &Vec<Node>, edges: &Vec<Edge>) -> (r: Vec<String>)
    ensures
        str_views(r@) == graph_order(nodes@, edges@),
{
    let mut ids: Vec<String> = Vec::new();
    let mut i: usize = 0;
    while i < nodes.len()
        invariant
            i <= nodes@.len(),
            str_views(ids@) == node_ids(nodes@).take(i as int),
        decreases nodes.len() - i,
    {
        let ghost before = str_views(ids@);
        ids.push(nodes[i].id.clone());
        assert(str_views(ids@) =~= before.push(nodes@[i as int].id@));
        assert(node_ids(nodes@).take(i + 1) =~= node_ids(nodes@).take(i as int).push(nodes@[i as int].id@));
        i = i + 1;
    }
    assert(node_ids(nodes@).take(nodes@.len() as int) =~= node_ids(nodes@));
    let mut links: Vec<(String, String)> = Vec::new();
    let mut k: usize = 0;
    assert(edges@.take(0) =~= seq![]);
    while k < edges.len()
        invariant
            k <= edges@.len(),
            link_views(links@) == enabled_links(edges@.take(k as int)),
        decreases edges.len() - k,
    {
        assert(edges@.take(k + 1).drop_last() =~= edges@.take(k as int));
        if edges[k].enabled {
            let ghost before = link_views(links@);
            links.push((edges[k].from.node.clone(), edges[k].to.node.clone()));
            assert(link_views(links@) =~= before.push((edges@[k as int].from.node@, edges@[k as int].to.node@)));
        }
        k = k + 1;
    }
    assert(edges@.take(edges@.len() as int) =~= edges@);
    kahn_order(&ids, &links)
}

/// Whether a summary describes a graph that validated.
pub open spec fn graph_summary_is(s: GraphSummary, g: WorkflowGraph) -> bool {
    &&& s.node_count == g.nodes@.len()
    &&& s.edge_count == g.edges@.len()
    &&& s.enabled_node_count == count_nodes(g.nodes@, g.nodes@.len() as int, false)
    &&& s.publisher_count == count_nodes(g.nodes@, g.nodes@.len() as int, true)
    &&& str_views(s.topological_order@) == graph_order(g.nodes@, g.edges@)
}

fn count_exec(ns: &Vec<Node>, publishers_only: bool) -> (r: usize)
    ensures
        r == count_nodes(ns@, ns@.len() as int, publishers_only),
{
    let mut n: usize = 0;
    let mut i: usize = 0;
    while i < ns.len()
        invariant
            i <= ns@.len(),
            n == count_nodes(ns@, i as int, publishers_only),
            n <= i,
        decreases ns.len() - i,
    {
        if (publishers_only && ns[i].kind == NodeKind::Publisher) || (!publishers_only && ns[i].enabled) {
            n = n + 1;
        }
        i = i + 1;
    }
    n
}

impl WorkflowGraph {
    /// Validates the graph's structure: schema, unique non-blank node, port
    /// and edge ids, each node's fixed port contract and configuration,
    /// edges between existing ports of compatible kinds, and no cycle. A
    /// valid graph is summarised with its topological order.
    pub fn validate(&self) -> (r: Result<GraphSummary, CoreError>)
        ensures
            match r {
                Ok(s) => graph_issues(*self).len() == 0 && graph_summary_is(s, *self),
                Err(e) => graph_issues(*self).len() > 0 && e.code == ErrorCode::GraphInvalid && e.message@
                    == "编组图校验失败"@ && e@.issues == graph_issues(*self),
            },
    {
        let mut issues: Vec<ValidationIssue> = Vec::new();
        assert(issue_views(issues@) =~= seq![]);
        push_if(&mut issues, self.schema_version != GRAPH_SCHEMA_VERSION, text::owned("schema_version"), "UNSUPPORTED_SCHEMA", "编组图 Schema 版本不受支持");
        push_if(&mut issues, text::is_blank_str(self.id.as_str()), text::owned("id"), "REQUIRED", "编组图 ID 不能为空");
        let ghost s1 = issue_views(issues@);
        let mut i: usize = 0;
        while i < self.nodes.len()
            invariant
                i <= self.nodes@.len(),
                issue_views(issues@) == s1 + nodes_issues(self.nodes@, i as int),
            decreases self.nodes.len() - i,
        {
            node_check(&self.nodes, i, &mut issues);
            assert(issue_views(issues@) =~= s1 + nodes_issues(self.nodes@, i + 1));
            i = i + 1;
        }
        let ghost s2 = issue_views(issues@);
        let mut k: usize = 0;
        while k < self.edges.len()
            invariant
                k <= self.edges@.len(),
                issue_views(issues@) == s2 + edges_issues(self.nodes@, self.edges@, k as int),
            decreases self.edges.len() - k,
        {
            edge_check(&self.nodes, &self.edges, k, &mut issues);
            assert(issue_views(issues@) =~= s2 + edges_issues(self.nodes@, self.edges@, k + 1));
            k = k + 1;
        }
        let order = topological_order(&self.nodes, &self.edges);
        push_if(&mut issues, order.len() != self.nodes.len(), text::owned("edges"), "CYCLE_DETECTED", "编组图不允许环路");
        assert(issue_views(issues@) =~= graph_issues(*self));
        if issues.len() == 0 {
            Ok(GraphSummary {
                node_count: self.nodes.len(),
                edge_count: self.edges.len(),
                enabled_node_count: count_exec(&self.nodes, false),
                publisher_count: count_exec(&self.nodes, true),
                topological_order: order,
            })
        } else {
            Err(CoreError::validation(ErrorCode::GraphInvalid, "编组图校验失败", issues))
        }
    }
}

} // verus!
