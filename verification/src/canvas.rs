//! Checks of a canvas graph beyond its structure: which enabled nodes can
//! reach the publisher, whether the service-plan chain is a single line,
//! whether probes are bound and in range, and the middleware order.
use crate::graph::{
    graph_order, MiddlewareConfig, MiddlewareKind, Node, NodeConfig, NodeKind, PortType, ProbeConfig,
    Edge,
};
use crate::sort::{sort_strings, str_views};
use crate::text::{self, decimal};
use crate::topology::{lemma_sorted_of, sorted_of};
use vstd::prelude::*;

verus! {

#[derive(Debug, Clone, Copy, PartialEq, Eq, Structural)]
pub enum IssueSeverity {
    Error,
    Warning,
}

/// A finding of canvas compilation, tied to a node when it concerns one.
#[derive(Debug, Clone, PartialEq, Eq)]
pub struct CompilationIssue {
    pub code: String,
    pub severity: IssueSeverity,
    pub message: String,
    pub node_id: Option<String>,
    pub edge_id: Option<String>,
    pub field: Option<String>,
    pub fix_target: Option<String>,
}

pub struct CIssueView {
    pub code: Seq<char>,
    pub severity: IssueSeverity,
    pub message: Seq<char>,
    pub node_id: Option<Seq<char>>,
    pub edge_id: Option<Seq<char>>,
    pub field: Option<Seq<char>>,
    pub fix_target: Option<Seq<char>>,
}

pub open spec fn ov(o: Option<String>) -> Option<Seq<char>> {
    match o {
        Some(s) => Some(s@),
        None => None,
    }
}

impl View for CompilationIssue {
    type V = CIssueView;

    open spec fn view(&self) -> CIssueView {
        CIssueView {
            code: self.code@,
            severity: self.severity,
            message: self.message@,
            node_id: ov(self.node_id),
            edge_id: ov(self.edge_id),
            field: ov(self.field),
            fix_target: ov(self.fix_target),
        }
    }
}

pub open spec fn cissue_views(v: Seq<CompilationIssue>) -> Seq<CIssueView> {
    v.map_values(|i: CompilationIssue| i@)
}

/// An error finding, pointing at `node:{id}` when it concerns a node.
pub open spec fn error_view(code: Seq<char>, message: Seq<char>, node: Option<Seq<char>>) -> CIssueView {
    CIssueView {
        code,
        severity: IssueSeverity::Error,
        message,
        node_id: node,
        edge_id: None,
        field: None,
        fix_target: match node {
            Some(id) => Some("node:"@ + id),
            None => None,
        },
    }
}

pub open spec fn opt_error(cond: bool, i: CIssueView) -> Seq<CIssueView> {
    if cond {
        seq![i]
    } else {
        seq![]
    }
}

impl CompilationIssue {
    pub fn error(code: &str, message: &str, node_id: Option<&str>) -> (r: Self)
        ensures
            r@ == error_view(
                code@,
                message@,
                match node_id {
                    Some(n) => Some(n@),
                    None => None,
                },
            ),
    {
        let fix_target = match node_id {
            Some(id) => {
                let mut t = text::owned("node:");
                text::push_str(&mut t, id);
                Some(t)
            },
            None => None,
        };
        CompilationIssue {
            code: text::owned(code),
            severity: IssueSeverity::Error,
            message: text::owned(message),
            node_id: match node_id {
                Some(id) => Some(text::owned(id)),
                None => None,
            },
            edge_id: None,
            field: None,
            fix_target,
        }
    }
}

pub fn push_error(errors: &mut Vec<CompilationIssue>, cond: bool, code: &str, message: &str, node_id: Option<&str>)
    ensures
        cissue_views(final(errors)@) == cissue_views(old(errors)@) + opt_error(
            cond,
            error_view(
                code@,
                message@,
                match node_id {
                    Some(n) => Some(n@),
                    None => None,
                },
            ),
        ),
{
    if cond {
        errors.push(CompilationIssue::error(code, message, node_id));
    }
    assert(cissue_views(final(errors)@) =~= cissue_views(old(errors)@) + opt_error(
        cond,
        error_view(
            code@,
            message@,
            match node_id {
                Some(n) => Some(n@),
                None => None,
            },
        ),
    ));
}

/// Whether `x` reaches the target `t` by at most `k` enabled edges taken
/// backwards from `t`: `x` is `t`, or an enabled edge leads from `x` to a
/// node that does.
pub open spec fn reaches_within(es: Seq<Edge>, x: Seq<char>, t: Seq<char>, k: nat) -> bool
    decreases k,
{
    if k == 0 {
        x == t
    } else {
        reaches_within(es, x, t, (k - 1) as nat) || exists|i: int|
            0 <= i < es.len() && #[trigger] es[i].enabled && es[i].from.node@ == x && reaches_within(
                es,
                es[i].to.node@,
                t,
                (k - 1) as nat,
            )
    }
}

/// Whether an enabled path leads from `x` to `t`. A path that repeats no
/// edge has at most as many steps as there are edges.
pub open spec fn reaches(es: Seq<Edge>, x: Seq<char>, t: Seq<char>) -> bool {
    reaches_within(es, x, t, es.len())
}

pub open spec fn first_enabled_publisher(ns: Seq<Node>) -> Option<int> {
    if exists|k: int| 0 <= k < ns.len() && ns[k].kind == NodeKind::Publisher && ns[k].enabled {
        Some(choose|k: int| 0 <= k < ns.len() && ns[k].kind == NodeKind::Publisher && ns[k].enabled && forall|m: int|
            0 <= m < k ==> !(ns[m].kind == NodeKind::Publisher && ns[m].enabled))
    } else {
        None
    }
}

/// The ids of enabled, non-group nodes for which `keep` holds, in node order.
pub open spec fn active_ids(ns: Seq<Node>, es: Seq<Edge>, target: Option<Seq<char>>, n: int) -> Seq<Seq<char>>
    decreases n,
{
    if n <= 0 {
        seq![]
    } else {
        let rest = active_ids(ns, es, target, n - 1);
        let node = ns[n - 1];
        if node.enabled && node.kind != NodeKind::Group && match target {
            Some(t) => !reaches(es, node.id@, t),
            None => true,
        } {
            rest.push(node.id@)
        } else {
            rest
        }
    }
}

/// The enabled nodes that cannot reach the first enabled publisher, sorted;
/// every enabled non-group node in node order when there is no enabled
/// publisher.
pub open spec fn unreachable_nodes(ns: Seq<Node>, es: Seq<Edge>) -> Seq<Seq<char>> {
    match first_enabled_publisher(ns) {
        None => active_ids(ns, es, None, ns.len() as int),
        Some(p) => sorted_of(active_ids(ns, es, Some(ns[p].id@), ns.len() as int)),
    }
}

fn contains_str(v: &Vec<String>, x: &String) -> (r: bool)
    ensures
        r == str_views(v@).contains(x@),
{
    let mut i: usize = 0;
    while i < v.len()
        invariant
            i <= v@.len(),
            forall|k: int| 0 <= k < i ==> v@[k]@ != x@,
        decreases v.len() - i,
    {
        if v[i] == *x {
            assert(str_views(v@)[i as int] == x@);
            return true;
        }
        i = i + 1;
    }
    proof {
        if str_views(v@).contains(x@) {
            let k = choose|k: int| 0 <= k < str_views(v@).len() && str_views(v@)[k] == x@;
            assert(v@[k]@ == x@);
        }
    }
    false
}

/// The ids that reach `t` within `k` steps, as a list.
pub(crate) fn reach_set(es: &Vec<Edge>, t: &String, k: usize) -> (r: Vec<String>)
    ensures
        forall|x: Seq<char>| str_views(r@).contains(x) <==> reaches_within(es@, x, t@, k as nat),
    decreases k,
{
    if k == 0 {
        let mut r: Vec<String> = Vec::new();
        r.push(t.clone());
        assert forall|x: Seq<char>| str_views(r@).contains(x) <==> reaches_within(es@, x, t@, 0) by {
            if x == t@ {
                assert(str_views(r@)[0] == x);
            }
        }
        return r;
    }
    let prev = reach_set(es, t, k - 1);
    let mut r: Vec<String> = Vec::new();
    let mut i: usize = 0;
    while i < prev.len()
        invariant
            i <= prev@.len(),
            str_views(r@) == str_views(prev@).take(i as int),
        decreases prev.len() - i,
    {
        let ghost before = str_views(r@);
        r.push(prev[i].clone());
        assert(str_views(r@) =~= before.push(prev@[i as int]@));
        assert(str_views(prev@).take(i + 1) =~= str_views(prev@).take(i as int).push(prev@[i as int]@));
        i = i + 1;
    }
    assert(str_views(prev@).take(prev@.len() as int) =~= str_views(prev@));
    let mut e: usize = 0;
    while e < es.len()
        invariant
            e <= es@.len(),
            forall|x: Seq<char>| str_views(prev@).contains(x) <==> reaches_within(es@, x, t@, (k - 1) as nat),
            forall|x: Seq<char>| #![trigger str_views(r@).contains(x)]
                str_views(r@).contains(x) <==> (str_views(prev@).contains(x) || exists|j: int|
                    0 <= j < e && #[trigger] es@[j].enabled && es@[j].from.node@ == x && str_views(prev@).contains(
                        es@[j].to.node@,
                    )),
        decreases es.len() - e,
    {
        let ghost before = str_views(r@);
        if es[e].enabled && contains_str(&prev, &es[e].to.node) && !contains_str(&r, &es[e].from.node) {
            r.push(es[e].from.node.clone());
            assert(str_views(r@) =~= before.push(es@[e as int].from.node@));
        }
        assert forall|x: Seq<char>| #![trigger str_views(r@).contains(x)]
            str_views(r@).contains(x) <==> (str_views(prev@).contains(x) || exists|j: int|
                0 <= j < e + 1 && #[trigger] es@[j].enabled && es@[j].from.node@ == x && str_views(prev@).contains(
                    es@[j].to.node@,
                )) by {
            if str_views(r@).contains(x) && !before.contains(x) {
                let m = choose|m: int| 0 <= m < str_views(r@).len() && str_views(r@)[m] == x;
                if m < before.len() {
                    assert(before[m] == x);
                }
                assert(es@[e as int].from.node@ == x);
            }
            if before.contains(x) {
                let m = choose|m: int| 0 <= m < before.len() && before[m] == x;
                assert(str_views(r@)[m] == x);
            }
            if exists|j: int|
                0 <= j < e + 1 && #[trigger] es@[j].enabled && es@[j].from.node@ == x && str_views(prev@).contains(
                    es@[j].to.node@,
                ) {
                let j = choose|j: int|
                    0 <= j < e + 1 && #[trigger] es@[j].enabled && es@[j].from.node@ == x && str_views(prev@).contains(
                        es@[j].to.node@,
                    );
                if j == e && !before.contains(x) {
                    assert(str_views(r@)[before.len() as int] == x);
                }
            }
        }
        e = e + 1;
    }
    assert forall|x: Seq<char>| str_views(r@).contains(x) <==> reaches_within(es@, x, t@, k as nat) by {
        if exists|j: int|
            0 <= j < es@.len() && #[trigger] es@[j].enabled && es@[j].from.node@ == x && reaches_within(
                es@,
                es@[j].to.node@,
                t@,
                (k - 1) as nat,
            ) {
            let j = choose|j: int|
                0 <= j < es@.len() && #[trigger] es@[j].enabled && es@[j].from.node@ == x && reaches_within(
                    es@,
                    es@[j].to.node@,
                    t@,
                    (k - 1) as nat,
                );
            assert(str_views(prev@).contains(es@[j].to.node@));
        }
    }
    r
}

fn collect_active(ns: &Vec<Node>, es: &Vec<Edge>, reach: Option<&Vec<String>>, target: Ghost<Option<Seq<char>>>) -> (r: Vec<String>)
    requires
        match target@ {
            Some(t) => reach matches Some(v) && forall|x: Seq<char>| str_views(v@).contains(x) <==> reaches(es@, x, t),
            None => reach is None,
        },
    ensures
        str_views(r@) == active_ids(ns@, es@, target@, ns@.len() as int),
{
    let mut r: Vec<String> = Vec::new();
    let mut i: usize = 0;
    while i < ns.len()
        invariant
            i <= ns@.len(),
            match target@ {
                Some(t) => reach matches Some(v) && forall|x: Seq<char>| str_views(v@).contains(x) <==> reaches(es@, x, t),
                None => reach is None,
            },
            str_views(r@) == active_ids(ns@, es@, target@, i as int),
        decreases ns.len() - i,
    {
        let keep = ns[i].enabled && ns[i].kind != NodeKind::Group && match reach {
            Some(v) => !contains_str(v, &ns[i].id),
            None => true,
        };
        if keep {
            let ghost before = str_views(r@);
            r.push(ns[i].id.clone());
            assert(str_views(r@) =~= before.push(ns@[i as int].id@));
        }
        i = i + 1;
    }
    r
}

fn find_enabled_publisher(ns: &Vec<Node>) -> (r: Option<usize>)
    ensures
        match r {
            Some(p) => first_enabled_publisher(ns@) == Some(p as int) && p < ns@.len(),
            None => first_enabled_publisher(ns@) is None,
        },
{
    let mut p: usize = 0;
    while p < ns.len()
        invariant
            p <= ns@.len(),
            forall|m: int| 0 <= m < p ==> !(ns@[m].kind == NodeKind::Publisher && ns@[m].enabled),
        decreases ns.len() - p,
    {
        if ns[p].kind == NodeKind::Publisher && ns[p].enabled {
            proof {
                let w = choose|k: int| 0 <= k < ns@.len() && ns@[k].kind == NodeKind::Publisher && ns@[k].enabled && forall|m: int|
                    0 <= m < k ==> !(ns@[m].kind == NodeKind::Publisher && ns@[m].enabled);
                if w > p {
                    assert(ns@[p as int].kind == NodeKind::Publisher && ns@[p as int].enabled);
                }
            }
            return Some(p);
        }
        p = p + 1;
    }
    None
}

/// The enabled nodes that cannot reach the publisher.
pub fn enabled_unreachable_nodes(ns: &Vec<Node>, es: &Vec<Edge>) -> (r: Vec<String>)
    ensures
        str_views(r@) == unreachable_nodes(ns@, es@),
{
    let p = match find_enabled_publisher(ns) {
        None => {
            return collect_active(ns, es, None, Ghost(None));
        },
        Some(p) => p,
    };
    let reach = reach_set(es, &ns[p].id, es.len());
    let active = collect_active(ns, es, Some(&reach), Ghost(Some(ns@[p as int].id@)));
    let ghost av = str_views(active@);
    let sorted = sort_strings(active);
    proof {
        lemma_sorted_of(str_views(sorted@), av);
    }
    sorted
}

/// The index of the first node with an id.
pub open spec fn first_node(ns: Seq<Node>, id: Seq<char>) -> Option<int> {
    if exists|k: int| 0 <= k < ns.len() && ns[k].id@ == id {
        Some(choose|k: int| 0 <= k < ns.len() && ns[k].id@ == id && forall|m: int| 0 <= m < k ==> ns[m].id@ != id)
    } else {
        None
    }
}

pub(crate) fn find_first_node(ns: &Vec<Node>, id: &String) -> (r: Option<usize>)
    ensures
        match r {
            Some(k) => first_node(ns@, id@) == Some(k as int) && k < ns@.len(),
            None => first_node(ns@, id@) is None,
        },
{
    let mut k: usize = 0;
    while k < ns.len()
        invariant
            k <= ns@.len(),
            forall|m: int| 0 <= m < k ==> ns@[m].id@ != id@,
        decreases ns.len() - k,
    {
        if ns[k].id == *id {
            proof {
                let w = choose|w: int| 0 <= w < ns@.len() && ns@[w].id@ == id@ && forall|m: int| 0 <= m < w ==> ns@[m].id@ != id@;
                if w > k {
                    assert(ns@[k as int].id@ == id@);
                }
            }
            return Some(k);
        }
        k = k + 1;
    }
    None
}

/// The data type of an edge's source port: the first output of the first
/// node with the edge's source id.
#[verifier::opaque]
pub open spec fn edge_port_type(ns: Seq<Node>, e: Edge) -> Option<PortType> {
    match first_node(ns, e.from.node@) {
        None => None,
        Some(k) => match crate::graph::port_lookup(ns[k].outputs@, e.from.port@) {
            None => None,
            Some(p) => Some(ns[k].outputs@[p].data_type),
        },
    }
}

pub open spec fn is_service_edge(ns: Seq<Node>, e: Edge) -> bool {
    e.enabled && edge_port_type(ns, e) == Some(PortType::ServicePlan)
}

/// How many service-plan edges end (`incoming`) or start at a node.
pub open spec fn service_degree(ns: Seq<Node>, es: Seq<Edge>, id: Seq<char>, incoming: bool, n: int) -> nat
    decreases n,
{
    if n <= 0 {
        0
    } else {
        service_degree(ns, es, id, incoming, n - 1) + if is_service_edge(ns, es[n - 1]) && ((incoming
            && es[n - 1].to.node@ == id) || (!incoming && es[n - 1].from.node@ == id)) {
            1nat
        } else {
            0nat
        }
    }
}

/// The finding for one node of the service-plan chain.
pub open spec fn chain_issue(ns: Seq<Node>, es: Seq<Edge>, node: Node) -> Seq<CIssueView> {
    let incoming = service_degree(ns, es, node.id@, true, es.len() as int);
    let outgoing = service_degree(ns, es, node.id@, false, es.len() as int);
    if !node.enabled {
        seq![]
    } else if node.kind == NodeKind::Composer && outgoing != 1 {
        seq![error_view("SERVICE_PLAN_BRANCH"@, "Composer 必须且只能输出一条 ServicePlan。"@, Some(node.id@))]
    } else if node.kind == NodeKind::Middleware && (incoming != 1 || outgoing != 1) {
        seq![error_view("MIDDLEWARE_CHAIN"@, "Middleware 必须位于单一 ServicePlan 链中。"@, Some(node.id@))]
    } else if node.kind == NodeKind::Publisher && incoming != 1 {
        seq![error_view("PUBLISHER_INPUT"@, "Publisher 必须且只能接收一条 ServicePlan。"@, Some(node.id@))]
    } else {
        seq![]
    }
}

pub open spec fn chain_issues(ns: Seq<Node>, es: Seq<Edge>, n: int) -> Seq<CIssueView>
    decreases n,
{
    if n <= 0 {
        seq![]
    } else {
        chain_issues(ns, es, n - 1) + chain_issue(ns, es, ns[n - 1])
    }
}

fn service_edge_exec(ns: &Vec<Node>, e: &Edge) -> (r: bool)
    ensures
        r == is_service_edge(ns@, *e),
{
    reveal(edge_port_type);
    if !e.enabled {
        return false;
    }
    match find_first_node(ns, &e.from.node) {
        None => false,
        Some(k) => {
            let outputs = &ns[k].outputs;
            let mut p: usize = 0;
            while p < outputs.len()
                invariant
                    p <= outputs@.len(),
                    k < ns@.len(),
                    e.enabled,
                    first_node(ns@, e.from.node@) == Some(k as int),
                    outputs@ == ns@[k as int].outputs@,
                    forall|m: int| 0 <= m < p ==> outputs@[m].id@ != e.from.port@,
                decreases outputs.len() - p,
            {
                if outputs[p].id == e.from.port {
                    proof {
                        let w = choose|w: int| 0 <= w < outputs@.len() && outputs@[w].id@ == e.from.port@ && forall|m: int| 0 <= m < w ==> outputs@[m].id@ != e.from.port@;
                        if w > p {
                            assert(outputs@[p as int].id@ == e.from.port@);
                        }
                    }
                    assert(crate::graph::port_lookup(outputs@, e.from.port@) == Some(p as int));
                    proof {
                        reveal(edge_port_type);
                    }
                    return outputs[p].data_type == PortType::ServicePlan;
                }
                p = p + 1;
            }
            proof {
                reveal(edge_port_type);
            }
            false
        },
    }
}

fn service_degree_exec(ns: &Vec<Node>, es: &Vec<Edge>, id: &String, incoming: bool) -> (r: usize)
    ensures
        r == service_degree(ns@, es@, id@, incoming, es@.len() as int),
{
    let mut n: usize = 0;
    let mut i: usize = 0;
    while i < es.len()
        invariant
            i <= es@.len(),
            n == service_degree(ns@, es@, id@, incoming, i as int),
            n <= i,
        decreases es.len() - i,
    {
        if service_edge_exec(ns, &es[i]) && ((incoming && es[i].to.node == *id) || (!incoming && es[i].from.node == *id)) {
            n = n + 1;
        }
        i = i + 1;
    }
    n
}

/// Checks that composers, middleware and the publisher form one
/// service-plan line.
pub fn validate_service_plan_chain(ns: &Vec<Node>, es: &Vec<Edge>, errors: &mut Vec<CompilationIssue>)
    ensures
        cissue_views(final(errors)@) == cissue_views(old(errors)@) + chain_issues(ns@, es@, ns@.len() as int),
{
    let ghost start = cissue_views(errors@);
    let mut i: usize = 0;
    while i < ns.len()
        invariant
            i <= ns@.len(),
            cissue_views(errors@) == start + chain_issues(ns@, es@, i as int),
        decreases ns.len() - i,
    {
        let node = &ns[i];
        let ghost before = cissue_views(errors@);
        if node.enabled {
            let incoming = service_degree_exec(ns, es, &node.id, true);
            let outgoing = service_degree_exec(ns, es, &node.id, false);
            if node.kind == NodeKind::Composer && outgoing != 1 {
                errors.push(CompilationIssue::error("SERVICE_PLAN_BRANCH", "Composer 必须且只能输出一条 ServicePlan。", Some(node.id.as_str())));
            } else if node.kind == NodeKind::Middleware && (incoming != 1 || outgoing != 1) {
                errors.push(CompilationIssue::error("MIDDLEWARE_CHAIN", "Middleware 必须位于单一 ServicePlan 链中。", Some(node.id.as_str())));
            } else if node.kind == NodeKind::Publisher && incoming != 1 {
                errors.push(CompilationIssue::error("PUBLISHER_INPUT", "Publisher 必须且只能接收一条 ServicePlan。", Some(node.id.as_str())));
            }
        }
        assert(cissue_views(errors@) =~= before + chain_issue(ns@, es@, ns@[i as int]));
        assert(cissue_views(errors@) =~= start + chain_issues(ns@, es@, i + 1));
        i = i + 1;
    }
}

/// The plain content of a probe configuration.
pub struct ProbeView {
    pub provider_node_id: Seq<char>,
    pub interval_seconds: u64,
    pub timeout_ms: u64,
    pub failure_threshold: u32,
    pub recovery_threshold: u32,
    pub safe_only: bool,
}

pub open spec fn probe_view(c: ProbeConfig) -> ProbeView {
    ProbeView {
        provider_node_id: c.provider_node_id@,
        interval_seconds: c.interval_seconds,
        timeout_ms: c.timeout_ms,
        failure_threshold: c.failure_threshold,
        recovery_threshold: c.recovery_threshold,
        safe_only: c.safe_only,
    }
}

pub open spec fn probe_views(v: Seq<ProbeConfig>) -> Seq<ProbeView> {
    v.map_values(|c: ProbeConfig| probe_view(c))
}

impl ProbeConfig {
    pub fn duplicate(&self) -> (r: Self)
        ensures
            probe_view(r) == probe_view(*self),
    {
        ProbeConfig {
            provider_node_id: self.provider_node_id.clone(),
            interval_seconds: self.interval_seconds,
            timeout_ms: self.timeout_ms,
            failure_threshold: self.failure_threshold,
            recovery_threshold: self.recovery_threshold,
            safe_only: self.safe_only,
        }
    }
}

pub open spec fn has_provider_node(ns: Seq<Node>, id: Seq<char>) -> bool {
    exists|k: int| 0 <= k < ns.len() && ns[k].kind == NodeKind::Provider && #[trigger] ns[k].id@ == id
}

/// The findings for one probe configuration.
pub open spec fn probe_issue(ns: Seq<Node>, node: Node, c: ProbeConfig) -> Seq<CIssueView> {
    opt_error(
        c.provider_node_id@.len() == 0 || !has_provider_node(ns, c.provider_node_id@),
        error_view("PROBE_BINDING"@, "Probe 必须绑定一个存在的 Provider 节点。"@, Some(node.id@)),
    ) + opt_error(
        !(30 <= c.interval_seconds <= 86_400) || !(1_000 <= c.timeout_ms <= 60_000) || c.failure_threshold == 0
            || c.recovery_threshold == 0,
        error_view("PROBE_RANGE"@, "Probe 周期、超时和阈值超出安全范围。"@, Some(node.id@)),
    )
}

/// The findings and the configurations of the enabled probes among the
/// first `n` nodes.
pub open spec fn probes_of(ns: Seq<Node>, n: int) -> (Seq<CIssueView>, Seq<ProbeView>)
    decreases n,
{
    if n <= 0 {
        (seq![], seq![])
    } else {
        let rest = probes_of(ns, n - 1);
        let node = ns[n - 1];
        if node.kind == NodeKind::Probe && node.enabled {
            match node.config {
                NodeConfig::Probe(c) => (rest.0 + probe_issue(ns, node, c), rest.1.push(probe_view(c))),
                _ => rest,
            }
        } else {
            rest
        }
    }
}

fn has_provider_exec(ns: &Vec<Node>, id: &String) -> (r: bool)
    ensures
        r == has_provider_node(ns@, id@),
{
    let mut k: usize = 0;
    while k < ns.len()
        invariant
            k <= ns@.len(),
            forall|m: int| 0 <= m < k ==> !(ns@[m].kind == NodeKind::Provider && #[trigger] ns@[m].id@ == id@),
        decreases ns.len() - k,
    {
        if ns[k].kind == NodeKind::Provider && ns[k].id == *id {
            return true;
        }
        k = k + 1;
    }
    false
}

/// Checks every enabled probe's binding and ranges, and returns their
/// configurations.
pub fn validate_probes(ns: &Vec<Node>, errors: &mut Vec<CompilationIssue>) -> (r: Vec<ProbeConfig>)
    ensures
        cissue_views(final(errors)@) == cissue_views(old(errors)@) + probes_of(ns@, ns@.len() as int).0,
        probe_views(r@) == probes_of(ns@, ns@.len() as int).1,
{
    let ghost start = cissue_views(errors@);
    let mut probes: Vec<ProbeConfig> = Vec::new();
    let mut i: usize = 0;
    while i < ns.len()
        invariant
            i <= ns@.len(),
            cissue_views(errors@) == start + probes_of(ns@, i as int).0,
            probe_views(probes@) == probes_of(ns@, i as int).1,
        decreases ns.len() - i,
    {
        let node = &ns[i];
        if node.kind == NodeKind::Probe && node.enabled {
            match &node.config {
                NodeConfig::Probe(c) => {
                    let ghost before = cissue_views(errors@);
                    let bad_binding = c.provider_node_id.as_str().unicode_len() == 0 || !has_provider_exec(ns, &c.provider_node_id);
                    push_error(errors, bad_binding, "PROBE_BINDING", "Probe 必须绑定一个存在的 Provider 节点。", Some(node.id.as_str()));
                    let bad_range = !(30 <= c.interval_seconds && c.interval_seconds <= 86_400) || !(1_000 <= c.timeout_ms
                        && c.timeout_ms <= 60_000) || c.failure_threshold == 0 || c.recovery_threshold == 0;
                    push_error(errors, bad_range, "PROBE_RANGE", "Probe 周期、超时和阈值超出安全范围。", Some(node.id.as_str()));
                    assert(cissue_views(errors@) =~= start + probes_of(ns@, i as int).0 + probe_issue(ns@, *node, *c));
                    let ghost pb = probe_views(probes@);
                    probes.push(c.duplicate());
                    assert(probe_views(probes@) =~= pb.push(probe_view(*c)));
                },
                _ => {},
            }
        }
        i = i + 1;
    }
    probes
}

/// The ids of the topological order that name an enabled middleware node.
pub open spec fn middleware_ids(ns: Seq<Node>, order: Seq<Seq<char>>, n: int) -> Seq<Seq<char>>
    decreases n,
{
    if n <= 0 {
        seq![]
    } else {
        let rest = middleware_ids(ns, order, n - 1);
        if exists|k: int| 0 <= k < ns.len() && #[trigger] ns[k].id@ == order[n - 1] && ns[k].enabled && ns[k].kind
            == NodeKind::Middleware {
            rest.push(order[n - 1])
        } else {
            rest
        }
    }
}

/// The middleware of a canvas in execution order.
pub open spec fn middleware_order_of(ns: Seq<Node>, es: Seq<Edge>) -> Seq<Seq<char>> {
    middleware_ids(ns, graph_order(ns, es), graph_order(ns, es).len() as int)
}

fn is_enabled_middleware(ns: &Vec<Node>, id: &String) -> (r: bool)
    ensures
        r == exists|k: int| 0 <= k < ns@.len() && #[trigger] ns@[k].id@ == id@ && ns@[k].enabled && ns@[k].kind
            == NodeKind::Middleware,
{
    let mut k: usize = 0;
    while k < ns.len()
        invariant
            k <= ns@.len(),
            forall|m: int| 0 <= m < k ==> !(#[trigger] ns@[m].id@ == id@ && ns@[m].enabled && ns@[m].kind
                == NodeKind::Middleware),
        decreases ns.len() - k,
    {
        if ns[k].id == *id && ns[k].enabled && ns[k].kind == NodeKind::Middleware {
            return true;
        }
        k = k + 1;
    }
    false
}

/// The ids of the enabled middleware, in topological order.
pub fn middleware_order(ns: &Vec<Node>, es: &Vec<Edge>) -> (r: Vec<String>)
    ensures
        str_views(r@) == middleware_order_of(ns@, es@),
{
    let order = crate::graph::topological_order(ns, es);
    let ghost ov = str_views(order@);
    let mut r: Vec<String> = Vec::new();
    let mut i: usize = 0;
    while i < order.len()
        invariant
            i <= order@.len(),
            ov == str_views(order@),
            str_views(r@) == middleware_ids(ns@, ov, i as int),
        decreases order.len() - i,
    {
        if is_enabled_middleware(ns, &order[i]) {
            let ghost before = str_views(r@);
            r.push(order[i].clone());
            assert(str_views(r@) =~= before.push(order@[i as int]@));
        }
        i = i + 1;
    }
    r
}

} // verus!
