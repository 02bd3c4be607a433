//! Starting a managed instance: an audited direct endpoint is enabled once
//! its token and secrets are in place; a canvas's publisher takes the
//! routes its graph compiles to, the graph becomes the applied one, and
//! the publisher is enabled.
use crate::canvas::probe_view;
use crate::compile::{compile_canvas_graph, compiled_is, mw_view, route_spec_views, CompiledCanvasGraph};
use crate::control_center::{canvas_asset_ids, provider_asset_ids};
use crate::desktop::{parse_managed_instance_id, parsed_managed_id, ManagedInstanceKind};
use crate::graph::{
    graph_issues, Edge, Endpoint, GroupConfig, Node, NodeConfig, Port, ProviderConfig, PublisherNodeConfig, WorkflowGraph,
};
use crate::host_state::{entry_index, key_index, lemma_key_index, provider_secret_reasons, secret_reasons};
use crate::runtime::RuntimePublisher;
use crate::sort::str_views;
use crate::stream::{join, opt_view};
use crate::text::{self, seq_lt};
use crate::wallet::replaced_at;
use crate::workspace::{Canvas, DirectEndpoint, Project, WorkspacePackage};
use vstd::prelude::*;

verus! {

// ---- Copying a graph ----
pub open spec fn same_ports(a: Seq<Port>, b: Seq<Port>) -> bool {
    a.len() == b.len() && forall|i: int| 0 <= i < a.len() ==> (#[trigger] a[i]).id@ == b[i].id@ && a[i].data_type == b[i].data_type
}

/// Two node configurations that hold the same values.
pub open spec fn same_config(a: NodeConfig, b: NodeConfig) -> bool {
    match (a, b) {
        (NodeConfig::Provider(x), NodeConfig::Provider(y)) => x.asset_id@ == y.asset_id@ && str_views(x.selected_models@)
            == str_views(y.selected_models@),
        (NodeConfig::Composer(x), NodeConfig::Composer(y)) => x.strategy == y.strategy && x.timeout_ms == y.timeout_ms
            && x.max_retries == y.max_retries && x.failover_on@ == y.failover_on@ && x.allow_capability_degradation
            == y.allow_capability_degradation && x.latency_hysteresis_ms == y.latency_hysteresis_ms && route_spec_views(x.routes@)
            == route_spec_views(y.routes@),
        (NodeConfig::Middleware(x), NodeConfig::Middleware(y)) => mw_view(x) == mw_view(y),
        (NodeConfig::Probe(x), NodeConfig::Probe(y)) => probe_view(x) == probe_view(y),
        (NodeConfig::Publisher(x), NodeConfig::Publisher(y)) => opt_view(x.publisher_id) == opt_view(y.publisher_id),
        (NodeConfig::Group(x), NodeConfig::Group(y)) => str_views(x.member_ids@) == str_views(y.member_ids@) && x.collapsed
            == y.collapsed,
        _ => false,
    }
}

pub open spec fn same_node(a: Node, b: Node) -> bool {
    &&& a.id@ == b.id@ && a.name@ == b.name@ && a.kind == b.kind && a.enabled == b.enabled
    &&& same_ports(a.inputs@, b.inputs@) && same_ports(a.outputs@, b.outputs@)
    &&& same_config(a.config, b.config)
}

pub open spec fn same_edge(a: Edge, b: Edge) -> bool {
    &&& a.id@ == b.id@ && a.enabled == b.enabled && opt_view(a.label) == opt_view(b.label)
    &&& a.from.node@ == b.from.node@ && a.from.port@ == b.from.port@ && a.to.node@ == b.to.node@ && a.to.port@ == b.to.port@
}

/// Two graphs that hold the same values.
pub open spec fn same_graph(a: WorkflowGraph, b: WorkflowGraph) -> bool {
    &&& a.schema_version == b.schema_version && a.id@ == b.id@
    &&& a.nodes@.len() == b.nodes@.len() && forall|i: int| 0 <= i < a.nodes@.len() ==> same_node(#[trigger] a.nodes@[i], b.nodes@[i])
    &&& a.edges@.len() == b.edges@.len() && forall|i: int| 0 <= i < a.edges@.len() ==> same_edge(#[trigger] a.edges@[i], b.edges@[i])
}

fn copy_strings(v: &Vec<String>) -> (r: Vec<String>)
    ensures
        str_views(r@) == str_views(v@),
{
    let mut r: Vec<String> = Vec::new();
    let mut i: usize = 0;
    while i < v.len()
        invariant
            i <= v@.len(),
            str_views(r@) == str_views(v@).take(i as int),
        decreases v.len() - i,
    {
        let ghost before = str_views(r@);
        let x = v[i].clone();
        r.push(x);
        assert(str_views(r@) =~= before.push(x@));
        assert(str_views(v@).take(i + 1) =~= str_views(v@).take(i as int).push(v@[i as int]@));
        i = i + 1;
    }
    assert(str_views(v@).take(v@.len() as int) =~= str_views(v@));
    r
}

fn copy_ports(v: &Vec<Port>) -> (r: Vec<Port>)
    ensures
        same_ports(r@, v@),
{
    let mut r: Vec<Port> = Vec::new();
    let mut i: usize = 0;
    while i < v.len()
        invariant
            i <= v@.len(),
            r@.len() == i,
            forall|k: int| 0 <= k < i ==> (#[trigger] r@[k]).id@ == v@[k].id@ && r@[k].data_type == v@[k].data_type,
        decreases v.len() - i,
    {
        r.push(Port { id: v[i].id.clone(), data_type: v[i].data_type });
        i = i + 1;
    }
    r
}

fn copy_config(c: &NodeConfig) -> (r: NodeConfig)
    ensures
        same_config(r, *c),
{
    match c {
        NodeConfig::Provider(x) => NodeConfig::Provider(
            ProviderConfig { asset_id: x.asset_id.clone(), selected_models: copy_strings(&x.selected_models) },
        ),
        NodeConfig::Composer(x) => {
            let mut routes: Vec<crate::graph::PublicModelRoute> = Vec::new();
            let mut i: usize = 0;
            while i < x.routes.len()
                invariant
                    i <= x.routes@.len(),
                    route_spec_views(routes@) == route_spec_views(x.routes@).take(i as int),
                decreases x.routes.len() - i,
            {
                let ghost before = route_spec_views(routes@);
                let d = x.routes[i].duplicate();
                routes.push(d);
                assert(route_spec_views(routes@) =~= before.push(crate::compile::route_spec(d)));
                assert(route_spec_views(x.routes@).take(i + 1) =~= route_spec_views(x.routes@).take(i as int).push(
                    crate::compile::route_spec(x.routes@[i as int]),
                ));
                i = i + 1;
            }
            assert(route_spec_views(x.routes@).take(x.routes@.len() as int) =~= route_spec_views(x.routes@));
            let mut failover_on: Vec<crate::routing::StandardError> = Vec::new();
            let mut j: usize = 0;
            while j < x.failover_on.len()
                invariant
                    j <= x.failover_on@.len(),
                    failover_on@ == x.failover_on@.take(j as int),
                decreases x.failover_on.len() - j,
            {
                failover_on.push(x.failover_on[j]);
                assert(failover_on@ =~= x.failover_on@.take(j + 1));
                j = j + 1;
            }
            assert(x.failover_on@.take(x.failover_on@.len() as int) =~= x.failover_on@);
            NodeConfig::Composer(
                crate::graph::ComposerConfig {
                    strategy: x.strategy,
                    timeout_ms: x.timeout_ms,
                    max_retries: x.max_retries,
                    failover_on,
                    allow_capability_degradation: x.allow_capability_degradation,
                    latency_hysteresis_ms: x.latency_hysteresis_ms,
                    routes,
                },
            )
        },
        NodeConfig::Middleware(x) => NodeConfig::Middleware(x.duplicate()),
        NodeConfig::Probe(x) => NodeConfig::Probe(x.duplicate()),
        NodeConfig::Publisher(x) => NodeConfig::Publisher(
            PublisherNodeConfig {
                publisher_id: match &x.publisher_id {
                    Some(s) => Some(s.clone()),
                    None => None,
                },
            },
        ),
        NodeConfig::Group(x) => NodeConfig::Group(GroupConfig { member_ids: copy_strings(&x.member_ids), collapsed: x.collapsed }),
    }
}

/// A copy of the graph that holds the same values.
pub fn copy_graph(g: &WorkflowGraph) -> (r: WorkflowGraph)
    ensures
        same_graph(r, *g),
{
    let mut nodes: Vec<Node> = Vec::new();
    let mut i: usize = 0;
    while i < g.nodes.len()
        invariant
            i <= g.nodes@.len(),
            nodes@.len() == i,
            forall|k: int| 0 <= k < i ==> same_node(#[trigger] nodes@[k], g.nodes@[k]),
        decreases g.nodes.len() - i,
    {
        let n = &g.nodes[i];
        nodes.push(
            Node {
                id: n.id.clone(),
                name: n.name.clone(),
                kind: n.kind,
                enabled: n.enabled,
                inputs: copy_ports(&n.inputs),
                outputs: copy_ports(&n.outputs),
                config: copy_config(&n.config),
            },
        );
        i = i + 1;
    }
    let mut edges: Vec<Edge> = Vec::new();
    let mut j: usize = 0;
    while j < g.edges.len()
        invariant
            j <= g.edges@.len(),
            edges@.len() == j,
            forall|k: int| 0 <= k < j ==> same_edge(#[trigger] edges@[k], g.edges@[k]),
        decreases g.edges.len() - j,
    {
        let e = &g.edges[j];
        edges.push(
            Edge {
                id: e.id.clone(),
                from: Endpoint { node: e.from.node.clone(), port: e.from.port.clone() },
                to: Endpoint { node: e.to.node.clone(), port: e.to.port.clone() },
                enabled: e.enabled,
                label: match &e.label {
                    Some(s) => Some(s.clone()),
                    None => None,
                },
            },
        );
        j = j + 1;
    }
    WorkflowGraph { schema_version: g.schema_version, id: g.id.clone(), nodes, edges }
}

// ---- Starting ----
/// The reasons of the first asset, in the order given, that cannot serve.
pub open spec fn first_blocked(w: WorkspacePackage, ids: Seq<Seq<char>>, avail: Seq<Seq<char>>) -> Option<Seq<Seq<char>>>
    decreases ids.len(),
{
    if ids.len() == 0 {
        None
    } else if secret_reasons(w, ids[0], avail).len() > 0 {
        Some(secret_reasons(w, ids[0], avail))
    } else {
        first_blocked(w, ids.drop_first(), avail)
    }
}

pub open spec fn unchanged_refusal(old: WorkspacePackage, new: WorkspacePackage, r: Result<bool, String>, m: Seq<char>) -> bool {
    r matches Err(x) && x@ == m && new == old
}

/// Starting the direct endpoint stored under `first`: refused while its
/// token or its asset's secrets are missing; otherwise it is enabled, and
/// the answer is whether it was disabled.
pub open spec fn start_direct_is(
    old: WorkspacePackage,
    new: WorkspacePackage,
    first: Seq<char>,
    avail: Seq<Seq<char>>,
    r: Result<bool, String>,
) -> bool {
    match key_index(old.direct_endpoints@, first) {
        None => unchanged_refusal(old, new, r, "审计直出端点不存在。"@),
        Some(k) => {
            let e = old.direct_endpoints@[k];
            let reasons = secret_reasons(old, e.1.asset_id@, avail);
            if !avail.contains(e.1.token_ref@) {
                unchanged_refusal(old, new, r, "本地访问 Token 尚未配置。"@)
            } else if reasons.len() > 0 {
                unchanged_refusal(old, new, r, join(reasons, " "@))
            } else {
                &&& r == Ok::<bool, String>(!e.1.enabled)
                &&& new == (WorkspacePackage { direct_endpoints: new.direct_endpoints, ..old })
                &&& new.direct_endpoints@ == old.direct_endpoints@.update(k, (e.0, DirectEndpoint { enabled: true, ..e.1 }))
            }
        },
    }
}

/// `after` is `before` with `x` added at its place in text order, unless it
/// is there already.
pub open spec fn enabled_after(before: Seq<Seq<char>>, after: Seq<Seq<char>>, x: Seq<char>) -> bool {
    if before.contains(x) {
        after == before
    } else {
        exists|p: int|
            #![trigger before.insert(p, x)]
            0 <= p <= before.len() && after == before.insert(p, x) && (forall|j: int| 0 <= j < p ==> seq_lt(#[trigger] before[j], x))
                && (p == before.len() || !seq_lt(before[p], x))
    }
}

/// The workspace once the canvas at `ck` of the project at `pk` has
/// started through the publisher at `bk`: the publisher serves the routes
/// its graph compiles to, the graph is the applied one, and the publisher
/// is enabled.
pub open spec fn started_canvas(old: WorkspacePackage, new: WorkspacePackage, pk: int, ck: int, bk: int) -> bool {
    let p = old.projects.projects@[pk].1;
    let c = p.canvases@[ck].1;
    let pb = old.runtime.publishers@[bk].1;
    &&& new == (WorkspacePackage { projects: new.projects, runtime: new.runtime, runtime_state: new.runtime_state, ..old })
    &&& new.runtime.schema_version == old.runtime.schema_version && new.runtime.id == old.runtime.id
    &&& new.runtime.providers == old.runtime.providers
    &&& replaced_at(
        old.runtime.publishers@,
        new.runtime.publishers@,
        bk,
        |b: RuntimePublisher| b.config == pb.config && exists|cc: CompiledCanvasGraph| #[trigger] compiled_is(cc, c.graph, old.wallet, old.runtime)
            && b.routes == cc.routes,
    )
    &&& replaced_at(
        old.projects.projects@,
        new.projects.projects@,
        pk,
        |q: Project| q.id == p.id && q.name == p.name && q.folders == p.folders && replaced_at(
            p.canvases@,
            q.canvases@,
            ck,
            |d: Canvas| d.id == c.id && d.name == c.name && d.folder_id == c.folder_id && d.graph == c.graph
                && d.draft_revision == c.draft_revision && d.applied_revision == c.draft_revision && d.publisher_id
                == c.publisher_id && d.legacy_multi_output == c.legacy_multi_output && (d.applied_graph matches Some(g)
                && same_graph(g, c.graph)),
        ),
    )
}

/// Starting a canvas: refused while it lacks a publisher, the publisher's
/// token, its assets' secrets, or a valid graph; otherwise it is started,
/// and the answer is whether it was stopped or had unapplied changes.
pub open spec fn start_canvas_is(
    old: WorkspacePackage,
    new: WorkspacePackage,
    first: Seq<char>,
    second: Option<Seq<char>>,
    avail: Seq<Seq<char>>,
    r: Result<bool, String>,
) -> bool {
    let missing = "Canvas 不存在或归属不正确。"@;
    match second {
        None => unchanged_refusal(old, new, r, "Canvas ID 缺失。"@),
        Some(cid) => match key_index(old.projects.projects@, first) {
            None => unchanged_refusal(old, new, r, missing),
            Some(pk) => match key_index(old.projects.projects@[pk].1.canvases@, cid) {
                None => unchanged_refusal(old, new, r, missing),
                Some(ck) => {
                    let c = old.projects.projects@[pk].1.canvases@[ck].1;
                    match c.publisher_id {
                        None => unchanged_refusal(old, new, r, "Canvas 尚未配置出口。"@),
                        Some(pid) => match key_index(old.runtime.publishers@, pid@) {
                            None => unchanged_refusal(old, new, r, "Canvas Publisher 不存在。"@),
                            Some(bk) => match old.runtime.publishers@[bk].1.config.token_ref {
                                None => unchanged_refusal(old, new, r, "Canvas 尚未配置本地 Token。"@),
                                Some(t) => if !avail.contains(t@) {
                                    unchanged_refusal(old, new, r, "Canvas 本地 Token 不存在。"@)
                                } else {
                                    match first_blocked(old, provider_asset_ids(c.graph.nodes@), avail) {
                                        Some(reasons) => unchanged_refusal(old, new, r, join(reasons, " "@)),
                                        None => if graph_issues(c.graph).len() > 0 {
                                            unchanged_refusal(old, new, r, "编组图校验失败"@)
                                        } else {
                                            &&& r == Ok::<bool, String>(
                                                !str_views(old.runtime_state.enabled_publishers@).contains(pid@)
                                                    || c.draft_revision != c.applied_revision,
                                            )
                                            &&& started_canvas(old, new, pk, ck, bk)
                                            &&& enabled_after(
                                                str_views(old.runtime_state.enabled_publishers@),
                                                str_views(new.runtime_state.enabled_publishers@),
                                                pid@,
                                            )
                                        },
                                    }
                                },
                            },
                        },
                    }
                },
            },
        },
    }
}

/// What starting a managed instance does: the id is read back, then the
/// direct endpoint or the canvas it names is started.
pub open spec fn start_is(
    old: WorkspacePackage,
    new: WorkspacePackage,
    id: Seq<char>,
    avail: Seq<Seq<char>>,
    r: Result<bool, String>,
) -> bool {
    match parsed_managed_id(id) {
        None => unchanged_refusal(old, new, r, "实例 ID 无效。"@),
        Some((ManagedInstanceKind::DirectEndpoint, first, _)) => start_direct_is(old, new, first, avail, r),
        Some((ManagedInstanceKind::Canvas, first, second)) => start_canvas_is(old, new, first, second, avail, r),
    }
}

fn join_with(v: &Vec<String>, sep: &str) -> (r: String)
    ensures
        r@ == join(str_views(v@), sep@),
{
    let mut r = String::new();
    let mut i: usize = 0;
    while i < v.len()
        invariant
            i <= v@.len(),
            r@ == join(str_views(v@).take(i as int), sep@),
        decreases v.len() - i,
    {
        let ghost t = str_views(v@).take(i + 1);
        assert(t.drop_last() =~= str_views(v@).take(i as int));
        assert(t.last() == v@[i as int]@);
        if i > 0 {
            text::push_str(&mut r, sep);
        } else {
            assert(str_views(v@).take(0) =~= Seq::<Seq<char>>::empty());
            assert(t.len() == 1);
        }
        text::push_str(&mut r, v[i].as_str());
        i = i + 1;
    }
    assert(str_views(v@).take(v@.len() as int) =~= str_views(v@));
    r
}

fn contains_text(v: &Vec<String>, x: &str) -> (r: bool)
    ensures
        r == str_views(v@).contains(x@),
{
    let mut i: usize = 0;
    while i < v.len()
        invariant
            i <= v@.len(),
            forall|k: int| 0 <= k < i ==> v@[k]@ != x@,
        decreases v.len() - i,
    {
        if text::str_eq(v[i].as_str(), x) {
            assert(str_views(v@)[i as int] == x@);
            return true;
        }
        i = i + 1;
    }
    proof {
        if str_views(v@).contains(x@) {
            let k = choose|k: int| 0 <= k < str_views(v@).len() && str_views(v@)[k] == x@;
            assert(v@[k]@ == x@);
        }
    }
    false
}

fn start_direct(workspace: &mut WorkspacePackage, first: &String, available: &Vec<String>) -> (r: Result<bool, String>)
    ensures
        start_direct_is(*old(workspace), *final(workspace), first@, str_views(available@), r),
{
    proof {
        lemma_key_index(workspace.direct_endpoints@, first@);
    }
    let k = match entry_index(&workspace.direct_endpoints, first) {
        Some(k) => k,
        None => return Err(text::owned("审计直出端点不存在。")),
    };
    let reasons = provider_secret_reasons(workspace, workspace.direct_endpoints[k].1.asset_id.as_str(), available);
    if !contains_text(available, workspace.direct_endpoints[k].1.token_ref.as_str()) {
        return Err(text::owned("本地访问 Token 尚未配置。"));
    }
    if reasons.len() > 0 {
        return Err(join_with(&reasons, " "));
    }
    let ghost before = workspace.direct_endpoints@;
    let mut endpoints: Vec<(String, DirectEndpoint)> = Vec::new();
    std::mem::swap(&mut endpoints, &mut workspace.direct_endpoints);
    let (key, mut endpoint) = endpoints.remove(k);
    let changed = !endpoint.enabled;
    endpoint.enabled = true;
    endpoints.insert(k, (key, endpoint));
    proof {
        let e = before[k as int];
        assert(endpoints@ =~= before.update(k as int, (e.0, DirectEndpoint { enabled: true, ..e.1 })));
    }
    workspace.direct_endpoints = endpoints;
    Ok(changed)
}

fn first_blocked_exec(w: &WorkspacePackage, ids: &Vec<String>, available: &Vec<String>) -> (r: Option<Vec<String>>)
    ensures
        match r {
            Some(v) => first_blocked(*w, str_views(ids@), str_views(available@)) == Some(str_views(v@)),
            None => first_blocked(*w, str_views(ids@), str_views(available@)) is None,
        },
{
    let ghost iv = str_views(ids@);
    let ghost avail = str_views(available@);
    let mut i: usize = 0;
    assert(iv.skip(0) =~= iv);
    while i < ids.len()
        invariant
            i <= ids@.len(),
            iv == str_views(ids@),
            avail == str_views(available@),
            first_blocked(*w, iv, avail) == first_blocked(*w, iv.skip(i as int), avail),
        decreases ids.len() - i,
    {
        assert(iv.skip(i as int).drop_first() =~= iv.skip(i + 1));
        assert(iv.skip(i as int)[0] == ids@[i as int]@);
        let reasons = provider_secret_reasons(w, ids[i].as_str(), available);
        if reasons.len() > 0 {
            return Some(reasons);
        }
        i = i + 1;
    }
    assert(iv.skip(ids@.len() as int) =~= Seq::<Seq<char>>::empty());
    None
}

fn enable_publisher(v: &mut Vec<String>, x: &String)
    ensures
        enabled_after(str_views(old(v)@), str_views(final(v)@), x@),
{
    if contains_text(v, x.as_str()) {
        return;
    }
    let ghost before = str_views(v@);
    let mut p: usize = 0;
    while p < v.len() && text::str_lt(v[p].as_str(), x.as_str())
        invariant
            p <= v@.len(),
            before == str_views(v@),
            forall|j: int| 0 <= j < p ==> seq_lt(#[trigger] before[j], x@),
        decreases v.len() - p,
    {
        p = p + 1;
    }
    v.insert(p, x.clone());
    assert(str_views(v@) =~= before.insert(p as int, x@));
}

fn start_canvas(
    workspace: &mut WorkspacePackage,
    first: &String,
    second: Option<String>,
    available: &Vec<String>,
    allow_warnings: bool,
) -> (r: Result<bool, String>)
    ensures
        start_canvas_is(
            *old(workspace),
            *final(workspace),
            first@,
            match second {
                Some(s) => Some(s@),
                None => None,
            },
            str_views(available@),
            r,
        ),
{
    let cid = match second {
        Some(c) => c,
        None => return Err(text::owned("Canvas ID 缺失。")),
    };
    proof {
        lemma_key_index(workspace.projects.projects@, first@);
    }
    let pk = match entry_index(&workspace.projects.projects, first) {
        Some(k) => k,
        None => return Err(text::owned("Canvas 不存在或归属不正确。")),
    };
    proof {
        lemma_key_index(workspace.projects.projects@[pk as int].1.canvases@, cid@);
    }
    let ck = match entry_index(&workspace.projects.projects[pk].1.canvases, &cid) {
        Some(k) => k,
        None => return Err(text::owned("Canvas 不存在或归属不正确。")),
    };
    let c = &workspace.projects.projects[pk].1.canvases[ck].1;
    let pid = match &c.publisher_id {
        Some(p) => p.clone(),
        None => return Err(text::owned("Canvas 尚未配置出口。")),
    };
    proof {
        lemma_key_index(workspace.runtime.publishers@, pid@);
    }
    let bk = match entry_index(&workspace.runtime.publishers, &pid) {
        Some(k) => k,
        None => return Err(text::owned("Canvas Publisher 不存在。")),
    };
    match &workspace.runtime.publishers[bk].1.config.token_ref {
        None => return Err(text::owned("Canvas 尚未配置本地 Token。")),
        Some(t) => {
            if !contains_text(available, t.as_str()) {
                return Err(text::owned("Canvas 本地 Token 不存在。"));
            }
        },
    }
    let ids = canvas_asset_ids(&c.graph.nodes);
    match first_blocked_exec(workspace, &ids, available) {
        Some(reasons) => return Err(join_with(&reasons, " ")),
        None => {},
    }
    let compiled = match compile_canvas_graph(&c.graph, &workspace.wallet, &workspace.runtime) {
        Err(e) => return Err(e.message),
        Ok(cc) => cc,
    };
    let ghost cc = compiled;
    assert(compiled.report.warnings@.len() == 0) by {
        reveal(compiled_is);
    }
    if !allow_warnings && compiled.report.warnings.len() > 0 {
        let mut messages: Vec<String> = Vec::new();
        let mut w: usize = 0;
        while w < compiled.report.warnings.len()
            invariant
                w <= compiled.report.warnings@.len(),
            decreases compiled.report.warnings.len() - w,
        {
            messages.push(compiled.report.warnings[w].message.clone());
            w = w + 1;
        }
        let mut message = text::owned("需要确认能力警告：");
        let joined = join_with(&messages, "；");
        text::push_str(&mut message, joined.as_str());
        return Err(message);
    }
    let was_running = contains_text(&workspace.runtime_state.enabled_publishers, pid.as_str());
    let has_unapplied = c.draft_revision != c.applied_revision;
    let applied = copy_graph(&c.graph);
    let ghost old_w = *workspace;
    let CompiledCanvasGraph { routes, middleware: _, probes: _, report: _ } = compiled;
    let (bkey, bval) = workspace.runtime.publishers.remove(bk);
    let RuntimePublisher { config, routes: _ } = bval;
    workspace.runtime.publishers.insert(bk, (bkey, RuntimePublisher { config, routes }));
    let mut pentry = workspace.projects.projects.remove(pk);
    let (ckey, mut canvas) = pentry.1.canvases.remove(ck);
    canvas.applied_graph = Some(applied);
    canvas.applied_revision = canvas.draft_revision;
    pentry.1.canvases.insert(ck, (ckey, canvas));
    workspace.projects.projects.insert(pk, pentry);
    enable_publisher(&mut workspace.runtime_state.enabled_publishers, &pid);
    proof {
        assert(compiled_is(cc, old_w.projects.projects@[pk as int].1.canvases@[ck as int].1.graph, old_w.wallet, old_w.runtime));
    }
    Ok(!was_running || has_unapplied)
}

/// Starts a managed instance once nothing blocks it: a direct endpoint is
/// enabled; a canvas's publisher takes the compiled routes, its graph
/// becomes the applied graph, and the publisher is enabled. `available`
/// lists the references the credential store holds. Answers whether
/// anything changed.
pub fn apply_instance_start(
    workspace: &mut WorkspacePackage,
    available: &Vec<String>,
    instance_id: &str,
    allow_warnings: bool,
) -> (r: Result<bool, String>)
    ensures
        start_is(*old(workspace), *final(workspace), instance_id@, str_views(available@), r),
{
    let (kind, first, second) = match parse_managed_instance_id(instance_id) {
        Ok(parts) => parts,
        Err(m) => return Err(m),
    };
    match kind {
        ManagedInstanceKind::DirectEndpoint => start_direct(workspace, &first, available),
        ManagedInstanceKind::Canvas => start_canvas(workspace, &first, second, available, allow_warnings),
    }
}

} // verus!
