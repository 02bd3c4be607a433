//! The control center: one record per managed instance (each audited direct
//! endpoint and each project canvas) with what blocks it, where it listens
//! and what the audit log says of its calls, sorted for display, and the
//! tallies of the rack.
use crate::compile::compile_canvas_graph;
use crate::desktop::{managed_id_of, managed_instance_id, ManagedInstanceKind};
use crate::graph::{graph_issues, Node, NodeConfig};
use crate::host_state::{
    blocked_pred, count_where, failed_pred, provider_secret_reasons, running_pred, secret_reasons, sorted_set_of,
    sorted_unique, status_counts, status_of, stopped_pred, instance_status, ManagedInstanceStatus,
};
use crate::runtime::RuntimePublisher;
use crate::simulation::strictly_sorted;
use crate::sort::{lemma_insert_by_at, sort_by, str_views};
use crate::stream::opt_view;
use crate::text::{self, contains, decimal, lemma_seq_lt_irreflexive, lemma_seq_lt_transitive, lowercase_of, seq_lt};
use crate::workspace::{find_entry, lookup, Canvas, DirectEndpoint, DirectModelMapping, Project, WorkspacePackage};
use vstd::prelude::*;

verus! {

/// What the audit log holds of one call.
#[derive(Debug, Clone)]
pub struct TraceFacts {
    pub publisher_id: String,
    pub started_at_unix_ms: u64,
    pub total_latency_ms: u64,
    pub retry_count: u32,
    pub failover_count: u32,
    /// The final error, as the audit log renders it.
    pub final_error: Option<String>,
}

/// One managed instance as the control center shows it.
#[derive(Debug, Clone)]
pub struct ManagedInstance {
    pub id: String,
    pub kind: ManagedInstanceKind,
    pub name: String,
    pub ownership: String,
    pub project_id: Option<String>,
    pub project_name: Option<String>,
    pub canvas_id: Option<String>,
    pub direct_endpoint_id: Option<String>,
    pub audit_publisher_id: Option<String>,
    pub asset_names: Vec<String>,
    pub base_url: Option<String>,
    pub public_models: Vec<String>,
    pub token_ready: bool,
    pub secrets_ready: bool,
    pub desired_running: bool,
    pub status: ManagedInstanceStatus,
    pub blocking_reasons: Vec<String>,
    pub repair_target: Option<String>,
    pub draft_revision: Option<u64>,
    pub applied_revision: Option<u64>,
    pub has_unapplied_changes: bool,
    pub request_count: u64,
    pub last_call_at_ms: Option<u64>,
    pub last_latency_ms: Option<u64>,
    pub retry_count: u32,
    pub failover_count: u32,
    pub last_error: Option<String>,
}

#[derive(Debug, Clone)]
pub struct DesktopGatewaySnapshot {
    pub running: bool,
    pub base_url: String,
    pub entry_count: usize,
    pub error: Option<String>,
}

#[derive(Debug, Clone)]
pub struct ControlCenterSnapshot {
    pub gateway: DesktopGatewaySnapshot,
    pub instances: Vec<ManagedInstance>,
    pub running_count: usize,
    pub stopped_count: usize,
    pub blocked_count: usize,
    pub failed_count: usize,
}

// ---- Audit statistics ----
/// How many of the first `n` calls went through the publisher.
pub open spec fn trace_count(ts: Seq<TraceFacts>, pid: Seq<char>, n: int) -> nat
    decreases n,
{
    if n <= 0 {
        0
    } else {
        trace_count(ts, pid, n - 1) + if ts[n - 1].publisher_id@ == pid {
            1nat
        } else {
            0nat
        }
    }
}

/// The latest of the first `n` calls through the publisher: the one that
/// started last, the later one in the log when two started together.
pub open spec fn latest_trace(ts: Seq<TraceFacts>, pid: Seq<char>, n: int) -> Option<int>
    decreases n,
{
    if n <= 0 {
        None
    } else {
        let prev = latest_trace(ts, pid, n - 1);
        if ts[n - 1].publisher_id@ == pid && match prev {
            None => true,
            Some(k) => ts[k].started_at_unix_ms <= ts[n - 1].started_at_unix_ms,
        } {
            Some(n - 1)
        } else {
            prev
        }
    }
}

proof fn lemma_latest_in_range(ts: Seq<TraceFacts>, pid: Seq<char>, n: int)
    ensures
        latest_trace(ts, pid, n) matches Some(k) ==> 0 <= k < n,
    decreases n,
{
    if n > 0 {
        lemma_latest_in_range(ts, pid, n - 1);
    }
}

fn trace_summary(traces: &Vec<TraceFacts>, pid: &str) -> (r: (u64, Option<usize>))
    ensures
        r.0 == trace_count(traces@, pid@, traces@.len() as int),
        match r.1 {
            Some(k) => latest_trace(traces@, pid@, traces@.len() as int) == Some(k as int) && k < traces@.len(),
            None => latest_trace(traces@, pid@, traces@.len() as int) is None,
        },
{
    let mut count: u64 = 0;
    let mut best: Option<usize> = None;
    let mut i: usize = 0;
    while i < traces.len()
        invariant
            i <= traces@.len(),
            count <= i,
            count == trace_count(traces@, pid@, i as int),
            match best {
                Some(k) => latest_trace(traces@, pid@, i as int) == Some(k as int) && k < i,
                None => latest_trace(traces@, pid@, i as int) is None,
            },
        decreases traces.len() - i,
    {
        let t = &traces[i];
        if text::str_eq(t.publisher_id.as_str(), pid) {
            count = count + 1;
            let newer = match best {
                None => true,
                Some(k) => traces[k].started_at_unix_ms <= t.started_at_unix_ms,
            };
            if newer {
                best = Some(i);
            }
        }
        i = i + 1;
    }
    (count, best)
}

/// The audit statistics of a record: the number of calls through its
/// publisher and the figures of the latest one.
pub open spec fn trace_fields_ok(m: ManagedInstance, ts: Seq<TraceFacts>, pid: Seq<char>) -> bool {
    &&& m.request_count == trace_count(ts, pid, ts.len() as int)
    &&& match latest_trace(ts, pid, ts.len() as int) {
        None => m.last_call_at_ms is None && m.last_latency_ms is None && m.retry_count == 0 && m.failover_count == 0
            && m.last_error is None,
        Some(k) => m.last_call_at_ms == Some(ts[k].started_at_unix_ms) && m.last_latency_ms == Some(ts[k].total_latency_ms)
            && m.retry_count == ts[k].retry_count && m.failover_count == ts[k].failover_count && opt_view(m.last_error)
            == opt_view(ts[k].final_error),
    }
}

fn copy_opt(o: &Option<String>) -> (r: Option<String>)
    ensures
        opt_view(r) == opt_view(*o),
{
    match o {
        Some(s) => Some(s.clone()),
        None => None,
    }
}

// ---- Shared pieces ----
/// The gateway's base address.
pub open spec fn gateway_base(w: WorkspacePackage) -> Seq<char> {
    "http://"@ + w.gateway.listen_address@ + ":"@ + decimal(w.gateway.port as nat)
}

/// Whether an entry is mounted on the running gateway.
pub open spec fn mounted_at(running: bool, mounted: Seq<Seq<char>>, prefix: Seq<char>) -> bool {
    running && mounted.contains(prefix)
}

/// Whether some reason is about an upstream secret.
pub open spec fn mentions_secret(reasons: Seq<Seq<char>>) -> bool {
    exists|i: int| 0 <= i < reasons.len() && contains(#[trigger] reasons[i], "Secret"@)
}

/// How many different texts the sequence holds.
pub open spec fn distinct_count(s: Seq<Seq<char>>) -> nat
    decreases s.len(),
{
    if s.len() == 0 {
        0
    } else {
        distinct_count(s.drop_last()) + if s.drop_last().contains(s.last()) {
            0nat
        } else {
            1nat
        }
    }
}

fn contains_text(v: &Vec<String>, x: &str) -> (r: bool)
    ensures
        r == str_views(v@).contains(x@),
{
    let mut i: usize = 0;
    while i < v.len()
        invariant
            i <= v@.len(),
            forall|k: int| 0 <= k < i ==> v@[k]@ != x@,
        decreases v.len() - i,
    {
        if text::str_eq(v[i].as_str(), x) {
            assert(str_views(v@)[i as int] == x@);
            return true;
        }
        i = i + 1;
    }
    proof {
        if str_views(v@).contains(x@) {
            let k = choose|k: int| 0 <= k < str_views(v@).len() && str_views(v@)[k] == x@;
            assert(v@[k]@ == x@);
        }
    }
    false
}

fn distinct_count_exec(v: &Vec<String>) -> (r: usize)
    ensures
        r == distinct_count(str_views(v@)),
{
    let mut n: usize = 0;
    let mut i: usize = 0;
    let mut seen: Vec<String> = Vec::new();
    assert(str_views(v@).take(0) =~= seq![]);
    while i < v.len()
        invariant
            i <= v@.len(),
            n <= i,
            str_views(seen@) == str_views(v@).take(i as int),
            n == distinct_count(str_views(v@).take(i as int)),
        decreases v.len() - i,
    {
        let ghost prev = str_views(v@).take(i as int);
        let known = contains_text(&seen, v[i].as_str());
        if !known {
            n = n + 1;
        }
        seen.push(v[i].clone());
        proof {
            let nxt = str_views(v@).take(i + 1);
            assert(nxt.drop_last() =~= prev);
            assert(nxt.last() == v@[i as int]@);
            assert(str_views(seen@) =~= nxt);
        }
        i = i + 1;
    }
    assert(str_views(v@).take(v@.len() as int) =~= str_views(v@));
    n
}

fn mentions_secret_exec(v: &Vec<String>) -> (r: bool)
    ensures
        r == mentions_secret(str_views(v@)),
{
    let mut i: usize = 0;
    while i < v.len()
        invariant
            i <= v@.len(),
            forall|k: int| 0 <= k < i ==> !contains(#[trigger] str_views(v@)[k], "Secret"@),
        decreases v.len() - i,
    {
        if text::contains_exec(v[i].as_str(), "Secret") {
            assert(contains(str_views(v@)[i as int], "Secret"@));
            return true;
        }
        i = i + 1;
    }
    false
}

fn joined3(a: &str, b: &str, c: &str) -> (r: String)
    ensures
        r@ == a@ + b@ + c@,
{
    let mut r = text::owned(a);
    text::push_str(&mut r, b);
    text::push_str(&mut r, c);
    r
}

fn append_all(v: &mut Vec<String>, more: Vec<String>)
    ensures
        str_views(final(v)@) == str_views(old(v)@) + str_views(more@),
{
    let ghost start = str_views(v@);
    let mut i: usize = 0;
    while i < more.len()
        invariant
            i <= more@.len(),
            str_views(v@) == start + str_views(more@).take(i as int),
        decreases more.len() - i,
    {
        let ghost before = str_views(v@);
        let x = more[i].clone();
        v.push(x);
        assert(str_views(more@).take(i + 1) =~= str_views(more@).take(i as int).push(more@[i as int]@));
        assert(str_views(v@) =~= before.push(x@));
        i = i + 1;
    }
    assert(str_views(more@).take(more@.len() as int) =~= str_views(more@));
}

// ---- A direct endpoint's record ----
/// Why a direct endpoint cannot serve: its asset's reasons, a missing
/// access token, no public model.
pub open spec fn direct_reasons(w: WorkspacePackage, e: DirectEndpoint, avail: Seq<Seq<char>>) -> Seq<Seq<char>> {
    secret_reasons(w, e.asset_id@, avail) + (if !avail.contains(e.token_ref@) {
        seq!["本地访问 Token 尚未配置。"@]
    } else {
        seq![]
    }) + (if e.models@.len() == 0 {
        seq!["尚未配置公开模型映射。"@]
    } else {
        seq![]
    })
}

pub open spec fn direct_record_ok(
    m: ManagedInstance,
    w: WorkspacePackage,
    e: DirectEndpoint,
    ts: Seq<TraceFacts>,
    mounted: Seq<Seq<char>>,
    running: bool,
    avail: Seq<Seq<char>>,
) -> bool {
    let prefix = "/direct/"@ + e.alias@;
    let pid = managed_id_of(ManagedInstanceKind::DirectEndpoint, e.id@, None);
    let reasons = direct_reasons(w, e, avail);
    let token_ready = avail.contains(e.token_ref@);
    &&& m.id@ == pid
    &&& m.kind == ManagedInstanceKind::DirectEndpoint
    &&& m.name@ == e.name@
    &&& m.ownership@ == "审计直出"@
    &&& m.project_id is None && m.project_name is None && m.canvas_id is None
    &&& opt_view(m.direct_endpoint_id) == Some(e.id@)
    &&& opt_view(m.audit_publisher_id) == Some(pid)
    &&& str_views(m.asset_names@) == match lookup(w.wallet.assets@, e.asset_id@) {
        Some(a) => seq![a.name@],
        None => seq![],
    }
    &&& opt_view(m.base_url) == Some(gateway_base(w) + prefix + "/v1"@)
    &&& str_views(m.public_models@) == e.models@.map_values(|x: DirectModelMapping| x.public_model@)
    &&& m.token_ready == token_ready
    &&& m.secrets_ready == !mentions_secret(reasons)
    &&& m.desired_running == e.enabled
    &&& m.status == status_of(true, e.enabled, mounted_at(running, mounted, prefix), reasons.len() > 0)
    &&& str_views(m.blocking_reasons@) == reasons
    &&& opt_view(m.repair_target) == Some(
        if !token_ready {
            "direct"@
        } else {
            "wallet"@
        },
    )
    &&& m.draft_revision is None && m.applied_revision is None && !m.has_unapplied_changes
    &&& trace_fields_ok(m, ts, pid)
}

fn direct_record(
    w: &WorkspacePackage,
    e: &DirectEndpoint,
    traces: &Vec<TraceFacts>,
    mounted: &Vec<String>,
    running: bool,
    available: &Vec<String>,
    base: &String,
) -> (m: ManagedInstance)
    requires
        base@ == gateway_base(*w),
    ensures
        direct_record_ok(m, *w, *e, traces@, str_views(mounted@), running, str_views(available@)),
{
    let id = managed_instance_id(ManagedInstanceKind::DirectEndpoint, e.id.as_str(), None);
    let pid = managed_instance_id(ManagedInstanceKind::DirectEndpoint, e.id.as_str(), None);
    let prefix = joined3("/direct/", e.alias.as_str(), "");
    let token_ready = contains_text(available, e.token_ref.as_str());
    let mut reasons = provider_secret_reasons(w, e.asset_id.as_str(), available);
    if !token_ready {
        reasons.push(text::owned("本地访问 Token 尚未配置。"));
    }
    if e.models.len() == 0 {
        reasons.push(text::owned("尚未配置公开模型映射。"));
    }
    let ghost avail = str_views(available@);
    assert(str_views(reasons@) =~= direct_reasons(*w, *e, avail));
    let actual = running && contains_text(mounted, prefix.as_str());
    let blocked = reasons.len() > 0;
    let status = instance_status(true, e.enabled, actual, blocked);
    let secrets_ready = !mentions_secret_exec(&reasons);
    let mut asset_names: Vec<String> = Vec::new();
    match find_entry(&w.wallet.assets, e.asset_id.as_str()) {
        Some(k) => {
            asset_names.push(w.wallet.assets[k].1.name.clone());
        },
        None => {},
    }
    assert(str_views(asset_names@) =~= match lookup(w.wallet.assets@, e.asset_id@) {
        Some(a) => seq![a.name@],
        None => seq![],
    });
    let mut public_models: Vec<String> = Vec::new();
    let mut i: usize = 0;
    while i < e.models.len()
        invariant
            i <= e.models@.len(),
            str_views(public_models@) == e.models@.take(i as int).map_values(|x: DirectModelMapping| x.public_model@),
        decreases e.models.len() - i,
    {
        public_models.push(e.models[i].public_model.clone());
        assert(e.models@.take(i + 1).map_values(|x: DirectModelMapping| x.public_model@) =~= e.models@.take(
            i as int,
        ).map_values(|x: DirectModelMapping| x.public_model@).push(e.models@[i as int].public_model@));
        assert(str_views(public_models@) =~= e.models@.take(i + 1).map_values(|x: DirectModelMapping| x.public_model@));
        i = i + 1;
    }
    assert(e.models@.take(e.models@.len() as int) =~= e.models@);
    let (request_count, last) = trace_summary(traces, pid.as_str());
    let base_url = joined3(base.as_str(), prefix.as_str(), "/v1");
    let repair = if !token_ready {
        text::owned("direct")
    } else {
        text::owned("wallet")
    };
    let m = ManagedInstance {
        id,
        kind: ManagedInstanceKind::DirectEndpoint,
        name: e.name.clone(),
        ownership: text::owned("审计直出"),
        project_id: None,
        project_name: None,
        canvas_id: None,
        direct_endpoint_id: Some(e.id.clone()),
        audit_publisher_id: Some(pid),
        asset_names,
        base_url: Some(base_url),
        public_models,
        token_ready,
        secrets_ready,
        desired_running: e.enabled,
        status,
        blocking_reasons: reasons,
        repair_target: Some(repair),
        draft_revision: None,
        applied_revision: None,
        has_unapplied_changes: false,
        request_count,
        last_call_at_ms: match last {
            Some(k) => Some(traces[k].started_at_unix_ms),
            None => None,
        },
        last_latency_ms: match last {
            Some(k) => Some(traces[k].total_latency_ms),
            None => None,
        },
        retry_count: match last {
            Some(k) => traces[k].retry_count,
            None => 0,
        },
        failover_count: match last {
            Some(k) => traces[k].failover_count,
            None => 0,
        },
        last_error: match last {
            Some(k) => copy_opt(&traces[k].final_error),
            None => None,
        },
    };
    proof {
        reveal_strlit("");
        assert(prefix@ =~= "/direct/"@ + e.alias@);
    }
    m
}

// ---- A canvas's record ----
/// The asset ids that the provider nodes name, in node order.
pub open spec fn provider_asset_ids(ns: Seq<Node>) -> Seq<Seq<char>>
    decreases ns.len(),
{
    if ns.len() == 0 {
        seq![]
    } else {
        provider_asset_ids(ns.drop_last()) + match ns.last().config {
            NodeConfig::Provider(p) => seq![p.asset_id@],
            _ => seq![],
        }
    }
}

/// Two sorted sequences without repeats that hold the same texts are equal.
pub proof fn lemma_sorted_sets_equal(a: Seq<Seq<char>>, b: Seq<Seq<char>>)
    requires
        strictly_sorted(a),
        strictly_sorted(b),
        forall|t: Seq<char>| a.contains(t) <==> b.contains(t),
    ensures
        a == b,
    decreases a.len(),
{
    if a.len() == 0 {
        if b.len() > 0 {
            assert(b.contains(b[0]));
        }
        assert(a =~= b);
    } else if b.len() == 0 {
        assert(a.contains(a[0]));
    } else {
        assert(a.contains(a[0]));
        assert(b.contains(b[0]));
        let j = choose|j: int| 0 <= j < b.len() && b[j] == a[0];
        let i = choose|i: int| 0 <= i < a.len() && a[i] == b[0];
        if a[0] != b[0] {
            assert(j > 0 && i > 0);
            assert(seq_lt(b[0], b[j]));
            assert(seq_lt(a[0], a[i]));
            lemma_seq_lt_transitive(a[0], b[0], a[0]);
            lemma_seq_lt_irreflexive(a[0]);
        }
        let a1 = a.drop_first();
        let b1 = b.drop_first();
        assert forall|t: Seq<char>| a1.contains(t) <==> b1.contains(t) by {
            if a1.contains(t) {
                let k = choose|k: int| 0 <= k < a1.len() && a1[k] == t;
                assert(a[k + 1] == t && seq_lt(a[0], a[k + 1]));
                lemma_seq_lt_irreflexive(t);
                assert(a.contains(t));
                let m = choose|m: int| 0 <= m < b.len() && b[m] == t;
                assert(m != 0);
                assert(b1[m - 1] == t);
            }
            if b1.contains(t) {
                let k = choose|k: int| 0 <= k < b1.len() && b1[k] == t;
                assert(b[k + 1] == t && seq_lt(b[0], b[k + 1]));
                lemma_seq_lt_irreflexive(t);
                assert(b.contains(t));
                let m = choose|m: int| 0 <= m < a.len() && a[m] == t;
                assert(m != 0);
                assert(a1[m - 1] == t);
            }
        }
        assert forall|p: int, q: int| 0 <= p < q < a1.len() implies seq_lt(#[trigger] a1[p], #[trigger] a1[q]) by {
            assert(a1[p] == a[p + 1] && a1[q] == a[q + 1]);
        }
        assert forall|p: int, q: int| 0 <= p < q < b1.len() implies seq_lt(#[trigger] b1[p], #[trigger] b1[q]) by {
            assert(b1[p] == b[p + 1] && b1[q] == b[q + 1]);
        }
        lemma_sorted_sets_equal(a1, b1);
        assert(a =~= seq![a[0]] + a1);
        assert(b =~= seq![b[0]] + b1);
    }
}

/// The texts of a sequence, sorted and without repeats.
pub open spec fn sorted_ids(s: Seq<Seq<char>>) -> Seq<Seq<char>> {
    choose|t: Seq<Seq<char>>| sorted_set_of(t, s)
}

proof fn lemma_sorted_ids(t: Seq<Seq<char>>, s: Seq<Seq<char>>)
    requires
        sorted_set_of(t, s),
    ensures
        sorted_ids(s) == t,
{
    let c = sorted_ids(s);
    assert(sorted_set_of(c, s));
    assert forall|x: Seq<char>| c.contains(x) <==> t.contains(x) by {
        assert(c.contains(x) <==> s.contains(x));
        assert(t.contains(x) <==> s.contains(x));
    }
    lemma_sorted_sets_equal(c, t);
}

/// The reasons of each asset in turn.
pub open spec fn reasons_over(w: WorkspacePackage, ids: Seq<Seq<char>>, avail: Seq<Seq<char>>) -> Seq<Seq<char>>
    decreases ids.len(),
{
    if ids.len() == 0 {
        seq![]
    } else {
        reasons_over(w, ids.drop_last(), avail) + secret_reasons(w, ids.last(), avail)
    }
}

/// The names of the assets that exist, in turn.
pub open spec fn names_over(w: WorkspacePackage, ids: Seq<Seq<char>>) -> Seq<Seq<char>>
    decreases ids.len(),
{
    if ids.len() == 0 {
        seq![]
    } else {
        names_over(w, ids.drop_last()) + match lookup(w.wallet.assets@, ids.last()) {
            Some(a) => seq![a.name@],
            None => seq![],
        }
    }
}

/// The publisher a canvas names, when it exists.
pub open spec fn canvas_publisher(w: WorkspacePackage, c: Canvas) -> Option<RuntimePublisher> {
    match c.publisher_id {
        Some(pid) => lookup(w.runtime.publishers@, pid@),
        None => None,
    }
}

/// Whether the canvas's publisher has an access token the store holds.
pub open spec fn canvas_token_ready(w: WorkspacePackage, c: Canvas, avail: Seq<Seq<char>>) -> bool {
    match canvas_publisher(w, c) {
        Some(pb) => match pb.config.token_ref {
            Some(t) => avail.contains(t@),
            None => false,
        },
        None => false,
    }
}

/// Whether the user wants the canvas's publisher to run.
pub open spec fn canvas_desired(w: WorkspacePackage, c: Canvas) -> bool {
    match c.publisher_id {
        Some(pid) => str_views(w.runtime_state.enabled_publishers@).contains(pid@),
        None => false,
    }
}

/// Why a canvas cannot serve: the reasons of its assets, a graph that does
/// not validate, a publisher without its token.
pub open spec fn canvas_reasons(w: WorkspacePackage, c: Canvas, avail: Seq<Seq<char>>) -> Seq<Seq<char>> {
    reasons_over(w, sorted_ids(provider_asset_ids(c.graph.nodes@)), avail) + (if graph_issues(c.graph).len() > 0 {
        seq!["编组图校验失败"@]
    } else {
        seq![]
    }) + (if canvas_publisher(w, c) is Some && !canvas_token_ready(w, c, avail) {
        seq!["Canvas 本地访问 Token 尚未配置。"@]
    } else {
        seq![]
    })
}

pub open spec fn route_models(pb: RuntimePublisher) -> Seq<Seq<char>> {
    pb.routes@.map_values(|r: crate::runtime::ModelRoute| r.public_model@)
}

pub open spec fn canvas_record_ok(
    m: ManagedInstance,
    w: WorkspacePackage,
    p: Project,
    c: Canvas,
    ts: Seq<TraceFacts>,
    mounted: Seq<Seq<char>>,
    running: bool,
    avail: Seq<Seq<char>>,
) -> bool {
    let prefix = "/canvas/"@ + c.id@;
    let publisher = canvas_publisher(w, c);
    let reasons = canvas_reasons(w, c, avail);
    let token_ready = canvas_token_ready(w, c, avail);
    let desired = canvas_desired(w, c);
    &&& m.id@ == managed_id_of(ManagedInstanceKind::Canvas, p.id@, Some(c.id@))
    &&& m.kind == ManagedInstanceKind::Canvas
    &&& m.name@ == c.name@
    &&& m.ownership@ == p.name@ + " / "@ + c.name@
    &&& opt_view(m.project_id) == Some(p.id@)
    &&& opt_view(m.project_name) == Some(p.name@)
    &&& opt_view(m.canvas_id) == Some(c.id@)
    &&& m.direct_endpoint_id is None
    &&& opt_view(m.audit_publisher_id) == opt_view(c.publisher_id)
    &&& str_views(m.asset_names@) == names_over(w, sorted_ids(provider_asset_ids(c.graph.nodes@)))
    &&& opt_view(m.base_url) == (if publisher is Some {
        Some(gateway_base(w) + prefix + "/v1"@)
    } else {
        None
    })
    &&& str_views(m.public_models@) == match publisher {
        Some(pb) => route_models(pb),
        None => seq![],
    }
    &&& m.token_ready == token_ready
    &&& m.secrets_ready == !mentions_secret(reasons)
    &&& m.desired_running == desired
    &&& m.status == status_of(publisher is Some, desired, mounted_at(running, mounted, prefix), reasons.len() > 0)
    &&& str_views(m.blocking_reasons@) == reasons
    &&& opt_view(m.repair_target) == Some(
        if publisher is None || !token_ready {
            "canvas:publisher"@
        } else {
            "canvas:workflow"@
        },
    )
    &&& m.draft_revision == Some(c.draft_revision)
    &&& m.applied_revision == Some(c.applied_revision)
    &&& m.has_unapplied_changes == (c.draft_revision != c.applied_revision)
    &&& trace_fields_ok(
        m,
        ts,
        match c.publisher_id {
            Some(pid) => pid@,
            None => seq![],
        },
    )
}

pub(crate) fn canvas_asset_ids(ns: &Vec<Node>) -> (r: Vec<String>)
    ensures
        str_views(r@) == provider_asset_ids(ns@),
{
    let mut r: Vec<String> = Vec::new();
    let mut i: usize = 0;
    assert(ns@.take(0) =~= seq![]);
    while i < ns.len()
        invariant
            i <= ns@.len(),
            str_views(r@) == provider_asset_ids(ns@.take(i as int)),
        decreases ns.len() - i,
    {
        let ghost before = str_views(r@);
        match &ns[i].config {
            NodeConfig::Provider(pc) => {
                r.push(pc.asset_id.clone());
            },
            _ => {},
        }
        proof {
            let t = ns@.take(i + 1);
            assert(t.drop_last() =~= ns@.take(i as int));
            assert(t.last() == ns@[i as int]);
            assert(str_views(r@) =~= provider_asset_ids(t));
        }
        i = i + 1;
    }
    assert(ns@.take(ns@.len() as int) =~= ns@);
    r
}

fn canvas_record(
    w: &WorkspacePackage,
    p: &Project,
    c: &Canvas,
    traces: &Vec<TraceFacts>,
    mounted: &Vec<String>,
    running: bool,
    available: &Vec<String>,
    base: &String,
) -> (m: ManagedInstance)
    requires
        base@ == gateway_base(*w),
    ensures
        canvas_record_ok(m, *w, *p, *c, traces@, str_views(mounted@), running, str_views(available@)),
{
    let ghost avail = str_views(available@);
    let raw = canvas_asset_ids(&c.graph.nodes);
    let ids = sorted_unique(&raw);
    proof {
        lemma_sorted_ids(str_views(ids@), str_views(raw@));
    }
    let ghost iv = str_views(ids@);
    let mut reasons: Vec<String> = Vec::new();
    let mut names: Vec<String> = Vec::new();
    let mut i: usize = 0;
    assert(iv.take(0) =~= seq![]);
    while i < ids.len()
        invariant
            i <= ids@.len(),
            iv == str_views(ids@),
            avail == str_views(available@),
            str_views(reasons@) == reasons_over(*w, iv.take(i as int), avail),
            str_views(names@) == names_over(*w, iv.take(i as int)),
        decreases ids.len() - i,
    {
        let more = provider_secret_reasons(w, ids[i].as_str(), available);
        append_all(&mut reasons, more);
        let ghost nb = str_views(names@);
        match find_entry(&w.wallet.assets, ids[i].as_str()) {
            Some(k) => {
                names.push(w.wallet.assets[k].1.name.clone());
            },
            None => {},
        }
        proof {
            let t = iv.take(i + 1);
            assert(t.drop_last() =~= iv.take(i as int));
            assert(t.last() == iv[i as int]);
            assert(str_views(names@) =~= names_over(*w, t));
        }
        i = i + 1;
    }
    assert(iv.take(ids@.len() as int) =~= iv);
    match compile_canvas_graph(&c.graph, &w.wallet, &w.runtime) {
        Err(e) => {
            reasons.push(e.message.clone());
        },
        Ok(_) => {},
    }
    let publisher: Option<&RuntimePublisher> = match &c.publisher_id {
        Some(pid) => match find_entry(&w.runtime.publishers, pid.as_str()) {
            Some(k) => Some(&w.runtime.publishers[k].1),
            None => None,
        },
        None => None,
    };
    let token_ready = match publisher {
        Some(pb) => match &pb.config.token_ref {
            Some(t) => contains_text(available, t.as_str()),
            None => false,
        },
        None => false,
    };
    if publisher.is_some() && !token_ready {
        reasons.push(text::owned("Canvas 本地访问 Token 尚未配置。"));
    }
    assert(str_views(reasons@) =~= canvas_reasons(*w, *c, avail));
    let desired = match &c.publisher_id {
        Some(pid) => contains_text(&w.runtime_state.enabled_publishers, pid.as_str()),
        None => false,
    };
    let prefix = joined3("/canvas/", c.id.as_str(), "");
    proof {
        reveal_strlit("");
        assert(prefix@ =~= "/canvas/"@ + c.id@);
    }
    let actual = running && contains_text(mounted, prefix.as_str());
    let blocked = reasons.len() > 0;
    let status = instance_status(publisher.is_some(), desired, actual, blocked);
    let secrets_ready = !mentions_secret_exec(&reasons);
    let mut public_models: Vec<String> = Vec::new();
    let base_url = match publisher {
        Some(pb) => {
            let mut j: usize = 0;
            while j < pb.routes.len()
                invariant
                    j <= pb.routes@.len(),
                    str_views(public_models@) == pb.routes@.take(j as int).map_values(
                        |r: crate::runtime::ModelRoute| r.public_model@,
                    ),
                decreases pb.routes.len() - j,
            {
                public_models.push(pb.routes[j].public_model.clone());
                assert(pb.routes@.take(j + 1).map_values(|r: crate::runtime::ModelRoute| r.public_model@)
                    =~= pb.routes@.take(j as int).map_values(|r: crate::runtime::ModelRoute| r.public_model@).push(
                    pb.routes@[j as int].public_model@,
                ));
                assert(str_views(public_models@) =~= pb.routes@.take(j + 1).map_values(
                    |r: crate::runtime::ModelRoute| r.public_model@,
                ));
                j = j + 1;
            }
            assert(pb.routes@.take(pb.routes@.len() as int) =~= pb.routes@);
            Some(joined3(base.as_str(), prefix.as_str(), "/v1"))
        },
        None => {
            assert(str_views(public_models@) =~= seq![]);
            None
        },
    };
    let pid = match &c.publisher_id {
        Some(x) => x.clone(),
        None => String::new(),
    };
    let (request_count, last) = trace_summary(traces, pid.as_str());
    let id = managed_instance_id(ManagedInstanceKind::Canvas, p.id.as_str(), Some(c.id.as_str()));
    let repair = if publisher.is_none() || !token_ready {
        text::owned("canvas:publisher")
    } else {
        text::owned("canvas:workflow")
    };
    ManagedInstance {
        id,
        kind: ManagedInstanceKind::Canvas,
        name: c.name.clone(),
        ownership: joined3(p.name.as_str(), " / ", c.name.as_str()),
        project_id: Some(p.id.clone()),
        project_name: Some(p.name.clone()),
        canvas_id: Some(c.id.clone()),
        direct_endpoint_id: None,
        audit_publisher_id: copy_opt(&c.publisher_id),
        asset_names: names,
        base_url,
        public_models,
        token_ready,
        secrets_ready,
        desired_running: desired,
        status,
        blocking_reasons: reasons,
        repair_target: Some(repair),
        draft_revision: Some(c.draft_revision),
        applied_revision: Some(c.applied_revision),
        has_unapplied_changes: c.draft_revision != c.applied_revision,
        request_count,
        last_call_at_ms: match last {
            Some(k) => Some(traces[k].started_at_unix_ms),
            None => None,
        },
        last_latency_ms: match last {
            Some(k) => Some(traces[k].total_latency_ms),
            None => None,
        },
        retry_count: match last {
            Some(k) => traces[k].retry_count,
            None => 0,
        },
        failover_count: match last {
            Some(k) => traces[k].failover_count,
            None => 0,
        },
        last_error: match last {
            Some(k) => copy_opt(&traces[k].final_error),
            None => None,
        },
    }
}

// ---- The snapshot ----
/// Where a record comes from.
pub enum InstanceSource {
    Direct(DirectEndpoint),
    Canvas(Project, Canvas),
}

/// The canvases of the projects, project by project.
pub open spec fn canvas_sources(ps: Seq<(String, Project)>) -> Seq<InstanceSource>
    decreases ps.len(),
{
    if ps.len() == 0 {
        seq![]
    } else {
        canvas_sources(ps.drop_last()) + ps.last().1.canvases@.map_values(
            |e: (String, Canvas)| InstanceSource::Canvas(ps.last().1, e.1),
        )
    }
}

/// The managed instances in workspace order: the direct endpoints, then
/// each project's canvases.
pub open spec fn instance_sources(w: WorkspacePackage) -> Seq<InstanceSource> {
    w.direct_endpoints@.map_values(|e: (String, DirectEndpoint)| InstanceSource::Direct(e.1)) + canvas_sources(
        w.projects.projects@,
    )
}

pub open spec fn record_ok(
    m: ManagedInstance,
    src: InstanceSource,
    w: WorkspacePackage,
    ts: Seq<TraceFacts>,
    mounted: Seq<Seq<char>>,
    running: bool,
    avail: Seq<Seq<char>>,
) -> bool {
    match src {
        InstanceSource::Direct(e) => direct_record_ok(m, w, e, ts, mounted, running, avail),
        InstanceSource::Canvas(p, c) => canvas_record_ok(m, w, p, c, ts, mounted, running, avail),
    }
}

/// Display order: by lowercased name, then by id.
pub open spec fn instance_lt(a: ManagedInstance, b: ManagedInstance) -> bool {
    seq_lt(lowercase_of(a.name@), lowercase_of(b.name@)) || (lowercase_of(a.name@) == lowercase_of(b.name@) && seq_lt(
        a.id@,
        b.id@,
    ))
}

pub open spec fn instance_order() -> spec_fn(ManagedInstance, ManagedInstance) -> bool {
    |a: ManagedInstance, b: ManagedInstance| instance_lt(a, b)
}

pub open spec fn statuses(ms: Seq<ManagedInstance>) -> Seq<ManagedInstanceStatus> {
    ms.map_values(|m: ManagedInstance| m.status)
}

/// The snapshot of a workspace: the gateway as the host reports it, one
/// record per managed instance in display order, and the tallies (an
/// unpublished canvas counts as blocked).
pub open spec fn snapshot_is(
    r: ControlCenterSnapshot,
    w: WorkspacePackage,
    ts: Seq<TraceFacts>,
    mounted: Seq<Seq<char>>,
    running: bool,
    error: Option<String>,
    avail: Seq<Seq<char>>,
) -> bool {
    let srcs = instance_sources(w);
    &&& r.gateway.running == running
    &&& r.gateway.base_url@ == gateway_base(w)
    &&& r.gateway.entry_count == distinct_count(mounted)
    &&& opt_view(r.gateway.error) == opt_view(error)
    &&& exists|built: Seq<ManagedInstance>|
        #![trigger sort_by(built, instance_order())]
        built.len() == srcs.len() && (forall|i: int| 0 <= i < built.len() ==> record_ok(#[trigger] built[i], srcs[i], w, ts, mounted, running, avail))
            && r.instances@ == sort_by(built, instance_order())
    &&& r.running_count == count_where(statuses(r.instances@), running_pred())
    &&& r.stopped_count == count_where(statuses(r.instances@), stopped_pred())
    &&& r.blocked_count == count_where(statuses(r.instances@), blocked_pred())
    &&& r.failed_count == count_where(statuses(r.instances@), failed_pred())
}

fn instance_less(a: &ManagedInstance, b: &ManagedInstance) -> (r: bool)
    ensures
        r == instance_lt(*a, *b),
{
    let la = text::to_lowercase(a.name.as_str());
    let lb = text::to_lowercase(b.name.as_str());
    if text::str_lt(la.as_str(), lb.as_str()) {
        return true;
    }
    if !text::str_eq(la.as_str(), lb.as_str()) {
        return false;
    }
    text::str_lt(a.id.as_str(), b.id.as_str())
}

/// Builds the control center's snapshot of the workspace. `traces` is the
/// audit log, `mounted_prefixes` the entry prefixes the running gateway
/// serves, `available_secrets` the references the credential store holds.
pub fn control_center_snapshot(
    workspace: &WorkspacePackage,
    traces: &Vec<TraceFacts>,
    mounted_prefixes: &Vec<String>,
    gateway_running: bool,
    gateway_error: Option<String>,
    available_secrets: &Vec<String>,
) -> (r: ControlCenterSnapshot)
    ensures
        snapshot_is(
            r,
            *workspace,
            traces@,
            str_views(mounted_prefixes@),
            gateway_running,
            gateway_error,
            str_views(available_secrets@),
        ),
{
    let w = workspace;
    let ghost mounted = str_views(mounted_prefixes@);
    let ghost avail = str_views(available_secrets@);
    let mut base = joined3("http://", w.gateway.listen_address.as_str(), ":");
    let port = text::decimal_string(w.gateway.port as u64);
    text::push_str(&mut base, port.as_str());
    let ghost srcs = instance_sources(*w);
    let ghost ds = w.direct_endpoints@.map_values(|e: (String, DirectEndpoint)| InstanceSource::Direct(e.1));
    let mut built: Vec<ManagedInstance> = Vec::new();
    let mut i: usize = 0;
    while i < w.direct_endpoints.len()
        invariant
            i <= w.direct_endpoints@.len(),
            base@ == gateway_base(*w),
            ds == w.direct_endpoints@.map_values(|e: (String, DirectEndpoint)| InstanceSource::Direct(e.1)),
            built@.len() == i,
            forall|k: int| 0 <= k < i ==> record_ok(#[trigger] built@[k], ds[k], *w, traces@, mounted, gateway_running, avail),
            mounted == str_views(mounted_prefixes@),
            avail == str_views(available_secrets@),
        decreases w.direct_endpoints.len() - i,
    {
        let m = direct_record(w, &w.direct_endpoints[i].1, traces, mounted_prefixes, gateway_running, available_secrets, &base);
        built.push(m);
        i = i + 1;
    }
    let ps = &w.projects.projects;
    let mut pi: usize = 0;
    assert(ps@.take(0) =~= seq![]);
    assert(ds + canvas_sources(ps@.take(0)) =~= ds);
    while pi < ps.len()
        invariant
            pi <= ps@.len(),
            ps == &w.projects.projects,
            base@ == gateway_base(*w),
            built@.len() == (ds + canvas_sources(ps@.take(pi as int))).len(),
            forall|k: int| 0 <= k < built@.len() ==> record_ok(#[trigger] built@[k], (ds + canvas_sources(ps@.take(pi as int)))[k], *w, traces@, mounted, gateway_running, avail),
            mounted == str_views(mounted_prefixes@),
            avail == str_views(available_secrets@),
        decreases ps.len() - pi,
    {
        let p = &ps[pi].1;
        let ghost prefix_srcs = ds + canvas_sources(ps@.take(pi as int));
        let ghost cs = p.canvases@.map_values(|e: (String, Canvas)| InstanceSource::Canvas(*p, e.1));
        let mut ci: usize = 0;
        while ci < p.canvases.len()
            invariant
                ci <= p.canvases@.len(),
                base@ == gateway_base(*w),
                cs == p.canvases@.map_values(|e: (String, Canvas)| InstanceSource::Canvas(*p, e.1)),
                built@.len() == prefix_srcs.len() + ci,
                forall|k: int| 0 <= k < built@.len() ==> record_ok(#[trigger] built@[k], (prefix_srcs + cs)[k], *w, traces@, mounted, gateway_running, avail),
                mounted == str_views(mounted_prefixes@),
                avail == str_views(available_secrets@),
            decreases p.canvases.len() - ci,
        {
            let m = canvas_record(w, p, &p.canvases[ci].1, traces, mounted_prefixes, gateway_running, available_secrets, &base);
            assert((prefix_srcs + cs)[built@.len() as int] == cs[ci as int]);
            built.push(m);
            ci = ci + 1;
        }
        proof {
            let t = ps@.take(pi + 1);
            assert(t.drop_last() =~= ps@.take(pi as int));
            assert(t.last() == ps@[pi as int]);
            assert(canvas_sources(t) == canvas_sources(ps@.take(pi as int)) + cs);
            assert(ds + canvas_sources(t) =~= prefix_srcs + cs);
        }
        pi = pi + 1;
    }
    assert(ps@.take(ps@.len() as int) =~= ps@);
    assert(ds + canvas_sources(ps@) == srcs);
    let ghost bv = built@;
    let ghost lt = instance_order();
    let mut ordered: Vec<ManagedInstance> = Vec::new();
    let mut j: usize = 0;
    let n = built.len();
    assert(bv.take(0) =~= seq![]);
    assert(bv.skip(0) =~= bv);
    while j < n
        invariant
            j <= n,
            n == bv.len(),
            built@ == bv.skip(j as int),
            lt == instance_order(),
            ordered@ == sort_by(bv.take(j as int), lt),
        decreases n - j,
    {
        let x = built.remove(0);
        assert(x == bv[j as int]);
        let ghost ov = ordered@;
        let mut k: usize = 0;
        while k < ordered.len() && !instance_less(&x, &ordered[k])
            invariant
                k <= ordered@.len(),
                ov == ordered@,
                lt == instance_order(),
                forall|q: int| 0 <= q < k ==> !lt(x, #[trigger] ov[q]),
            decreases ordered@.len() - k,
        {
            k = k + 1;
        }
        proof {
            lemma_insert_by_at(ov, x, lt, k as int);
            assert(bv.take(j + 1).drop_last() =~= bv.take(j as int));
            assert(bv.take(j + 1).last() == x);
            assert(bv.skip(j as int).skip(1) =~= bv.skip(j + 1));
        }
        ordered.insert(k, x);
        j = j + 1;
    }
    assert(bv.take(n as int) =~= bv);
    let mut sts: Vec<ManagedInstanceStatus> = Vec::new();
    let mut q: usize = 0;
    while q < ordered.len()
        invariant
            q <= ordered@.len(),
            sts@ == statuses(ordered@).take(q as int),
        decreases ordered.len() - q,
    {
        sts.push(ordered[q].status);
        assert(statuses(ordered@).take(q + 1) =~= statuses(ordered@).take(q as int).push(ordered@[q as int].status));
        q = q + 1;
    }
    assert(statuses(ordered@).take(ordered@.len() as int) =~= statuses(ordered@));
    let (running_count, stopped_count, blocked_count, failed_count) = status_counts(&sts);
    let entry_count = distinct_count_exec(mounted_prefixes);
    let r = ControlCenterSnapshot {
        gateway: DesktopGatewaySnapshot { running: gateway_running, base_url: base, entry_count, error: gateway_error },
        instances: ordered,
        running_count,
        stopped_count,
        blocked_count,
        failed_count,
    };
    assert(r.instances@ == sort_by(bv, instance_order()));
    r
}

} // verus!
