//! State the desktop host keeps: the workspace a new install starts from,
//! stopping a managed instance, and the saved layout of the user interface,
//! sanitised before use. Viewport and node coordinates are held as the bits
//! of their `f64` values.
use crate::desktop::{parsed_managed_id, parse_managed_instance_id, ManagedInstanceKind};
use crate::drafts::{is_new_canvas_graph, new_canvas_graph};
use crate::graph::WorkflowGraph;
use crate::runtime::RuntimeConfig;
use crate::simulation::{insert_sorted_unique, strictly_sorted};
use crate::sort::str_views;
use crate::text;
use crate::workspace::{
    all_available, all_available_exec, canvas_of, find_entry, lookup, ApiWallet, Canvas, DirectEndpoint, DirectGateway, Project, ProjectFolder, WorkspacePackage,
    WorkspaceProjects, WorkspaceRuntimeState, WORKSPACE_SCHEMA_VERSION,
};
use crate::SCHEMA_VERSION;
use vstd::prelude::*;

verus! {

// ---- The starting workspace ----
/// The project tree of a new workspace: project `default` with folder
/// `canvases` holding canvas `main`, an empty canvas.
pub open spec fn default_projects_are(p: WorkspaceProjects) -> bool {
    &&& p.projects@.len() == 1
    &&& p.projects@[0].0@ == "default"@
    &&& {
        let project = p.projects@[0].1;
        &&& project.id@ == "default"@
        &&& project.name@ == "My project"@
        &&& project.folders@.len() == 1
        &&& project.folders@[0].0@ == "canvases"@
        &&& project.folders@[0].1.id@ == "canvases"@
        &&& project.folders@[0].1.name@ == "Canvases"@
        &&& str_views(project.folders@[0].1.canvas_ids@) == seq!["main"@]
        &&& project.canvases@.len() == 1
        &&& project.canvases@[0].0@ == "main"@
        &&& {
            let c = project.canvases@[0].1;
            &&& c.id@ == "main"@
            &&& c.name@ == "Main canvas"@
            &&& c.folder_id matches Some(f) && f@ == "canvases"@
            &&& is_new_canvas_graph(c.graph, "main"@)
            &&& c.applied_graph is None
            &&& c.draft_revision == 1
            &&& c.applied_revision == 0
            &&& c.publisher_id is None
            &&& !c.legacy_multi_output
        }
    }
}

pub fn default_projects() -> (p: WorkspaceProjects)
    ensures
        default_projects_are(p),
{
    let mut canvas_ids: Vec<String> = Vec::new();
    canvas_ids.push(text::owned("main"));
    assert(str_views(canvas_ids@) =~= seq!["main"@]);
    let folder = ProjectFolder { id: text::owned("canvases"), name: text::owned("Canvases"), canvas_ids };
    let canvas = Canvas {
        id: text::owned("main"),
        name: text::owned("Main canvas"),
        folder_id: Some(text::owned("canvases")),
        graph: new_canvas_graph("main"),
        applied_graph: None,
        draft_revision: 1,
        applied_revision: 0,
        publisher_id: None,
        legacy_multi_output: false,
    };
    let mut folders: Vec<(String, ProjectFolder)> = Vec::new();
    folders.push((text::owned("canvases"), folder));
    let mut canvases: Vec<(String, Canvas)> = Vec::new();
    canvases.push((text::owned("main"), canvas));
    let project = Project { id: text::owned("default"), name: text::owned("My project"), folders, canvases };
    let mut projects: Vec<(String, Project)> = Vec::new();
    projects.push((text::owned("default"), project));
    WorkspaceProjects { projects }
}

/// The workspace a new install starts from: named `name`, with no provider,
/// publisher, wallet asset or direct endpoint, the default gateway and the
/// default project tree.
pub fn empty_workspace(name: &str) -> (w: WorkspacePackage)
    ensures
        w.schema_version == WORKSPACE_SCHEMA_VERSION,
        w.id@ == "default"@,
        w.name@ == name@,
        w.runtime.schema_version == SCHEMA_VERSION,
        w.runtime.id@ == "default"@,
        w.runtime.providers@.len() == 0,
        w.runtime.publishers@.len() == 0,
        w.runtime_state.enabled_publishers@.len() == 0,
        w.graph.schema_version == SCHEMA_VERSION,
        w.graph.id@ == "main"@,
        w.graph.nodes@.len() == 0,
        w.graph.edges@.len() == 0,
        w.wallet.assets@.len() == 0,
        w.direct_endpoints@.len() == 0,
        w.gateway.listen_address@ == "127.0.0.1"@,
        w.gateway.port == 7480,
        default_projects_are(w.projects),
        w.ui@ == "null"@,
        w.templates@.len() == 0,
{
    WorkspacePackage {
        schema_version: WORKSPACE_SCHEMA_VERSION,
        id: text::owned("default"),
        name: text::owned(name),
        runtime: RuntimeConfig {
            schema_version: SCHEMA_VERSION,
            id: text::owned("default"),
            providers: Vec::new(),
            publishers: Vec::new(),
        },
        runtime_state: WorkspaceRuntimeState { enabled_publishers: Vec::new() },
        graph: WorkflowGraph { schema_version: SCHEMA_VERSION, id: text::owned("main"), nodes: Vec::new(), edges: Vec::new() },
        wallet: ApiWallet::default(),
        direct_endpoints: Vec::new(),
        gateway: DirectGateway::default(),
        projects: default_projects(),
        ui: text::owned("null"),
        templates: Vec::new(),
    }
}

// ---- Stopping a managed instance ----
/// The index of the first entry stored under `key`.
pub open spec fn key_index<V>(m: Seq<(String, V)>, key: Seq<char>) -> Option<int> {
    if exists|k: int| 0 <= k < m.len() && m[k].0@ == key {
        Some(choose|k: int| 0 <= k < m.len() && m[k].0@ == key && forall|j: int| 0 <= j < k ==> m[j].0@ != key)
    } else {
        None
    }
}

proof fn lemma_first_key<V>(m: Seq<(String, V)>, key: Seq<char>, k0: int)
    requires
        0 <= k0 < m.len(),
        m[k0].0@ == key,
    ensures
        exists|k: int| 0 <= k < m.len() && m[k].0@ == key && forall|j: int| 0 <= j < k ==> m[j].0@ != key,
    decreases k0,
{
    if exists|j: int| 0 <= j < k0 && m[j].0@ == key {
        let j = choose|j: int| 0 <= j < k0 && m[j].0@ == key;
        lemma_first_key(m, key, j);
    }
}

/// The first index of `key`, when there is one, holds `key`.
pub(crate) proof fn lemma_key_index<V>(m: Seq<(String, V)>, key: Seq<char>)
    ensures
        key_index(m, key) matches Some(k) ==> 0 <= k < m.len() && m[k].0@ == key && forall|j: int| 0 <= j < k ==> m[j].0@ != key,
{
    if exists|k: int| 0 <= k < m.len() && m[k].0@ == key {
        let k0 = choose|k: int| 0 <= k < m.len() && m[k].0@ == key;
        lemma_first_key(m, key, k0);
    }
}

pub(crate) fn entry_index<V>(m: &Vec<(String, V)>, key: &String) -> (r: Option<usize>)
    ensures
        r matches Some(k) ==> key_index(m@, key@) == Some(k as int) && k < m@.len(),
        r is None ==> key_index(m@, key@) is None,
{
    let mut i: usize = 0;
    while i < m.len()
        invariant
            i <= m@.len(),
            forall|j: int| 0 <= j < i ==> m@[j].0@ != key@,
        decreases m.len() - i,
    {
        if text::str_eq(m[i].0.as_str(), key.as_str()) {
            let ghost k = choose|k: int| 0 <= k < m@.len() && m@[k].0@ == key@ && forall|j: int| 0 <= j < k ==> m@[j].0@ != key@;
            proof {
                assert(m@[i as int].0@ == key@);
                if k != i {
                    if k < i {
                        assert(m@[k].0@ != key@);
                    } else {
                        assert(m@[i as int].0@ != key@);
                    }
                }
            }
            return Some(i);
        }
        i = i + 1;
    }
    None
}

/// Stopping the direct endpoint stored under `first`: it is disabled, and
/// the answer is whether it was enabled.
pub open spec fn stop_direct_is(old: WorkspacePackage, new: WorkspacePackage, first: Seq<char>, r: Result<bool, String>) -> bool {
    match key_index(old.direct_endpoints@, first) {
        None => r matches Err(m) && m@ == "审计直出端点不存在。"@ && new == old,
        Some(k) => {
            let e = old.direct_endpoints@[k];
            &&& r == Ok::<bool, String>(e.1.enabled)
            &&& new == (WorkspacePackage { direct_endpoints: new.direct_endpoints, ..old })
            &&& new.direct_endpoints@ == old.direct_endpoints@.update(k, (e.0, DirectEndpoint { enabled: false, ..e.1 }))
        },
    }
}

/// Stopping a canvas: its publisher is taken out of the enabled publishers,
/// and the answer is whether it was there.
pub open spec fn stop_canvas_is(
    old: WorkspacePackage,
    new: WorkspacePackage,
    first: Seq<char>,
    second: Option<Seq<char>>,
    r: Result<bool, String>,
) -> bool {
    match second {
        None => r matches Err(m) && m@ == "Canvas ID 缺失。"@ && new == old,
        Some(canvas_id) => match canvas_of(old, first, canvas_id) {
            None => r matches Err(m) && m@ == "Canvas 不存在或归属不正确。"@ && new == old,
            Some(c) => {
                let before = str_views(old.runtime_state.enabled_publishers@);
                let after = str_views(new.runtime_state.enabled_publishers@);
                &&& new == (WorkspacePackage { runtime_state: new.runtime_state, ..old })
                &&& match c.publisher_id {
                    None => r == Ok::<bool, String>(false) && after == before,
                    Some(p) => r == Ok::<bool, String>(before.contains(p@)) && after == before.filter(other_than(p@)),
                }
            },
        },
    }
}

/// What stopping a managed instance does: the id is read back, then the
/// direct endpoint or the canvas it names is stopped.
pub open spec fn stop_is(old: WorkspacePackage, new: WorkspacePackage, id: Seq<char>, r: Result<bool, String>) -> bool {
    match parsed_managed_id(id) {
        None => r matches Err(m) && m@ == "实例 ID 无效。"@ && new == old,
        Some((ManagedInstanceKind::DirectEndpoint, first, _)) => stop_direct_is(old, new, first, r),
        Some((ManagedInstanceKind::Canvas, first, second)) => stop_canvas_is(old, new, first, second, r),
    }
}

fn canvas_lookup(w: &WorkspacePackage, project_id: &String, canvas_id: &String) -> (r: Option<(usize, usize)>)
    ensures
        match r {
            Some((p, c)) => p < w.projects.projects@.len() && c < w.projects.projects@[p as int].1.canvases@.len()
                && canvas_of(*w, project_id@, canvas_id@) == Some(w.projects.projects@[p as int].1.canvases@[c as int].1),
            None => canvas_of(*w, project_id@, canvas_id@) is None,
        },
{
    let p = match crate::workspace::find_entry(&w.projects.projects, project_id.as_str()) {
        Some(p) => p,
        None => return None,
    };
    match crate::workspace::find_entry(&w.projects.projects[p].1.canvases, canvas_id.as_str()) {
        Some(c) => Some((p, c)),
        None => None,
    }
}

/// Texts other than `x`.
pub open spec fn other_than(x: Seq<char>) -> spec_fn(Seq<char>) -> bool {
    |t: Seq<char>| t != x
}

/// Removes every occurrence of `x`, answering whether there was one.
fn remove_text(v: &mut Vec<String>, x: &String) -> (r: bool)
    ensures
        r == str_views(old(v)@).contains(x@),
        str_views(final(v)@) == str_views(old(v)@).filter(other_than(x@)),
{
    let ghost start = str_views(v@);
    let mut kept: Vec<String> = Vec::new();
    let mut found = false;
    let mut i: usize = 0;
    assert(start.take(0).filter(other_than(x@)) =~= seq![]);
    while i < v.len()
        invariant
            start == str_views(v@),
            i <= v@.len(),
            str_views(kept@) == start.take(i as int).filter(other_than(x@)),
            found == start.take(i as int).contains(x@),
        decreases v.len() - i,
    {
        let ghost prev = start.take(i as int);
        assert(start.take(i + 1) =~= prev.push(start[i as int]));
        proof {
            prev.lemma_filter_push(start[i as int], other_than(x@));
        }
        proof {
            let nxt = start.take(i + 1);
            assert(start[i as int] == v@[i as int]@);
            assert(nxt[i as int] == start[i as int]);
            if nxt.contains(x@) && start[i as int] != x@ {
                let j = choose|j: int| 0 <= j < nxt.len() && nxt[j] == x@;
                assert(prev[j] == x@);
            }
            if prev.contains(x@) {
                let j = choose|j: int| 0 <= j < prev.len() && prev[j] == x@;
                assert(nxt[j] == x@);
            }
        }
        if text::str_eq(v[i].as_str(), x.as_str()) {
            found = true;
        } else {
            let ghost before = str_views(kept@);
            kept.push(v[i].clone());
            assert(str_views(kept@) =~= before.push(start[i as int]));
        }
        i = i + 1;
    }
    assert(start.take(start.len() as int) =~= start);
    *v = kept;
    found
}

fn stop_direct(workspace: &mut WorkspacePackage, first: &String) -> (r: Result<bool, String>)
    ensures
        stop_direct_is(*old(workspace), *final(workspace), first@, r),
{
    let k = match entry_index(&workspace.direct_endpoints, first) {
        Some(k) => k,
        None => return Err(text::owned("审计直出端点不存在。")),
    };
    let ghost before = workspace.direct_endpoints@;
    let mut endpoints: Vec<(String, DirectEndpoint)> = Vec::new();
    std::mem::swap(&mut endpoints, &mut workspace.direct_endpoints);
    let (key, mut endpoint) = endpoints.remove(k);
    let changed = endpoint.enabled;
    endpoint.enabled = false;
    endpoints.insert(k, (key, endpoint));
    proof {
        let e = before[k as int];
        assert(endpoints@ =~= before.update(k as int, (e.0, DirectEndpoint { enabled: false, ..e.1 })));
    }
    workspace.direct_endpoints = endpoints;
    Ok(changed)
}

fn stop_canvas(workspace: &mut WorkspacePackage, first: &String, second: Option<String>) -> (r: Result<bool, String>)
    ensures
        stop_canvas_is(
            *old(workspace),
            *final(workspace),
            first@,
            match second {
                Some(s) => Some(s@),
                None => None,
            },
            r,
        ),
{
    let canvas_id = match second {
        Some(c) => c,
        None => return Err(text::owned("Canvas ID 缺失。")),
    };
    let (p, c) = match canvas_lookup(workspace, first, &canvas_id) {
        Some(found) => found,
        None => return Err(text::owned("Canvas 不存在或归属不正确。")),
    };
    match &workspace.projects.projects[p].1.canvases[c].1.publisher_id {
        None => Ok(false),
        Some(publisher_id) => {
            let publisher_id = publisher_id.clone();
            let removed = remove_text(&mut workspace.runtime_state.enabled_publishers, &publisher_id);
            Ok(removed)
        },
    }
}

/// Stops a managed instance: a direct endpoint is disabled, a canvas's
/// publisher is no longer enabled; other instances keep their intent.
/// Answers whether anything changed.
pub fn apply_instance_stop(workspace: &mut WorkspacePackage, instance_id: &str) -> (r: Result<bool, String>)
    ensures
        stop_is(*old(workspace), *final(workspace), instance_id@, r),
{
    let (kind, first, second) = match parse_managed_instance_id(instance_id) {
        Ok(parts) => parts,
        Err(m) => return Err(m),
    };
    match kind {
        ManagedInstanceKind::DirectEndpoint => stop_direct(workspace, &first),
        ManagedInstanceKind::Canvas => stop_canvas(workspace, &first, second),
    }
}

/// Stopping one managed instance leaves the intent of every other instance
/// as it was: stopping a direct endpoint changes no other endpoint and no
/// enabled publisher; stopping a canvas changes no direct endpoint, and the
/// only publisher whose enabled state can change is the canvas's own.
pub proof fn law_stop_keeps_other_intents(old: WorkspacePackage, new: WorkspacePackage, id: Seq<char>, r: Result<bool, String>)
    requires
        stop_is(old, new, id, r),
    ensures
        parsed_managed_id(id) matches Some((ManagedInstanceKind::DirectEndpoint, first, _)) ==> {
            &&& new.runtime_state == old.runtime_state
            &&& new.projects == old.projects
            &&& new.direct_endpoints@.len() == old.direct_endpoints@.len()
            &&& forall|j: int|
                0 <= j < old.direct_endpoints@.len() && old.direct_endpoints@[j].0@ != first ==> #[trigger] new.direct_endpoints@[j]
                    == old.direct_endpoints@[j]
        },
        parsed_managed_id(id) matches Some((ManagedInstanceKind::Canvas, first, second)) ==> {
            &&& new.direct_endpoints == old.direct_endpoints
            &&& new.projects == old.projects
            &&& forall|q: Seq<char>|
                #![trigger str_views(new.runtime_state.enabled_publishers@).contains(q)]
                str_views(new.runtime_state.enabled_publishers@).contains(q) != str_views(old.runtime_state.enabled_publishers@).contains(q)
                    ==> (second matches Some(c) && canvas_of(old, first, c) matches Some(cv) && cv.publisher_id matches Some(p)
                    && p@ == q)
        },
{
    match parsed_managed_id(id) {
        Some((ManagedInstanceKind::Canvas, first, second)) => {
            match second {
                Some(c) => match canvas_of(old, first, c) {
                    Some(cv) => match cv.publisher_id {
                        Some(p) => {
                            let before = str_views(old.runtime_state.enabled_publishers@);
                            let after = str_views(new.runtime_state.enabled_publishers@);
                            assert forall|q: Seq<char>| #![trigger after.contains(q)] after.contains(q) != before.contains(q) implies q == p@ by {
                                if after.contains(q) {
                                    before.lemma_filter_contains_rev(other_than(p@), q);
                                    let i = choose|i: int| 0 <= i < after.len() && after[i] == q;
                                    before.lemma_filter_pred(other_than(p@), i);
                                } else if q != p@ {
                                    let i = choose|i: int| 0 <= i < before.len() && before[i] == q;
                                    before.lemma_filter_contains(other_than(p@), i);
                                }
                            }
                        },
                        None => {},
                    },
                    None => {},
                },
                None => {},
            }
        },
        Some((ManagedInstanceKind::DirectEndpoint, first, _)) => {
            lemma_key_index(old.direct_endpoints@, first);
        },
        None => {},
    }
}

// ---- The instance rack ----
/// What the rack shows of a managed instance.
#[derive(Debug, Clone, Copy, PartialEq, Eq, Structural)]
pub enum ManagedInstanceStatus {
    Running,
    Stopped,
    Starting,
    Stopping,
    Blocked,
    Failed,
    Unpublished,
}

/// Why the wallet asset stored under `asset_id` cannot serve, given the
/// references the credential store holds: the asset is missing or
/// disabled, its provider instance is missing or disabled, or the instance
/// lacks a reference or holds one the store does not.
pub open spec fn secret_reasons(w: WorkspacePackage, asset_id: Seq<char>, available: Seq<Seq<char>>) -> Seq<Seq<char>> {
    match lookup(w.wallet.assets@, asset_id) {
        None => seq!["引用的钱包资产不存在。"@],
        Some(a) => {
            let disabled = if !a.enabled {
                seq!["钱包资产“"@ + a.name@ + "”已停用。"@]
            } else {
                seq![]
            };
            match lookup(w.runtime.providers@, a.provider_instance_id@) {
                None => disabled.push("钱包资产“"@ + a.name@ + "”缺少 Provider 实例。"@),
                Some(p) => disabled + (if !p.enabled {
                    seq!["Provider“"@ + p.id@ + "”已停用。"@]
                } else {
                    seq![]
                }) + (if p.secret_refs@.len() == 0 || !all_available(p.secret_refs@, available) {
                    seq!["钱包资产“"@ + a.name@ + "”缺少上游 Secret。"@]
                } else {
                    seq![]
                }),
            }
        },
    }
}

fn quoted_name(before: &str, name: &str, after: &str) -> (r: String)
    ensures
        r@ == before@ + name@ + after@,
{
    let mut r = text::owned(before);
    text::push_str(&mut r, name);
    text::push_str(&mut r, after);
    r
}

/// Why the wallet asset stored under `asset_id` cannot serve yet; empty
/// when it can. `available` lists the references the credential store holds.
pub fn provider_secret_reasons(workspace: &WorkspacePackage, asset_id: &str, available: &Vec<String>) -> (r: Vec<String>)
    ensures
        str_views(r@) == secret_reasons(*workspace, asset_id@, str_views(available@)),
{
    let mut reasons: Vec<String> = Vec::new();
    let a = match find_entry(&workspace.wallet.assets, asset_id) {
        None => {
            reasons.push(text::owned("引用的钱包资产不存在。"));
            assert(str_views(reasons@) =~= seq!["引用的钱包资产不存在。"@]);
            return reasons;
        },
        Some(a) => a,
    };
    let asset = &workspace.wallet.assets[a].1;
    if !asset.enabled {
        reasons.push(quoted_name("钱包资产“", asset.name.as_str(), "”已停用。"));
    }
    let ghost disabled = str_views(reasons@);
    assert(disabled =~= if !asset.enabled {
        seq!["钱包资产“"@ + asset.name@ + "”已停用。"@]
    } else {
        seq![]
    });
    let k = match find_entry(&workspace.runtime.providers, asset.provider_instance_id.as_str()) {
        None => {
            reasons.push(quoted_name("钱包资产“", asset.name.as_str(), "”缺少 Provider 实例。"));
            assert(str_views(reasons@) =~= disabled.push("钱包资产“"@ + asset.name@ + "”缺少 Provider 实例。"@));
            return reasons;
        },
        Some(k) => k,
    };
    let provider = &workspace.runtime.providers[k].1;
    if !provider.enabled {
        reasons.push(quoted_name("Provider“", provider.id.as_str(), "”已停用。"));
    }
    let ghost with_provider = str_views(reasons@);
    if provider.secret_refs.len() == 0 || !all_available_exec(&provider.secret_refs, available) {
        reasons.push(quoted_name("钱包资产“", asset.name.as_str(), "”缺少上游 Secret。"));
    }
    proof {
        let p = *provider;
        let pe = if !p.enabled {
            seq!["Provider“"@ + p.id@ + "”已停用。"@]
        } else {
            seq![]
        };
        let ps = if p.secret_refs@.len() == 0 || !all_available(p.secret_refs@, str_views(available@)) {
            seq!["钱包资产“"@ + asset.name@ + "”缺少上游 Secret。"@]
        } else {
            seq![]
        };
        assert(with_provider =~= disabled + pe);
        assert(str_views(reasons@) =~= disabled + pe + ps);
    }
    reasons
}

/// The status the rack shows: an instance without a publisher is
/// unpublished; one that should run runs, is blocked by a reason, or has
/// failed; one that should not run is blocked by a reason or stopped.
pub open spec fn status_of(published: bool, desired_running: bool, actual_running: bool, blocked: bool) -> ManagedInstanceStatus {
    if !published {
        ManagedInstanceStatus::Unpublished
    } else if desired_running && actual_running {
        ManagedInstanceStatus::Running
    } else if desired_running && blocked {
        ManagedInstanceStatus::Blocked
    } else if desired_running {
        ManagedInstanceStatus::Failed
    } else if blocked {
        ManagedInstanceStatus::Blocked
    } else {
        ManagedInstanceStatus::Stopped
    }
}

pub fn instance_status(published: bool, desired_running: bool, actual_running: bool, blocked: bool) -> (r: ManagedInstanceStatus)
    ensures
        r == status_of(published, desired_running, actual_running, blocked),
{
    if !published {
        ManagedInstanceStatus::Unpublished
    } else if desired_running && actual_running {
        ManagedInstanceStatus::Running
    } else if desired_running && blocked {
        ManagedInstanceStatus::Blocked
    } else if desired_running {
        ManagedInstanceStatus::Failed
    } else if blocked {
        ManagedInstanceStatus::Blocked
    } else {
        ManagedInstanceStatus::Stopped
    }
}

/// How many of the statuses satisfy `f`.
pub open spec fn count_where(s: Seq<ManagedInstanceStatus>, f: spec_fn(ManagedInstanceStatus) -> bool) -> nat {
    s.filter(f).len()
}

pub open spec fn is_running(x: ManagedInstanceStatus) -> bool {
    x == ManagedInstanceStatus::Running
}

pub open spec fn is_stopped(x: ManagedInstanceStatus) -> bool {
    x == ManagedInstanceStatus::Stopped
}

/// Blocked and unpublished instances are counted together.
pub open spec fn is_blocked(x: ManagedInstanceStatus) -> bool {
    x == ManagedInstanceStatus::Blocked || x == ManagedInstanceStatus::Unpublished
}

pub open spec fn is_failed(x: ManagedInstanceStatus) -> bool {
    x == ManagedInstanceStatus::Failed
}

pub open spec fn running_pred() -> spec_fn(ManagedInstanceStatus) -> bool {
    |x: ManagedInstanceStatus| is_running(x)
}

pub open spec fn stopped_pred() -> spec_fn(ManagedInstanceStatus) -> bool {
    |x: ManagedInstanceStatus| is_stopped(x)
}

pub open spec fn blocked_pred() -> spec_fn(ManagedInstanceStatus) -> bool {
    |x: ManagedInstanceStatus| is_blocked(x)
}

pub open spec fn failed_pred() -> spec_fn(ManagedInstanceStatus) -> bool {
    |x: ManagedInstanceStatus| is_failed(x)
}

/// The rack's tallies: running, stopped, blocked (with unpublished) and
/// failed instances.
pub fn status_counts(statuses: &Vec<ManagedInstanceStatus>) -> (r: (usize, usize, usize, usize))
    ensures
        r.0 == count_where(statuses@, running_pred()),
        r.1 == count_where(statuses@, stopped_pred()),
        r.2 == count_where(statuses@, blocked_pred()),
        r.3 == count_where(statuses@, failed_pred()),
{
    let ghost s = statuses@;
    let ghost fr = running_pred();
    let ghost fs = stopped_pred();
    let ghost fb = blocked_pred();
    let ghost ff = failed_pred();
    let mut running: usize = 0;
    let mut stopped: usize = 0;
    let mut blocked: usize = 0;
    let mut failed: usize = 0;
    let mut i: usize = 0;
    assert(s.take(0) =~= seq![]);
    proof {
        s.take(0).lemma_filter_len(fr);
    }
    while i < statuses.len()
        invariant
            s == statuses@,
            fr == running_pred(),
            fs == stopped_pred(),
            fb == blocked_pred(),
            ff == failed_pred(),
            i <= s.len(),
            running == s.take(i as int).filter(fr).len(),
            stopped == s.take(i as int).filter(fs).len(),
            blocked == s.take(i as int).filter(fb).len(),
            failed == s.take(i as int).filter(ff).len(),
            running <= i && stopped <= i && blocked <= i && failed <= i,
        decreases s.len() - i,
    {
        let ghost prev = s.take(i as int);
        assert(s.take(i + 1) =~= prev.push(s[i as int]));
        proof {
            prev.lemma_filter_push(s[i as int], fr);
            prev.lemma_filter_push(s[i as int], fs);
            prev.lemma_filter_push(s[i as int], fb);
            prev.lemma_filter_push(s[i as int], ff);
        }
        match statuses[i] {
            ManagedInstanceStatus::Running => running = running + 1,
            ManagedInstanceStatus::Stopped => stopped = stopped + 1,
            ManagedInstanceStatus::Blocked => blocked = blocked + 1,
            ManagedInstanceStatus::Unpublished => blocked = blocked + 1,
            ManagedInstanceStatus::Failed => failed = failed + 1,
            _ => {},
        }
        i = i + 1;
    }
    assert(s.take(s.len() as int) =~= s);
    (running, stopped, blocked, failed)
}

// ---- The saved layout of the user interface ----
/// The version of the saved UI layout this host writes.
pub const UI_STATE_SCHEMA_VERSION: u32 = 5;

#[derive(Debug, Clone, Copy, PartialEq, Eq, Structural)]
pub enum ThemePreference {
    System,
    Light,
    Dark,
}

#[derive(Debug, Clone, Copy, PartialEq, Eq, Structural)]
pub enum WorkspaceIntent {
    ManageApis,
    UnifiedEndpoint,
    Reliability,
    Import,
}

#[derive(Debug, Clone, Copy, PartialEq, Eq, Structural)]
pub struct ShellUiState {
    pub left_sidebar_collapsed: bool,
    pub right_inspector_open: bool,
    pub right_inspector_pinned: bool,
    pub left_width: u16,
    pub right_width: u16,
}

/// A canvas viewport; each coordinate is the bits of an `f64`.
#[derive(Debug, Clone, Copy, PartialEq, Eq, Structural)]
pub struct CanvasViewport {
    pub x: u64,
    pub y: u64,
    pub zoom: u64,
}

/// A node position; each coordinate is the bits of an `f64`.
#[derive(Debug, Clone, Copy, PartialEq, Eq, Structural)]
pub struct CanvasPosition {
    pub x: u64,
    pub y: u64,
}

#[derive(Debug, Clone, PartialEq, Eq)]
pub struct WorkflowUiState {
    pub viewport: CanvasViewport,
    /// Node positions by node id, in key order.
    pub node_positions: Vec<(String, CanvasPosition)>,
    pub collapsed_groups: Vec<String>,
}

#[derive(Debug, Clone, PartialEq, Eq)]
pub struct WorkspaceUiState {
    pub schema_version: u32,
    pub theme_preference: ThemePreference,
    pub last_page: String,
    pub workspace_intent: WorkspaceIntent,
    pub shell: ShellUiState,
    /// Canvas layouts by workflow id, in key order.
    pub workflows: Vec<(String, WorkflowUiState)>,
    pub selected_project_id: Option<String>,
    pub selected_canvas_id: Option<String>,
    pub expanded_project_ids: Vec<String>,
    pub expanded_folder_ids: Vec<String>,
    /// The open tab of each canvas, by canvas id, in key order.
    pub canvas_tabs: Vec<(String, String)>,
}

/// The page shown when none is remembered.
pub fn default_page() -> (r: String)
    ensures
        r@ == "overview"@,
{
    text::owned("overview")
}

impl Default for WorkspaceUiState {
    fn default() -> (r: Self)
        ensures
            r.schema_version == UI_STATE_SCHEMA_VERSION,
            r.theme_preference == ThemePreference::System,
            r.last_page@ == "overview"@,
            r.workspace_intent == WorkspaceIntent::ManageApis,
            r.shell == (ShellUiState {
                left_sidebar_collapsed: false,
                right_inspector_open: false,
                right_inspector_pinned: false,
                left_width: 248,
                right_width: 320,
            }),
            r.workflows@.len() == 0,
            r.selected_project_id is None,
            r.selected_canvas_id is None,
            r.expanded_project_ids@.len() == 0,
            r.expanded_folder_ids@.len() == 0,
            r.canvas_tabs@.len() == 0,
    {
        WorkspaceUiState {
            schema_version: UI_STATE_SCHEMA_VERSION,
            theme_preference: ThemePreference::System,
            last_page: default_page(),
            workspace_intent: WorkspaceIntent::ManageApis,
            shell: ShellUiState {
                left_sidebar_collapsed: false,
                right_inspector_open: false,
                right_inspector_pinned: false,
                left_width: 248,
                right_width: 320,
            },
            workflows: Vec::new(),
            selected_project_id: None,
            selected_canvas_id: None,
            expanded_project_ids: Vec::new(),
            expanded_folder_ids: Vec::new(),
            canvas_tabs: Vec::new(),
        }
    }
}

/// Whether the `f64` with these bits is finite: its exponent is not all ones.
pub open spec fn f64_finite(b: u64) -> bool {
    (b / 0x10_0000_0000_0000u64) % 0x800u64 != 0x7ffu64
}

/// The bits of `0.2` and `2.5`.
pub open spec fn zoom_min() -> u64 {
    0x3FC9_9999_9999_999Au64
}

pub open spec fn zoom_max() -> u64 {
    0x4004_0000_0000_0000u64
}

/// `f64::clamp(0.2, 2.5)` on the bits of a finite `f64`: a negative value
/// (sign bit set) and any value below `0.2` become `0.2`, any value above
/// `2.5` becomes `2.5`. For non-negative finite values the order of the
/// bits is the order of the values.
pub open spec fn zoom_clamped(b: u64) -> u64 {
    if b >= 0x8000_0000_0000_0000u64 || b < zoom_min() {
        zoom_min()
    } else if b > zoom_max() {
        zoom_max()
    } else {
        b
    }
}

pub open spec fn clamp16(x: u16, lo: u16, hi: u16) -> u16 {
    if x < lo {
        lo
    } else if x > hi {
        hi
    } else {
        x
    }
}

/// Versions 1 to 4 are migrated to the current layout.
pub open spec fn migrating(v: u32) -> bool {
    1 <= v <= 4
}

/// The shell after sanitising: a migrated layout starts from the default
/// widths with the inspector closed; the widths are then clamped.
pub open spec fn shell_after(s: ShellUiState, migrated: bool) -> ShellUiState {
    let l: u16 = if migrated {
        248
    } else {
        s.left_width
    };
    let r: u16 = if migrated {
        320
    } else {
        s.right_width
    };
    ShellUiState {
        left_sidebar_collapsed: s.left_sidebar_collapsed,
        right_inspector_open: if migrated {
            false
        } else {
            s.right_inspector_open
        },
        right_inspector_pinned: if migrated {
            false
        } else {
            s.right_inspector_pinned
        },
        left_width: clamp16(l, 220, 320),
        right_width: clamp16(r, 296, 420),
    }
}

pub open spec fn allowed_page(p: Seq<char>) -> bool {
    p == "instances"@ || p == "wallet"@ || p == "direct"@ || p == "compositions"@ || p == "runs"@ || p == "notifications"@
        || p == "templates"@ || p == "settings"@
}

/// The page after sanitising: a migrated layout renames the pages that
/// moved; a page that is not offered falls back to the default page.
pub open spec fn page_after(p: Seq<char>, migrated: bool) -> Seq<char> {
    let renamed = if migrated && p == "overview"@ {
        "wallet"@
    } else if migrated && p == "workflows"@ {
        "compositions"@
    } else {
        p
    };
    if allowed_page(renamed) {
        renamed
    } else {
        "overview"@
    }
}

pub open spec fn allowed_tab(t: Seq<char>) -> bool {
    t == "overview"@ || t == "workflow"@ || t == "routes"@ || t == "publisher"@ || t == "docs"@ || t == "runs"@
}

/// `new` holds the texts of `old`, sorted and without repeats.
pub open spec fn sorted_set_of(new: Seq<Seq<char>>, old: Seq<Seq<char>>) -> bool {
    &&& strictly_sorted(new)
    &&& forall|t: Seq<char>| #![trigger new.contains(t)] new.contains(t) <==> old.contains(t)
}

pub open spec fn viewport_ok(w: WorkflowUiState) -> bool {
    f64_finite(w.viewport.x) && f64_finite(w.viewport.y) && f64_finite(w.viewport.zoom)
}

pub open spec fn position_ok(p: CanvasPosition) -> bool {
    f64_finite(p.x) && f64_finite(p.y)
}

pub open spec fn positions_ok(w: WorkflowUiState) -> bool {
    forall|i: int| 0 <= i < w.node_positions@.len() ==> position_ok(#[trigger] w.node_positions@[i].1)
}

/// A canvas layout after sanitising: the zoom clamped and the collapsed
/// groups sorted without repeats.
pub open spec fn workflow_sanitized(old: WorkflowUiState, new: WorkflowUiState) -> bool {
    &&& new.viewport == (CanvasViewport { zoom: zoom_clamped(old.viewport.zoom), ..old.viewport })
    &&& new.node_positions == old.node_positions
    &&& sorted_set_of(str_views(new.collapsed_groups@), str_views(old.collapsed_groups@))
}

/// The first canvas layout with a coordinate that is not finite.
pub open spec fn first_bad_workflow(ws: Seq<(String, WorkflowUiState)>) -> Option<int> {
    if exists|k: int| 0 <= k < ws.len() && !(viewport_ok(ws[k].1) && positions_ok(ws[k].1)) {
        Some(
            choose|k: int|
                0 <= k < ws.len() && !(viewport_ok(ws[k].1) && positions_ok(ws[k].1)) && forall|j: int|
                    0 <= j < k ==> viewport_ok(#[trigger] ws[j].1) && positions_ok(ws[j].1),
        )
    } else {
        None
    }
}

/// The fields set before the canvas layouts are looked at.
pub open spec fn header_sanitized(old: WorkspaceUiState, new: WorkspaceUiState) -> bool {
    let migrated = migrating(old.schema_version);
    &&& new.schema_version == UI_STATE_SCHEMA_VERSION
    &&& new.theme_preference == old.theme_preference
    &&& new.workspace_intent == old.workspace_intent
    &&& new.shell == shell_after(old.shell, migrated)
    &&& new.last_page@ == page_after(old.last_page@, migrated)
    &&& new.selected_project_id == old.selected_project_id
    &&& new.selected_canvas_id == old.selected_canvas_id
}

/// What sanitising the canvas layouts does: they are sanitised in order; a
/// layout with a coordinate that is not finite stops the work with an error,
/// the layouts before it sanitised and its zoom clamped when only a node
/// position was at fault.
pub open spec fn workflows_sanitized(ws: Seq<(String, WorkflowUiState)>, new: Seq<(String, WorkflowUiState)>, r: Result<(), String>) -> bool {
    &&& new.len() == ws.len()
    &&& forall|i: int| 0 <= i < ws.len() ==> (#[trigger] new[i]).0 == ws[i].0
    &&& match first_bad_workflow(ws) {
        Some(k) => {
            &&& (forall|i: int| 0 <= i < k ==> workflow_sanitized(ws[i].1, #[trigger] new[i].1))
            &&& (forall|i: int| k < i < ws.len() ==> #[trigger] new[i] == ws[i])
            &&& if !viewport_ok(ws[k].1) {
                r matches Err(m) && m@ == "画布视口包含无效数值。"@ && new[k] == ws[k]
            } else {
                r matches Err(m) && m@ == "节点坐标包含无效数值。"@ && new[k].1 == (WorkflowUiState {
                    viewport: CanvasViewport { zoom: zoom_clamped(ws[k].1.viewport.zoom), ..ws[k].1.viewport },
                    ..ws[k].1
                })
            }
        },
        None => {
            &&& r is Ok
            &&& forall|i: int| 0 <= i < ws.len() ==> workflow_sanitized(ws[i].1, #[trigger] new[i].1)
        },
    }
}

/// What sanitising a saved layout does. An unknown version is refused and
/// nothing changes. Otherwise the header is set and the canvas layouts are
/// sanitised; when every layout is sound, the expanded ids are then sorted
/// without repeats and only the known tabs stay.
pub open spec fn ui_sanitized(old: WorkspaceUiState, new: WorkspaceUiState, r: Result<(), String>) -> bool {
    if !migrating(old.schema_version) && old.schema_version != UI_STATE_SCHEMA_VERSION {
        r matches Err(m) && m@ == "不支持的桌面 UI 状态版本。"@ && new == old
    } else {
        &&& header_sanitized(old, new)
        &&& workflows_sanitized(old.workflows@, new.workflows@, r)
        &&& if first_bad_workflow(old.workflows@) is Some {
            &&& new.expanded_project_ids == old.expanded_project_ids
            &&& new.expanded_folder_ids == old.expanded_folder_ids
            &&& new.canvas_tabs == old.canvas_tabs
        } else {
            &&& sorted_set_of(str_views(new.expanded_project_ids@), str_views(old.expanded_project_ids@))
            &&& sorted_set_of(str_views(new.expanded_folder_ids@), str_views(old.expanded_folder_ids@))
            &&& new.canvas_tabs@ == old.canvas_tabs@.filter(|e: (String, String)| allowed_tab(e.1@))
        }
    }
}

fn f64_finite_exec(b: u64) -> (r: bool)
    ensures
        r == f64_finite(b),
{
    (b / 0x10_0000_0000_0000u64) % 0x800u64 != 0x7ffu64
}

fn zoom_clamp_exec(b: u64) -> (r: u64)
    ensures
        r == zoom_clamped(b),
{
    if b >= 0x8000_0000_0000_0000u64 || b < 0x3FC9_9999_9999_999Au64 {
        0x3FC9_9999_9999_999Au64
    } else if b > 0x4004_0000_0000_0000u64 {
        0x4004_0000_0000_0000u64
    } else {
        b
    }
}

fn clamp16_exec(x: u16, lo: u16, hi: u16) -> (r: u16)
    ensures
        r == clamp16(x, lo, hi),
{
    if x < lo {
        lo
    } else if x > hi {
        hi
    } else {
        x
    }
}

/// The texts of `v`, sorted and without repeats.
pub(crate) fn sorted_unique(v: &Vec<String>) -> (r: Vec<String>)
    ensures
        sorted_set_of(str_views(r@), str_views(v@)),
{
    let mut r: Vec<String> = Vec::new();
    let mut i: usize = 0;
    while i < v.len()
        invariant
            i <= v@.len(),
            strictly_sorted(str_views(r@)),
            forall|t: Seq<char>| #![trigger str_views(r@).contains(t)] str_views(r@).contains(t) <==> str_views(v@).take(i as int).contains(t),
        decreases v.len() - i,
    {
        let ghost prev = str_views(v@).take(i as int);
        let ghost nxt = str_views(v@).take(i + 1);
        insert_sorted_unique(&mut r, v[i].clone());
        proof {
            assert(nxt =~= prev.push(v@[i as int]@));
            assert forall|t: Seq<char>| #![trigger str_views(r@).contains(t)] str_views(r@).contains(t) <==> nxt.contains(t) by {
                if nxt.contains(t) && t != v@[i as int]@ {
                    let j = choose|j: int| 0 <= j < nxt.len() && nxt[j] == t;
                    assert(prev[j] == t);
                }
                if prev.contains(t) {
                    let j = choose|j: int| 0 <= j < prev.len() && prev[j] == t;
                    assert(nxt[j] == t);
                }
                if t == v@[i as int]@ {
                    assert(nxt[i as int] == t);
                }
            }
        }
        i = i + 1;
    }
    assert(str_views(v@).take(v@.len() as int) =~= str_views(v@));
    r
}

fn allowed_page_exec(p: &str) -> (r: bool)
    ensures
        r == allowed_page(p@),
{
    text::str_eq(p, "instances") || text::str_eq(p, "wallet") || text::str_eq(p, "direct") || text::str_eq(p, "compositions")
        || text::str_eq(p, "runs") || text::str_eq(p, "notifications") || text::str_eq(p, "templates") || text::str_eq(
        p,
        "settings",
    )
}

fn allowed_tab_exec(t: &str) -> (r: bool)
    ensures
        r == allowed_tab(t@),
{
    text::str_eq(t, "overview") || text::str_eq(t, "workflow") || text::str_eq(t, "routes") || text::str_eq(t, "publisher")
        || text::str_eq(t, "docs") || text::str_eq(t, "runs")
}

fn positions_ok_exec(ps: &Vec<(String, CanvasPosition)>) -> (r: bool)
    ensures
        r == (forall|i: int| 0 <= i < ps@.len() ==> position_ok(#[trigger] ps@[i].1)),
{
    let mut i: usize = 0;
    while i < ps.len()
        invariant
            i <= ps@.len(),
            forall|j: int| 0 <= j < i ==> position_ok(#[trigger] ps@[j].1),
        decreases ps.len() - i,
    {
        let fx = f64_finite_exec(ps[i].1.x);
        let fy = f64_finite_exec(ps[i].1.y);
        if !fx || !fy {
            return false;
        }
        assert(position_ok(ps@[i as int].1));
        i = i + 1;
    }
    true
}

fn keep_known_tabs(tabs: &Vec<(String, String)>) -> (r: Vec<(String, String)>)
    ensures
        r@ == tabs@.filter(|e: (String, String)| allowed_tab(e.1@)),
{
    let mut r: Vec<(String, String)> = Vec::new();
    let mut i: usize = 0;
    assert(tabs@.take(0).filter(|e: (String, String)| allowed_tab(e.1@)) =~= seq![]);
    while i < tabs.len()
        invariant
            i <= tabs@.len(),
            r@ == tabs@.take(i as int).filter(|e: (String, String)| allowed_tab(e.1@)),
        decreases tabs.len() - i,
    {
        let ghost prev = tabs@.take(i as int);
        assert(tabs@.take(i + 1) =~= prev.push(tabs@[i as int]));
        proof {
            prev.lemma_filter_push(tabs@[i as int], |e: (String, String)| allowed_tab(e.1@));
        }
        if allowed_tab_exec(tabs[i].1.as_str()) {
            r.push((tabs[i].0.clone(), tabs[i].1.clone()));
        }
        i = i + 1;
    }
    assert(tabs@.take(tabs@.len() as int) =~= tabs@);
    r
}

fn sanitize_workflows(workflows: &mut Vec<(String, WorkflowUiState)>) -> (r: Result<(), String>)
    ensures
        workflows_sanitized(old(workflows)@, final(workflows)@, r),
{
    let ghost ws = workflows@;
    let mut i: usize = 0;
    while i < workflows.len()
        invariant
            ws == old(workflows)@,
            workflows@.len() == ws.len(),
            i <= ws.len(),
            forall|j: int| 0 <= j < ws.len() ==> (#[trigger] workflows@[j]).0 == ws[j].0,
            forall|j: int| 0 <= j < i ==> workflow_sanitized(ws[j].1, #[trigger] workflows@[j].1),
            forall|j: int| 0 <= j < i ==> viewport_ok(#[trigger] ws[j].1) && positions_ok(ws[j].1),
            forall|j: int| i <= j < ws.len() ==> #[trigger] workflows@[j] == ws[j],
        decreases ws.len() - i,
    {
        let ghost before = workflows@;
        let (key, mut workflow) = workflows.remove(i);
        let fx = f64_finite_exec(workflow.viewport.x);
        let fy = f64_finite_exec(workflow.viewport.y);
        let fz = f64_finite_exec(workflow.viewport.zoom);
        if !fx || !fy || !fz {
            workflows.insert(i, (key, workflow));
            proof {
                assert(workflows@ =~= before);
                assert(!viewport_ok(ws[i as int].1));
                assert(first_bad_workflow(ws) == Some(i as int));
            }
            return Err(text::owned("画布视口包含无效数值。"));
        }
        workflow.viewport.zoom = zoom_clamp_exec(workflow.viewport.zoom);
        if !positions_ok_exec(&workflow.node_positions) {
            workflows.insert(i, (key, workflow));
            proof {
                assert(viewport_ok(ws[i as int].1));
                assert(!positions_ok(ws[i as int].1));
                assert(first_bad_workflow(ws) == Some(i as int));
                assert forall|j: int| i < j < ws.len() implies #[trigger] workflows@[j] == ws[j] by {
                    assert(workflows@[j] == before[j]);
                }
                assert forall|j: int| 0 <= j < i implies workflow_sanitized(ws[j].1, #[trigger] workflows@[j].1) by {
                    assert(workflows@[j] == before[j]);
                }
            }
            return Err(text::owned("节点坐标包含无效数值。"));
        }
        let groups = sorted_unique(&workflow.collapsed_groups);
        workflow.collapsed_groups = groups;
        workflows.insert(i, (key, workflow));
        proof {
            assert(positions_ok(ws[i as int].1));
            assert forall|j: int| 0 <= j < ws.len() && j != i implies #[trigger] workflows@[j] == before[j] by {}
        }
        i = i + 1;
    }
    proof {
        assert(first_bad_workflow(ws) is None);
    }
    Ok(())
}

/// Sanitises a saved UI layout before use: migrates versions 1 to 4,
/// refuses other unknown versions, clamps the shell widths and the canvas
/// zoom, falls back to the default page for a page that is not offered,
/// refuses coordinates that are not finite, sorts the expanded ids and the
/// collapsed groups without repeats and keeps only the known canvas tabs.
pub fn sanitize_ui_state(state: &mut WorkspaceUiState) -> (r: Result<(), String>)
    ensures
        ui_sanitized(*old(state), *final(state), r),
{
    let v = state.schema_version;
    let migrated = 1 <= v && v <= 4;
    if !migrated && v != UI_STATE_SCHEMA_VERSION {
        return Err(text::owned("不支持的桌面 UI 状态版本。"));
    }
    state.schema_version = UI_STATE_SCHEMA_VERSION;
    if migrated {
        state.shell.left_width = 248;
        state.shell.right_width = 320;
        state.shell.right_inspector_open = false;
        state.shell.right_inspector_pinned = false;
        if text::str_eq(state.last_page.as_str(), "overview") {
            state.last_page = text::owned("wallet");
        } else if text::str_eq(state.last_page.as_str(), "workflows") {
            state.last_page = text::owned("compositions");
        }
    }
    state.shell.left_width = clamp16_exec(state.shell.left_width, 220, 320);
    state.shell.right_width = clamp16_exec(state.shell.right_width, 296, 420);
    if !allowed_page_exec(state.last_page.as_str()) {
        state.last_page = default_page();
    }
    match sanitize_workflows(&mut state.workflows) {
        Err(m) => {
            return Err(m);
        },
        Ok(()) => {},
    }
    let projects = sorted_unique(&state.expanded_project_ids);
    state.expanded_project_ids = projects;
    let folders = sorted_unique(&state.expanded_folder_ids);
    state.expanded_folder_ids = folders;
    let tabs = keep_known_tabs(&state.canvas_tabs);
    state.canvas_tabs = tabs;
    Ok(())
}

} // verus!
