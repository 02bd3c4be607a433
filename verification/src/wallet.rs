//! The API wallet: a new asset for a catalog provider, and placing an asset
//! on a project canvas.
use crate::desktop::{
    normalize_id, normalized_id, unique_display_name, unique_display_name_of, unique_id_of, unique_map_id,
};
use crate::graph::{
    CandidateBinding, Edge, Endpoint, Node, NodeConfig, NodeKind, Port, PortType, ProviderConfig, PublicModelRoute,
};
use crate::host_state::{entry_index, key_index, lemma_key_index};
use crate::provider::{AuthenticationField, ProviderManifest};
use crate::runtime::{ModelRoute, ProviderInstance, RuntimePublisher, UpstreamRoute};
use crate::secret::{secret_ref_valid, SecretRef};
use crate::sort::str_views;
use crate::stream::opt_view;
use crate::text::{self, seq_lt};
use crate::workspace::{find_entry, lookup, ApiAsset, BillingPolicy, Canvas, Project, WorkspacePackage};
use vstd::prelude::*;

verus! {

// ---- A new asset ----
/// The keys of a keyed list.
pub open spec fn key_views<V>(l: Seq<(String, V)>) -> Seq<Seq<char>> {
    l.map_values(|e: (String, V)| e.0@)
}

/// The id of the first authentication field that is secret and required.
pub open spec fn first_secret_field(fs: Seq<AuthenticationField>) -> Option<Seq<char>>
    decreases fs.len(),
{
    if fs.len() == 0 {
        None
    } else if fs[0].secret && fs[0].required {
        Some(fs[0].id@)
    } else {
        first_secret_field(fs.drop_first())
    }
}

/// The field that holds a new asset's key: the first secret, required
/// authentication field, else `api_key`.
pub open spec fn wallet_secret_field(m: ProviderManifest) -> Seq<char> {
    match first_secret_field(m.authentication.fields@) {
        Some(f) => f,
        None => "api_key"@,
    }
}

/// The id a new asset takes: its name as an identifier, made unique among
/// the wallet's assets.
pub open spec fn new_asset_id(w: WorkspacePackage, name: Seq<char>) -> Seq<char> {
    unique_id_of(key_views(w.wallet.assets@), normalized_id(name, "api"@))
}

/// The id of the new asset's provider instance: the asset id, made unique
/// among the provider instances.
pub open spec fn new_instance_id(w: WorkspacePackage, name: Seq<char>) -> Seq<char> {
    unique_id_of(key_views(w.runtime.providers@), new_asset_id(w, name))
}

/// The reference under which a new asset's key is stored.
pub open spec fn wallet_secret_ref(w: WorkspacePackage, m: ProviderManifest, name: Seq<char>) -> Seq<char> {
    "secret://wallet/"@ + new_asset_id(w, name) + "/"@ + wallet_secret_field(m)
}

pub open spec fn asset_names<V>(l: Seq<(String, ApiAsset)>) -> Seq<Seq<char>> {
    l.map_values(|e: (String, ApiAsset)| e.1.name@)
}

/// What a new wallet asset is: the asset, its provider instance, and the
/// reference for its key when one was given. Both are enabled only when a
/// key was given; the name is made unique among the asset names, ignoring
/// ASCII case.
pub open spec fn wallet_asset_is(
    r: (ApiAsset, ProviderInstance, Option<SecretRef>),
    w: WorkspacePackage,
    m: ProviderManifest,
    name: Seq<char>,
    has_key: bool,
    endpoint_override: Option<String>,
    budget: Option<u64>,
    currency: Option<String>,
) -> bool {
    let (a, p, s) = r;
    let aid = new_asset_id(w, name);
    let pid = new_instance_id(w, name);
    &&& a.id@ == aid
    &&& a.provider_instance_id@ == pid
    &&& a.provider_id@ == m.provider.id@
    &&& a.name@ == unique_display_name_of(asset_names::<ApiAsset>(w.wallet.assets@), name, m.provider.name@)
    &&& a.enabled == has_key
    &&& a.billing.monthly_budget_micros == budget
    &&& opt_view(a.billing.currency) == opt_view(currency)
    &&& a.billing.rules@.len() == 0
    &&& p.id@ == pid
    &&& p.manifest == m
    &&& opt_view(p.endpoint_override) == opt_view(endpoint_override)
    &&& p.enabled == has_key
    &&& if has_key {
        s matches Some(x) && x@ == wallet_secret_ref(w, m, name) && p.secret_refs@.len() == 1 && p.secret_refs@[0].0@
            == wallet_secret_field(m) && p.secret_refs@[0].1@ == x@
    } else {
        s is None && p.secret_refs@.len() == 0
    }
}

fn key_list<V>(l: &Vec<(String, V)>) -> (r: Vec<String>)
    ensures
        str_views(r@) == key_views(l@),
{
    let mut r: Vec<String> = Vec::new();
    let mut i: usize = 0;
    while i < l.len()
        invariant
            i <= l@.len(),
            str_views(r@) == key_views(l@).take(i as int),
        decreases l.len() - i,
    {
        let ghost before = str_views(r@);
        let x = l[i].0.clone();
        r.push(x);
        assert(str_views(r@) =~= before.push(x@));
        assert(key_views(l@).take(i + 1) =~= key_views(l@).take(i as int).push(l@[i as int].0@));
        i = i + 1;
    }
    assert(key_views(l@).take(l@.len() as int) =~= key_views(l@));
    r
}

fn name_list(l: &Vec<(String, ApiAsset)>) -> (r: Vec<String>)
    ensures
        str_views(r@) == asset_names::<ApiAsset>(l@),
{
    let mut r: Vec<String> = Vec::new();
    let mut i: usize = 0;
    while i < l.len()
        invariant
            i <= l@.len(),
            str_views(r@) == asset_names::<ApiAsset>(l@).take(i as int),
        decreases l.len() - i,
    {
        let ghost before = str_views(r@);
        let x = l[i].1.name.clone();
        r.push(x);
        assert(str_views(r@) =~= before.push(x@));
        assert(asset_names::<ApiAsset>(l@).take(i + 1) =~= asset_names::<ApiAsset>(l@).take(i as int).push(l@[i as int].1.name@));
        i = i + 1;
    }
    assert(asset_names::<ApiAsset>(l@).take(l@.len() as int) =~= asset_names::<ApiAsset>(l@));
    r
}

fn secret_field(m: &ProviderManifest) -> (r: String)
    ensures
        r@ == wallet_secret_field(*m),
{
    let fs = &m.authentication.fields;
    let mut i: usize = 0;
    assert(fs@.skip(0) =~= fs@);
    while i < fs.len()
        invariant
            i <= fs@.len(),
            fs@ == m.authentication.fields@,
            first_secret_field(fs@) == first_secret_field(fs@.skip(i as int)),
        decreases fs.len() - i,
    {
        assert(fs@.skip(i as int).drop_first() =~= fs@.skip(i + 1));
        assert(fs@.skip(i as int)[0] == fs@[i as int]);
        if fs[i].secret && fs[i].required {
            assert(first_secret_field(fs@.skip(i as int)) == Some(fs@[i as int].id@));
            let x = fs[i].id.clone();
            return x;
        }
        i = i + 1;
    }
    text::owned("api_key")
}

/// A new wallet asset for a catalog provider, before it is stored: the
/// asset, its provider instance and, when a key was given, the reference
/// that will hold it. The only failure is a reference that the secret rules
/// refuse (a field id they do not allow); its message is returned.
pub fn new_wallet_asset(
    workspace: &WorkspacePackage,
    manifest: ProviderManifest,
    name: &str,
    has_key: bool,
    endpoint_override: Option<String>,
    monthly_budget_micros: Option<u64>,
    currency: Option<String>,
) -> (r: Result<(ApiAsset, ProviderInstance, Option<SecretRef>), String>)
    ensures
        match r {
            Ok(x) => wallet_asset_is(x, *workspace, manifest, name@, has_key, endpoint_override, monthly_budget_micros, currency)
                && (has_key ==> secret_ref_valid(wallet_secret_ref(*workspace, manifest, name@))),
            Err(_) => has_key && !secret_ref_valid(wallet_secret_ref(*workspace, manifest, name@)),
        },
{
    let w = workspace;
    let base = normalize_id(name, "api");
    let asset_keys = key_list(&w.wallet.assets);
    let asset_id = unique_map_id(&asset_keys, base.as_str());
    let provider_keys = key_list(&w.runtime.providers);
    let instance_id = unique_map_id(&provider_keys, asset_id.as_str());
    let names = name_list(&w.wallet.assets);
    let display = unique_display_name(&names, name, manifest.provider.name.as_str());
    let mut secret_refs: Vec<(String, SecretRef)> = Vec::new();
    let mut created: Option<SecretRef> = None;
    if has_key {
        let field = secret_field(&manifest);
        let mut text_ref = text::owned("secret://wallet/");
        text::push_str(&mut text_ref, asset_id.as_str());
        text::push_str(&mut text_ref, "/");
        text::push_str(&mut text_ref, field.as_str());
        match SecretRef::parse(text_ref.as_str()) {
            Err(e) => {
                return Err(e.message);
            },
            Ok(reference) => {
                let kept = reference.duplicate();
                secret_refs.push((field, reference));
                created = Some(kept);
            },
        }
    }
    let asset = ApiAsset {
        id: asset_id,
        provider_instance_id: instance_id.clone(),
        provider_id: manifest.provider.id.clone(),
        name: display,
        enabled: has_key,
        billing: BillingPolicy { monthly_budget_micros, currency, rules: Vec::new() },
    };
    let provider = ProviderInstance { id: instance_id, manifest, endpoint_override, secret_refs, enabled: has_key };
    Ok((asset, provider, created))
}

// ---- Storing it ----
/// Where a key goes in a keyed list: after every entry whose key is less.
pub open spec fn keyed_insert_is<V>(old: Seq<(String, V)>, new: Seq<(String, V)>, e: (String, V)) -> bool {
    exists|p: int|
        #![trigger old.insert(p, e)]
        0 <= p <= old.len() && new == old.insert(p, e) && (forall|j: int| 0 <= j < p ==> seq_lt(#[trigger] old[j].0@, e.0@)) && (p
            == old.len() || !seq_lt(old[p].0@, e.0@))
}

fn keyed_insert<V>(l: &mut Vec<(String, V)>, e: (String, V))
    ensures
        keyed_insert_is(old(l)@, final(l)@, e),
{
    let mut p: usize = 0;
    while p < l.len() && text::str_lt(l[p].0.as_str(), e.0.as_str())
        invariant
            p <= l@.len(),
            forall|j: int| 0 <= j < p ==> seq_lt(#[trigger] l@[j].0@, e.0@),
        decreases l.len() - p,
    {
        p = p + 1;
    }
    let ghost before = l@;
    l.insert(p, e);
    assert(l@ == before.insert(p as int, e));
}

pub open spec fn has_entry<V>(l: Seq<(String, V)>, k: Seq<char>) -> bool {
    key_views(l).contains(k)
}

fn has_entry_exec<V>(l: &Vec<(String, V)>, k: &str) -> (r: bool)
    ensures
        r == has_entry(l@, k@),
{
    let mut i: usize = 0;
    while i < l.len()
        invariant
            i <= l@.len(),
            forall|j: int| 0 <= j < i ==> l@[j].0@ != k@,
        decreases l.len() - i,
    {
        if text::str_eq(l[i].0.as_str(), k) {
            assert(key_views(l@)[i as int] == k@);
            return true;
        }
        i = i + 1;
    }
    proof {
        if has_entry(l@, k@) {
            let j = choose|j: int| 0 <= j < key_views(l@).len() && key_views(l@)[j] == k@;
            assert(l@[j].0@ == k@);
        }
    }
    false
}

/// Stores a new asset and its provider instance under their ids, unless
/// either id is taken by then; the workspace is then left as it was.
pub fn insert_wallet_asset(workspace: &mut WorkspacePackage, asset: ApiAsset, provider: ProviderInstance) -> (r: Result<(), String>)
    ensures
        match r {
            Err(m) => m@ == "钱包资产 ID 已被占用，请重试。"@ && *final(workspace) == *old(workspace) && (has_entry(
                old(workspace).wallet.assets@,
                asset.id@,
            ) || has_entry(old(workspace).runtime.providers@, provider.id@)),
            Ok(()) => {
                &&& !has_entry(old(workspace).wallet.assets@, asset.id@)
                &&& !has_entry(old(workspace).runtime.providers@, provider.id@)
                &&& exists|ka: String, kp: String|
                    #![trigger keyed_insert_is(old(workspace).wallet.assets@, final(workspace).wallet.assets@, (ka, asset)), keyed_insert_is(old(workspace).runtime.providers@, final(workspace).runtime.providers@, (kp, provider))]
                    ka@ == asset.id@ && kp@ == provider.id@ && keyed_insert_is(
                        old(workspace).wallet.assets@,
                        final(workspace).wallet.assets@,
                        (ka, asset),
                    ) && keyed_insert_is(old(workspace).runtime.providers@, final(workspace).runtime.providers@, (kp, provider))
                &&& final(workspace).runtime.schema_version == old(workspace).runtime.schema_version
                &&& final(workspace).runtime.id == old(workspace).runtime.id
                &&& final(workspace).runtime.publishers == old(workspace).runtime.publishers
                &&& final(workspace).schema_version == old(workspace).schema_version
                &&& final(workspace).id == old(workspace).id
                &&& final(workspace).name == old(workspace).name
                &&& final(workspace).runtime_state == old(workspace).runtime_state
                &&& final(workspace).graph == old(workspace).graph
                &&& final(workspace).direct_endpoints == old(workspace).direct_endpoints
                &&& final(workspace).gateway == old(workspace).gateway
                &&& final(workspace).projects == old(workspace).projects
                &&& final(workspace).ui == old(workspace).ui
                &&& final(workspace).templates == old(workspace).templates
            },
        },
{
    if has_entry_exec(&workspace.wallet.assets, asset.id.as_str()) || has_entry_exec(
        &workspace.runtime.providers,
        provider.id.as_str(),
    ) {
        return Err(text::owned("钱包资产 ID 已被占用，请重试。"));
    }
    let ka = asset.id.clone();
    let kp = provider.id.clone();
    let ghost ea = (ka, asset);
    let ghost ep = (kp, provider);
    keyed_insert(&mut workspace.runtime.providers, (kp, provider));
    keyed_insert(&mut workspace.wallet.assets, (ka, asset));
    assert(keyed_insert_is(old(workspace).wallet.assets@, workspace.wallet.assets@, ea));
    assert(keyed_insert_is(old(workspace).runtime.providers@, workspace.runtime.providers@, ep));
    Ok(())
}

// ---- Placing an asset on a canvas ----
pub open spec fn node_ids(ns: Seq<Node>) -> Seq<Seq<char>> {
    ns.map_values(|n: Node| n.id@)
}

pub open spec fn edge_ids(es: Seq<Edge>) -> Seq<Seq<char>> {
    es.map_values(|e: Edge| e.id@)
}

/// The index of the first composer node from position `i` on.
pub open spec fn first_composer_at(ns: Seq<Node>, i: int) -> Option<int>
    decreases ns.len() - i,
{
    if i < 0 || i >= ns.len() {
        None
    } else if ns[i].kind == NodeKind::Composer {
        Some(i)
    } else {
        first_composer_at(ns, i + 1)
    }
}

/// The index of the first route for the public model `default`.
pub open spec fn first_default_route(rs: Seq<PublicModelRoute>, i: int) -> Option<int>
    decreases rs.len() - i,
{
    if i < 0 || i >= rs.len() {
        None
    } else if rs[i].public_model@ == "default"@ {
        Some(i)
    } else {
        first_default_route(rs, i + 1)
    }
}

/// How many candidates the routes bind, counted up to `u64::MAX`.
pub open spec fn candidate_total(rs: Seq<PublicModelRoute>, n: int) -> nat
    decreases n,
{
    if n <= 0 {
        0
    } else {
        let t = candidate_total(rs, n - 1) + rs[n - 1].candidates@.len();
        if t > u64::MAX {
            u64::MAX as nat
        } else {
            t
        }
    }
}

/// The provider node that stands for the asset on the canvas.
pub open spec fn new_node_ok(n: Node, node_id: Seq<char>, a: ApiAsset) -> bool {
    &&& n.id@ == node_id && n.name@ == a.name@ && n.kind == NodeKind::Provider && n.enabled
    &&& n.inputs@.len() == 0 && n.outputs@.len() == 1 && n.outputs@[0].id@ == "candidate_out"@
    &&& n.outputs@[0].data_type == PortType::Candidate
    &&& n.config matches NodeConfig::Provider(pc) && pc.asset_id@ == a.id@ && str_views(pc.selected_models@) == seq!["default"@]
}

/// The edge from the new node's candidate output to the composer's input.
pub open spec fn new_edge_ok(e: Edge, edge_id: Seq<char>, node_id: Seq<char>, composer_id: Seq<char>) -> bool {
    &&& e.id@ == edge_id && e.enabled && e.label is None
    &&& e.from.node@ == node_id && e.from.port@ == "candidate_out"@
    &&& e.to.node@ == composer_id && e.to.port@ == "candidate_in"@
}

pub open spec fn binding_ok(b: CandidateBinding, node_id: Seq<char>, priority: u32) -> bool {
    b.provider_node_id@ == node_id && b.upstream_model@ == "default"@ && b.priority == priority && b.weight == 1
}

/// The composer's routes with the new node bound to the model `default`,
/// after every candidate already bound.
pub open spec fn routes_after(old: Seq<PublicModelRoute>, new: Seq<PublicModelRoute>, node_id: Seq<char>) -> bool {
    let priority = candidate_total(old, old.len() as int) as u32;
    match first_default_route(old, 0) {
        Some(ri) => {
            &&& new.len() == old.len()
            &&& forall|j: int| 0 <= j < old.len() && j != ri ==> new[j] == old[j]
            &&& new[ri].public_model == old[ri].public_model
            &&& new[ri].candidates@.len() == old[ri].candidates@.len() + 1
            &&& new[ri].candidates@.drop_last() == old[ri].candidates@
            &&& binding_ok(new[ri].candidates@.last(), node_id, priority)
        },
        None => {
            &&& new.len() == old.len() + 1
            &&& new.drop_last() == old
            &&& new.last().public_model@ == "default"@
            &&& new.last().candidates@.len() == 1
            &&& binding_ok(new.last().candidates@[0], node_id, priority)
        },
    }
}

/// The composer node with the new node bound; a composer node whose
/// configuration is of another kind stays as it was.
pub open spec fn composer_after(old: Node, new: Node, node_id: Seq<char>) -> bool {
    &&& new.id == old.id && new.name == old.name && new.kind == old.kind && new.enabled == old.enabled
    &&& new.inputs == old.inputs && new.outputs == old.outputs
    &&& match old.config {
        NodeConfig::Composer(oc) => new.config matches NodeConfig::Composer(nc) && nc.strategy == oc.strategy
            && nc.timeout_ms == oc.timeout_ms && nc.max_retries == oc.max_retries && nc.failover_on == oc.failover_on
            && nc.allow_capability_degradation == oc.allow_capability_degradation && nc.latency_hysteresis_ms
            == oc.latency_hysteresis_ms && routes_after(oc.routes@, nc.routes@, node_id),
        _ => new.config == old.config,
    }
}

/// The canvas with the asset placed: a provider node with an id unique on
/// the canvas, an edge to the first composer, a candidate binding, and the
/// draft revision bumped.
pub open spec fn placed_canvas(old: Canvas, new: Canvas, a: ApiAsset) -> bool {
    let ns = old.graph.nodes@;
    let node_id = unique_id_of(node_ids(ns), a.id@ + "-group"@);
    match first_composer_at(ns, 0) {
        None => false,
        Some(ci) => {
            &&& new.id == old.id && new.name == old.name && new.folder_id == old.folder_id
            &&& new.applied_graph == old.applied_graph && new.applied_revision == old.applied_revision
            &&& new.publisher_id == old.publisher_id && new.legacy_multi_output == old.legacy_multi_output
            &&& new.graph.schema_version == old.graph.schema_version && new.graph.id == old.graph.id
            &&& new.graph.nodes@.len() == ns.len() + 1
            &&& forall|j: int| 0 <= j < ns.len() && j != ci ==> new.graph.nodes@[j] == ns[j]
            &&& composer_after(ns[ci], new.graph.nodes@[ci], node_id)
            &&& new_node_ok(new.graph.nodes@[ns.len() as int], node_id, a)
            &&& new.graph.edges@.len() == old.graph.edges@.len() + 1
            &&& new.graph.edges@.drop_last() == old.graph.edges@
            &&& new_edge_ok(
                new.graph.edges@.last(),
                unique_id_of(edge_ids(old.graph.edges@), node_id + "-to-output"@),
                node_id,
                ns[ci].id@,
            )
            &&& new.draft_revision == (if old.draft_revision == u64::MAX {
                u64::MAX
            } else {
                (old.draft_revision + 1) as u64
            })
        },
    }
}

pub open spec fn has_upstream_for(us: Seq<UpstreamRoute>, inst: Seq<char>) -> bool {
    exists|k: int| 0 <= k < us.len() && (#[trigger] us[k]).provider_instance@ == inst
}

/// A publisher route with an upstream for the asset's instance added,
/// unless it already has one.
pub open spec fn route_placed(old: ModelRoute, new: ModelRoute, pid: Seq<char>, a: ApiAsset, enabled: bool) -> bool {
    &&& new.public_model == old.public_model && new.policy == old.policy
    &&& if has_upstream_for(old.upstreams@, a.provider_instance_id@) {
        new.upstreams == old.upstreams
    } else {
        let u = new.upstreams@.last();
        &&& new.upstreams@.len() == old.upstreams@.len() + 1
        &&& new.upstreams@.drop_last() == old.upstreams@
        &&& u.id@ == pid + "-"@ + a.id@ && u.provider_instance@ == a.provider_instance_id@
        &&& u.upstream_model@ == old.public_model@
        &&& u.priority == (if old.upstreams@.len() > u32::MAX {
            u32::MAX
        } else {
            old.upstreams@.len() as u32
        })
        &&& u.enabled == enabled && u.conditions@.len() == 0
    }
}

pub open spec fn publisher_placed(old: RuntimePublisher, new: RuntimePublisher, pid: Seq<char>, a: ApiAsset, enabled: bool) -> bool {
    &&& new.config == old.config
    &&& new.routes@.len() == old.routes@.len()
    &&& forall|r: int| 0 <= r < old.routes@.len() ==> route_placed(old.routes@[r], #[trigger] new.routes@[r], pid, a, enabled)
}

/// Whether the asset's provider instance exists and is enabled.
pub open spec fn instance_enabled(w: WorkspacePackage, a: ApiAsset) -> bool {
    match lookup(w.runtime.providers@, a.provider_instance_id@) {
        Some(p) => p.enabled,
        None => false,
    }
}

/// The entry at `k` replaced by one under the same key whose value
/// satisfies `f`; the others unchanged.
pub open spec fn replaced_at<V>(old: Seq<(String, V)>, new: Seq<(String, V)>, k: int, f: spec_fn(V) -> bool) -> bool {
    &&& new.len() == old.len()
    &&& forall|j: int| 0 <= j < old.len() && j != k ==> new[j] == old[j]
    &&& new[k].0 == old[k].0
    &&& f(new[k].1)
}

/// The workspace with the asset placed on the canvas, and an upstream for
/// it added to each route of the canvas's publisher, if that exists.
pub open spec fn placed_workspace(old: WorkspacePackage, new: WorkspacePackage, ak: int, pk: int, ck: int) -> bool {
    let a = old.wallet.assets@[ak].1;
    let p = old.projects.projects@[pk].1;
    let c = p.canvases@[ck].1;
    &&& new.schema_version == old.schema_version && new.id == old.id && new.name == old.name
    &&& new.runtime_state == old.runtime_state && new.graph == old.graph && new.wallet == old.wallet
    &&& new.direct_endpoints == old.direct_endpoints && new.gateway == old.gateway && new.ui == old.ui
    &&& new.templates == old.templates
    &&& new.runtime.schema_version == old.runtime.schema_version && new.runtime.id == old.runtime.id
    &&& new.runtime.providers == old.runtime.providers
    &&& replaced_at(
        old.projects.projects@,
        new.projects.projects@,
        pk,
        |q: Project| q.id == p.id && q.name == p.name && q.folders == p.folders && replaced_at(
            p.canvases@,
            q.canvases@,
            ck,
            |d: Canvas| placed_canvas(c, d, a),
        ),
    )
    &&& match c.publisher_id {
        Some(pid) => match key_index(old.runtime.publishers@, pid@) {
            Some(k) => replaced_at(
                old.runtime.publishers@,
                new.runtime.publishers@,
                k,
                |b: RuntimePublisher| publisher_placed(old.runtime.publishers@[k].1, b, pid@, a, instance_enabled(old, a)),
            ),
            None => new.runtime.publishers == old.runtime.publishers,
        },
        None => new.runtime.publishers == old.runtime.publishers,
    }
}

/// What placing an asset gives: a refusal, with the workspace unchanged,
/// when the asset, the project, the canvas or its composer is missing;
/// otherwise the placed workspace.
pub open spec fn placement_is(
    old: WorkspacePackage,
    new: WorkspacePackage,
    asset_id: Seq<char>,
    project_id: Seq<char>,
    canvas_id: Seq<char>,
    r: Result<(), String>,
) -> bool {
    match key_index(old.wallet.assets@, asset_id) {
        None => r matches Err(m) && m@ == "Configure this catalog provider before placing it"@ && new == old,
        Some(ak) => match key_index(old.projects.projects@, project_id) {
            None => r matches Err(m) && m@ == "Project not found"@ && new == old,
            Some(pk) => match key_index(old.projects.projects@[pk].1.canvases@, canvas_id) {
                None => r matches Err(m) && m@ == "Canvas not found"@ && new == old,
                Some(ck) => if first_composer_at(old.projects.projects@[pk].1.canvases@[ck].1.graph.nodes@, 0) is None {
                    r matches Err(m) && m@ == "Canvas Composer is missing"@ && new == old
                } else {
                    r is Ok && placed_workspace(old, new, ak, pk, ck)
                },
            },
        },
    }
}

fn node_id_list(ns: &Vec<Node>) -> (r: Vec<String>)
    ensures
        str_views(r@) == node_ids(ns@),
{
    let mut r: Vec<String> = Vec::new();
    let mut i: usize = 0;
    while i < ns.len()
        invariant
            i <= ns@.len(),
            str_views(r@) == node_ids(ns@).take(i as int),
        decreases ns.len() - i,
    {
        let ghost before = str_views(r@);
        let x = ns[i].id.clone();
        r.push(x);
        assert(str_views(r@) =~= before.push(x@));
        assert(node_ids(ns@).take(i + 1) =~= node_ids(ns@).take(i as int).push(ns@[i as int].id@));
        i = i + 1;
    }
    assert(node_ids(ns@).take(ns@.len() as int) =~= node_ids(ns@));
    r
}

fn edge_id_list(es: &Vec<Edge>) -> (r: Vec<String>)
    ensures
        str_views(r@) == edge_ids(es@),
{
    let mut r: Vec<String> = Vec::new();
    let mut i: usize = 0;
    while i < es.len()
        invariant
            i <= es@.len(),
            str_views(r@) == edge_ids(es@).take(i as int),
        decreases es.len() - i,
    {
        let ghost before = str_views(r@);
        let x = es[i].id.clone();
        r.push(x);
        assert(str_views(r@) =~= before.push(x@));
        assert(edge_ids(es@).take(i + 1) =~= edge_ids(es@).take(i as int).push(es@[i as int].id@));
        i = i + 1;
    }
    assert(edge_ids(es@).take(es@.len() as int) =~= edge_ids(es@));
    r
}

fn composer_index(ns: &Vec<Node>) -> (r: Option<usize>)
    ensures
        match r {
            Some(k) => first_composer_at(ns@, 0) == Some(k as int) && k < ns@.len(),
            None => first_composer_at(ns@, 0) is None,
        },
{
    let mut i: usize = 0;
    while i < ns.len()
        invariant
            i <= ns@.len(),
            first_composer_at(ns@, 0) == first_composer_at(ns@, i as int),
        decreases ns.len() - i,
    {
        if ns[i].kind == NodeKind::Composer {
            return Some(i);
        }
        i = i + 1;
    }
    None
}

fn default_route_index(rs: &Vec<PublicModelRoute>) -> (r: Option<usize>)
    ensures
        match r {
            Some(k) => first_default_route(rs@, 0) == Some(k as int) && k < rs@.len(),
            None => first_default_route(rs@, 0) is None,
        },
{
    let mut i: usize = 0;
    while i < rs.len()
        invariant
            i <= rs@.len(),
            first_default_route(rs@, 0) == first_default_route(rs@, i as int),
        decreases rs.len() - i,
    {
        if text::str_eq(rs[i].public_model.as_str(), "default") {
            return Some(i);
        }
        i = i + 1;
    }
    None
}

fn candidate_total_exec(rs: &Vec<PublicModelRoute>) -> (r: u64)
    ensures
        r == candidate_total(rs@, rs@.len() as int),
{
    let mut t: u64 = 0;
    let mut i: usize = 0;
    while i < rs.len()
        invariant
            i <= rs@.len(),
            t == candidate_total(rs@, i as int),
        decreases rs.len() - i,
    {
        t = t.saturating_add(rs[i].candidates.len() as u64);
        i = i + 1;
    }
    t
}

fn binding(node_id: &String, priority: u32) -> (b: CandidateBinding)
    ensures
        binding_ok(b, node_id@, priority),
{
    CandidateBinding { provider_node_id: node_id.clone(), upstream_model: text::owned("default"), priority, weight: 1 }
}

fn place_on_composer(node: Node, node_id: &String) -> (new: Node)
    ensures
        composer_after(node, new, node_id@),
{
    let ghost old = node;
    let Node { id, name, kind, enabled, inputs, outputs, config } = node;
    let config = match config {
        NodeConfig::Composer(cfg) => {
            let priority = candidate_total_exec(&cfg.routes) as u32;
            let mut routes = cfg.routes;
            let ghost old_routes = routes@;
            match default_route_index(&routes) {
                Some(ri) => {
                    let mut route = routes.remove(ri);
                    let ghost old_route = route;
                    route.candidates.push(binding(node_id, priority));
                    assert(route.candidates@.drop_last() =~= old_route.candidates@);
                    routes.insert(ri, route);
                    assert forall|j: int| 0 <= j < old_routes.len() && j != ri implies routes@[j] == old_routes[j] by {
                        if j < ri {
                        } else {
                        }
                    }
                },
                None => {
                    let mut candidates: Vec<CandidateBinding> = Vec::new();
                    candidates.push(binding(node_id, priority));
                    routes.push(PublicModelRoute { public_model: text::owned("default"), candidates });
                    assert(routes@.drop_last() =~= old_routes);
                },
            }
            NodeConfig::Composer(
                crate::graph::ComposerConfig {
                    strategy: cfg.strategy,
                    timeout_ms: cfg.timeout_ms,
                    max_retries: cfg.max_retries,
                    failover_on: cfg.failover_on,
                    allow_capability_degradation: cfg.allow_capability_degradation,
                    latency_hysteresis_ms: cfg.latency_hysteresis_ms,
                    routes,
                },
            )
        },
        other => other,
    };
    Node { id, name, kind, enabled, inputs, outputs, config }
}

fn place_on_canvas(c: Canvas, a: &ApiAsset) -> (d: Canvas)
    requires
        first_composer_at(c.graph.nodes@, 0) is Some,
    ensures
        placed_canvas(c, d, *a),
{
    let ghost old = c;
    let Canvas { id, name, folder_id, graph, applied_graph, draft_revision, applied_revision, publisher_id, legacy_multi_output } = c;
    let crate::graph::WorkflowGraph { schema_version, id: graph_id, nodes, edges } = graph;
    let mut nodes = nodes;
    let mut edges = edges;
    let ghost ns = nodes@;
    let ids = node_id_list(&nodes);
    let base = joined_dash(a.id.as_str(), "-group");
    let node_id = unique_map_id(&ids, base.as_str());
    let ci = match composer_index(&nodes) {
        Some(k) => k,
        None => {
            return Canvas { id, name, folder_id, graph: crate::graph::WorkflowGraph { schema_version, id: graph_id, nodes, edges }, applied_graph, draft_revision, applied_revision, publisher_id, legacy_multi_output };
        },
    };
    let composer_id = nodes[ci].id.clone();
    let composer = nodes.remove(ci);
    let placed = place_on_composer(composer, &node_id);
    nodes.insert(ci, placed);
    assert forall|j: int| 0 <= j < ns.len() && j != ci implies nodes@[j] == ns[j] by {
        if j < ci {
        } else {
        }
    }
    let mut outputs: Vec<Port> = Vec::new();
    outputs.push(Port { id: text::owned("candidate_out"), data_type: PortType::Candidate });
    let mut selected: Vec<String> = Vec::new();
    selected.push(text::owned("default"));
    assert(str_views(selected@) =~= seq!["default"@]);
    nodes.push(
        Node {
            id: node_id.clone(),
            name: a.name.clone(),
            kind: NodeKind::Provider,
            enabled: true,
            inputs: Vec::new(),
            outputs,
            config: NodeConfig::Provider(ProviderConfig { asset_id: a.id.clone(), selected_models: selected }),
        },
    );
    let eids = edge_id_list(&edges);
    let ebase = joined_dash(node_id.as_str(), "-to-output");
    let edge_id = unique_map_id(&eids, ebase.as_str());
    let ghost es = edges@;
    edges.push(
        Edge {
            id: edge_id,
            from: Endpoint { node: node_id, port: text::owned("candidate_out") },
            to: Endpoint { node: composer_id, port: text::owned("candidate_in") },
            enabled: true,
            label: None,
        },
    );
    assert(edges@.drop_last() =~= es);
    Canvas {
        id,
        name,
        folder_id,
        graph: crate::graph::WorkflowGraph { schema_version, id: graph_id, nodes, edges },
        applied_graph,
        draft_revision: draft_revision.saturating_add(1),
        applied_revision,
        publisher_id,
        legacy_multi_output,
    }
}

fn joined_dash(a: &str, b: &str) -> (r: String)
    ensures
        r@ == a@ + b@,
{
    let mut r = text::owned(a);
    text::push_str(&mut r, b);
    r
}

fn has_upstream_exec(us: &Vec<UpstreamRoute>, inst: &str) -> (r: bool)
    ensures
        r == has_upstream_for(us@, inst@),
{
    let mut i: usize = 0;
    while i < us.len()
        invariant
            i <= us@.len(),
            forall|k: int| 0 <= k < i ==> us@[k].provider_instance@ != inst@,
        decreases us.len() - i,
    {
        if text::str_eq(us[i].provider_instance.as_str(), inst) {
            assert(us@[i as int].provider_instance@ == inst@);
            return true;
        }
        i = i + 1;
    }
    false
}

fn place_on_route(route: ModelRoute, pid: &str, a: &ApiAsset, enabled: bool) -> (new: ModelRoute)
    ensures
        route_placed(route, new, pid@, *a, enabled),
{
    if has_upstream_exec(&route.upstreams, a.provider_instance_id.as_str()) {
        return route;
    }
    let ModelRoute { public_model, policy, upstreams } = route;
    let mut upstreams = upstreams;
    let ghost old_ups = upstreams@;
    let n = upstreams.len();
    let priority: u32 = if n > 4294967295usize {
        4294967295u32
    } else {
        n as u32
    };
    let mut uid = text::owned(pid);
    text::push_str(&mut uid, "-");
    text::push_str(&mut uid, a.id.as_str());
    upstreams.push(
        UpstreamRoute {
            id: uid,
            provider_instance: a.provider_instance_id.clone(),
            upstream_model: public_model.clone(),
            priority,
            enabled,
            conditions: Vec::new(),
        },
    );
    assert(upstreams@.drop_last() =~= old_ups);
    ModelRoute { public_model, policy, upstreams }
}

fn place_on_publisher(pb: RuntimePublisher, pid: &str, a: &ApiAsset, enabled: bool) -> (new: RuntimePublisher)
    ensures
        publisher_placed(pb, new, pid@, *a, enabled),
{
    let RuntimePublisher { config, routes } = pb;
    let ghost old_routes = routes@;
    let mut routes = routes;
    let mut i: usize = 0;
    while i < routes.len()
        invariant
            i <= routes@.len(),
            routes@.len() == old_routes.len(),
            forall|r: int| 0 <= r < i ==> route_placed(old_routes[r], #[trigger] routes@[r], pid@, *a, enabled),
            forall|r: int| i <= r < routes@.len() ==> routes@[r] == old_routes[r],
        decreases routes.len() - i,
    {
        let route = routes.remove(i);
        let placed = place_on_route(route, pid, a, enabled);
        routes.insert(i, placed);
        assert forall|r: int| 0 <= r < i + 1 implies route_placed(old_routes[r], #[trigger] routes@[r], pid@, *a, enabled) by {
            if r < i {
            }
        }
        i = i + 1;
    }
    RuntimePublisher { config, routes }
}

/// Places a wallet asset on a project canvas: a provider node with a
/// unique id, an edge to the canvas's composer, a candidate binding after
/// the existing ones and a new draft revision; if the canvas has a
/// publisher, each of its routes gains an upstream for the asset's
/// instance. Missing pieces are refused and nothing changes.
pub fn place_wallet_asset(workspace: &mut WorkspacePackage, asset_id: &String, project_id: &String, canvas_id: &String) -> (r: Result<(), String>)
    ensures
        placement_is(*old(workspace), *final(workspace), asset_id@, project_id@, canvas_id@, r),
{
    proof {
        lemma_key_index(workspace.wallet.assets@, asset_id@);
        lemma_key_index(workspace.projects.projects@, project_id@);
    }
    let ak = match entry_index(&workspace.wallet.assets, asset_id) {
        Some(k) => k,
        None => {
            return Err(text::owned("Configure this catalog provider before placing it"));
        },
    };
    let pk = match entry_index(&workspace.projects.projects, project_id) {
        Some(k) => k,
        None => {
            return Err(text::owned("Project not found"));
        },
    };
    proof {
        lemma_key_index(workspace.projects.projects@[pk as int].1.canvases@, canvas_id@);
    }
    let ck = match entry_index(&workspace.projects.projects[pk].1.canvases, canvas_id) {
        Some(k) => k,
        None => {
            return Err(text::owned("Canvas not found"));
        },
    };
    match composer_index(&workspace.projects.projects[pk].1.canvases[ck].1.graph.nodes) {
        None => {
            return Err(text::owned("Canvas Composer is missing"));
        },
        Some(_) => {},
    }
    let ghost old_w = *workspace;
    let asset = &workspace.wallet.assets[ak].1;
    let enabled = match find_entry(&workspace.runtime.providers, asset.provider_instance_id.as_str()) {
        Some(k) => workspace.runtime.providers[k].1.enabled,
        None => false,
    };
    let publisher_id = copy_id(&workspace.projects.projects[pk].1.canvases[ck].1.publisher_id);
    let a = copy_asset_keys(asset);
    let mut pentry = workspace.projects.projects.remove(pk);
    let ghost old_p = pentry.1;
    let mut centry = pentry.1.canvases.remove(ck);
    let ghost old_c = centry.1;
    let (ckey, cval) = centry;
    let placed = place_on_canvas(cval, &a);
    pentry.1.canvases.insert(ck, (ckey, placed));
    workspace.projects.projects.insert(pk, pentry);
    match publisher_id {
        Some(pid) => {
            proof {
                lemma_key_index(workspace.runtime.publishers@, pid@);
            }
            match entry_index(&workspace.runtime.publishers, &pid) {
                Some(k) => {
                    let (bkey, bval) = workspace.runtime.publishers.remove(k);
                    let nb = place_on_publisher(bval, pid.as_str(), &a, enabled);
                    workspace.runtime.publishers.insert(k, (bkey, nb));
                },
                None => {},
            }
        },
        None => {},
    }
    Ok(())
}

fn copy_id(o: &Option<String>) -> (r: Option<String>)
    ensures
        r == *o,
{
    match o {
        Some(s) => Some(s.clone()),
        None => None,
    }
}

/// A copy of the asset's identifying fields and name, with the rest left
/// empty: all that placing it reads.
fn copy_asset_keys(a: &ApiAsset) -> (r: ApiAsset)
    ensures
        r.id == a.id && r.name == a.name && r.provider_instance_id == a.provider_instance_id,
{
    ApiAsset {
        id: a.id.clone(),
        provider_instance_id: a.provider_instance_id.clone(),
        provider_id: a.provider_id.clone(),
        name: a.name.clone(),
        enabled: a.enabled,
        billing: BillingPolicy { monthly_budget_micros: None, currency: None, rules: Vec::new() },
    }
}

} // verus!
