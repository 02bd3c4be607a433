//! The desktop workspace: the runtime configuration, the API wallet, audited
//! direct endpoints, the local gateway and the project tree of canvases.
//! Keyed collections are held as `(key, value)` vectors in key order.
use crate::compile::{asset_at, compile_canvas_graph, compiled_is, count_kind, count_kind_exec, find_asset, find_instance, CanvasCompilationReport, CompiledCanvasGraph};
use crate::simulation::{insert_sorted_unique, strictly_sorted};
use crate::sort::str_views;
use crate::error::{issue_views, iv, CoreError, ErrorCode, IssueView, ValidationIssue};
use crate::graph::{graph_issues, NodeKind, WorkflowGraph};
use crate::json::{json_error_message, json_is_valid, json_parse, json_value_of, JsonValue};
use crate::routing::opt_issue;
use crate::runtime::{
    append_nested_issues, byte_len, prefixed, route_total, runtime_issue_list, runtime_issues, upstream_total,
    provider_at, RuntimeConfig, RuntimePublisher, ProviderInstance,
};
use crate::secret::SecretRef;
use crate::text::{self, contains, decimal, ends_with, is_ascii_alnum, is_blank, lower, starts_with};
use vstd::prelude::*;

verus! {

pub const WORKSPACE_SCHEMA_VERSION: u32 = 6;

#[derive(Debug, Clone, Copy, PartialEq, Eq, Structural)]
pub enum PricingRuleSource {
    Builtin,
    User,
}

#[derive(Debug, Clone, PartialEq, Eq)]
pub struct PricingRule {
    pub model_pattern: String,
    /// Micro-units of the configured currency per one million tokens.
    pub input_per_million_micros: u64,
    pub cached_input_per_million_micros: Option<u64>,
    pub output_per_million_micros: u64,
    pub source: PricingRuleSource,
    pub version: String,
}

#[derive(Debug, Clone, PartialEq, Eq)]
pub struct BillingPolicy {
    pub monthly_budget_micros: Option<u64>,
    pub currency: Option<String>,
    pub rules: Vec<PricingRule>,
}

impl Default for BillingPolicy {
    fn default() -> (r: Self)
        ensures
            r.monthly_budget_micros is None,
            r.currency is None,
            r.rules@.len() == 0,
    {
        BillingPolicy { monthly_budget_micros: None, currency: None, rules: Vec::new() }
    }
}

#[derive(Debug, Clone, PartialEq, Eq)]
pub struct ApiAsset {
    pub id: String,
    pub provider_instance_id: String,
    pub provider_id: String,
    pub name: String,
    pub enabled: bool,
    pub billing: BillingPolicy,
}

#[derive(Debug, Clone, PartialEq, Eq)]
pub struct ApiWallet {
    /// Assets by id, in key order.
    pub assets: Vec<(String, ApiAsset)>,
}

impl Default for ApiWallet {
    fn default() -> (r: Self)
        ensures
            r.assets@.len() == 0,
    {
        ApiWallet { assets: Vec::new() }
    }
}

#[derive(Debug, Clone, PartialEq, Eq)]
pub struct DirectModelMapping {
    pub public_model: String,
    pub upstream_model: String,
}

#[derive(Debug, Clone, PartialEq, Eq)]
pub struct DirectEndpoint {
    pub id: String,
    pub name: String,
    pub alias: String,
    pub asset_id: String,
    pub token_ref: SecretRef,
    pub enabled: bool,
    pub models: Vec<DirectModelMapping>,
    pub timeout_ms: u64,
    pub max_retries: u32,
    /// Audit tags, in key order.
    pub audit_tags: Vec<(String, String)>,
    pub billing_override: Option<BillingPolicy>,
}

#[derive(Debug, Clone, PartialEq, Eq)]
pub struct DirectGateway {
    pub listen_address: String,
    pub port: u16,
}

impl Default for DirectGateway {
    fn default() -> (r: Self)
        ensures
            r.listen_address@ == "127.0.0.1"@,
            r.port == 7480,
    {
        DirectGateway { listen_address: "127.0.0.1".to_owned(), port: 7480 }
    }
}

#[derive(Debug, Clone, PartialEq, Eq)]
pub struct ProjectFolder {
    pub id: String,
    pub name: String,
    pub canvas_ids: Vec<String>,
}

#[derive(Debug, Clone, PartialEq, Eq)]
pub struct Canvas {
    pub id: String,
    pub name: String,
    pub folder_id: Option<String>,
    pub graph: WorkflowGraph,
    pub applied_graph: Option<WorkflowGraph>,
    pub draft_revision: u64,
    pub applied_revision: u64,
    pub publisher_id: Option<String>,
    /// Imports with more than one publisher keep them instead of being
    /// rewritten; new canvases always have one.
    pub legacy_multi_output: bool,
}

#[derive(Debug, Clone, PartialEq, Eq)]
pub struct Project {
    pub id: String,
    pub name: String,
    /// Folders by id, in key order.
    pub folders: Vec<(String, ProjectFolder)>,
    /// Canvases by id, in key order.
    pub canvases: Vec<(String, Canvas)>,
}

#[derive(Debug, Clone, PartialEq, Eq)]
pub struct WorkspaceProjects {
    /// Projects by id, in key order.
    pub projects: Vec<(String, Project)>,
}

#[derive(Debug, Clone, PartialEq, Eq)]
pub struct WorkspaceRuntimeState {
    /// Ids of the publishers the user enabled, in order and without repeats.
    pub enabled_publishers: Vec<String>,
}

#[derive(Debug, Clone, PartialEq, Eq)]
pub struct WorkspaceSecretStatus {
    pub required: Vec<String>,
    pub missing: Vec<String>,
    pub publisher_ready: Vec<(String, bool)>,
    pub direct_endpoint_ready: Vec<(String, bool)>,
}

/// Field names that only ever hold credentials (compared in lower case).
pub open spec fn sensitive_field(f: Seq<char>) -> bool {
    contains(f, "api_key"@) || contains(f, "password"@) || contains(f, "private_key"@) || contains(f, "client_secret"@)
        || f == "authorization"@ || ends_with(f, "token"@) || ends_with(f, "token_ref"@)
}

/// Text in the shape of a provider key, a bearer credential or a URL query
/// credential. Lengths are in UTF-8 bytes.
pub open spec fn looks_like_secret(t: Seq<char>) -> bool {
    (starts_with(t, "sk-"@) && byte_len(t) >= 16) || (starts_with(t, "AIza"@) && byte_len(t) >= 24) || (starts_with(
        t,
        "Bearer "@,
    ) && byte_len(t) >= 24) || contains(lower(t), "api_key="@) || contains(lower(t), "access_token="@)
}

/// A string that a workspace may not hold: a sensitive field that is not a
/// `secret://` reference, or text that looks like a credential anywhere.
pub open spec fn flagged(field: Option<Seq<char>>, t: Seq<char>) -> bool {
    let f = lower(
        match field {
            Some(x) => x,
            None => seq![],
        },
    );
    (sensitive_field(f) && !starts_with(t, "secret://"@)) || looks_like_secret(t)
}

pub open spec fn plaintext_issue(path: Seq<char>) -> IssueView {
    iv(path, "PLAINTEXT_SECRET_FORBIDDEN"@, "工作区只能保存 secret:// 引用，不能保存疑似明文凭据"@)
}

/// The strings of a JSON value that hold a plaintext credential, each
/// reported at its path (`$.key`, `$[0]`), in document order. A string
/// inside an array is judged by the name of the field holding the array.
pub open spec fn scan(v: JsonValue, path: Seq<char>, field: Option<Seq<char>>) -> Seq<IssueView>
    decreases v, 1int, 0int,
{
    match v {
        JsonValue::Object { keys, values } => scan_entries(v, path, values@.len() as int),
        JsonValue::Array(items) => scan_items(v, path, field, items@.len() as int),
        JsonValue::String(t) => if flagged(field, t@) {
            seq![plaintext_issue(path)]
        } else {
            seq![]
        },
        _ => seq![],
    }
}

/// The scan of the first `n` entries of an object.
pub open spec fn scan_entries(parent: JsonValue, path: Seq<char>, n: int) -> Seq<IssueView>
    decreases parent, 0int, n,
{
    match parent {
        JsonValue::Object { keys, values } => if n <= 0 || n > values@.len() {
            seq![]
        } else {
            let key = if n - 1 < keys@.len() {
                keys@[n - 1]@
            } else {
                seq![]
            };
            scan_entries(parent, path, n - 1) + scan(values@[n - 1], path + "."@ + key, Some(key))
        },
        _ => seq![],
    }
}

/// The scan of the first `n` items of an array.
pub open spec fn scan_items(parent: JsonValue, path: Seq<char>, field: Option<Seq<char>>, n: int) -> Seq<IssueView>
    decreases parent, 0int, n,
{
    match parent {
        JsonValue::Array(items) => if n <= 0 || n > items@.len() {
            seq![]
        } else {
            scan_items(parent, path, field, n - 1) + scan(items@[n - 1], path + "["@ + decimal((n - 1) as nat) + "]"@, field)
        },
        _ => seq![],
    }
}

fn flagged_exec(field: Option<&str>, t: &str) -> (r: bool)
    ensures
        r == flagged(
            match field {
                Some(x) => Some(x@),
                None => None,
            },
            t@,
        ),
{
    let f = match field {
        Some(x) => text::to_lower(x),
        None => {
            let e = String::new();
            proof {
                assert(lower(seq![]) =~= seq![]);
            }
            e
        },
    };
    let fs = f.as_str();
    let sensitive = text::contains_exec(fs, "api_key") || text::contains_exec(fs, "password") || text::contains_exec(fs, "private_key")
        || text::contains_exec(fs, "client_secret") || text::str_eq(fs, "authorization") || text::ends_with_exec(fs, "token")
        || text::ends_with_exec(fs, "token_ref");
    let lt = text::to_lower(t);
    let looks = (text::starts_with_exec(t, "sk-") && t.len() >= 16) || (text::starts_with_exec(t, "AIza") && t.len() >= 24)
        || (text::starts_with_exec(t, "Bearer ") && t.len() >= 24) || text::contains_exec(lt.as_str(), "api_key=")
        || text::contains_exec(lt.as_str(), "access_token=");
    (sensitive && !text::starts_with_exec(t, "secret://")) || looks
}

fn child_path(path: &str, sep: &str, name: &str, close: &str) -> (r: String)
    ensures
        r@ == path@ + sep@ + name@ + close@,
{
    let mut r = text::owned(path);
    text::push_str(&mut r, sep);
    text::push_str(&mut r, name);
    text::push_str(&mut r, close);
    r
}

/// Reports every plaintext credential in a JSON value.
pub fn scan_sensitive_value(v: &JsonValue, path: &str, field: Option<&str>, issues: &mut Vec<ValidationIssue>)
    ensures
        issue_views(final(issues)@) == issue_views(old(issues)@) + scan(
            *v,
            path@,
            match field {
                Some(x) => Some(x@),
                None => None,
            },
        ),
    decreases *v, 1int, 0int,
{
    let ghost fv = match field {
        Some(x) => Some(x@),
        None => None::<Seq<char>>,
    };
    let ghost start = issue_views(issues@);
    match v {
        JsonValue::Object { keys, values } => {
            let mut i: usize = 0;
            assert(scan_entries(*v, path@, 0) =~= seq![]);
            while i < values.len()
                invariant
                    i <= values@.len(),
                    *v == (JsonValue::Object { keys: *keys, values: *values }),
                    issue_views(issues@) == start + scan_entries(*v, path@, i as int),
                decreases values.len() - i,
            {
                let key = if i < keys.len() {
                    keys[i].clone()
                } else {
                    String::new()
                };
                let ghost kv = if i < keys@.len() {
                    keys@[i as int]@
                } else {
                    seq![]
                };
                assert(key@ == kv);
                let p = child_path(path, ".", key.as_str(), "");
                proof {
                    assert(p@ == path@ + "."@ + kv) by {
                        reveal_strlit("");
                        assert(path@ + "."@ + kv + ""@ =~= path@ + "."@ + kv);
                    }
                    assert(decreases_to!(*v => *values));
                    assert(decreases_to!(*values => values@));
                    assert(decreases_to!(values@ => values@[i as int]));
                }
                scan_sensitive_value(&values[i], p.as_str(), Some(key.as_str()), issues);
                assert(issue_views(issues@) =~= start + scan_entries(*v, path@, i + 1));
                i = i + 1;
            }
        },
        JsonValue::Array(items) => {
            let mut i: usize = 0;
            assert(scan_items(*v, path@, fv, 0) =~= seq![]);
            while i < items.len()
                invariant
                    i <= items@.len(),
                    *v == JsonValue::Array(*items),
                    fv == (match field {
                        Some(x) => Some(x@),
                        None => None::<Seq<char>>,
                    }),
                    issue_views(issues@) == start + scan_items(*v, path@, fv, i as int),
                decreases items.len() - i,
            {
                let d = text::decimal_string(i as u64);
                let p = child_path(path, "[", d.as_str(), "]");
                proof {
                    assert(decreases_to!(*v => *items));
                    assert(decreases_to!(*items => items@));
                    assert(decreases_to!(items@ => items@[i as int]));
                }
                scan_sensitive_value(&items[i], p.as_str(), field, issues);
                assert(issue_views(issues@) =~= start + scan_items(*v, path@, fv, i + 1));
                i = i + 1;
            }
        },
        JsonValue::String(t) => {
            if flagged_exec(field, t.as_str()) {
                issues.push(ValidationIssue::new(path, "PLAINTEXT_SECRET_FORBIDDEN", "工作区只能保存 secret:// 引用，不能保存疑似明文凭据"));
            }
            assert(issue_views(issues@) =~= start + scan(*v, path@, fv));
        },
        _ => {
            assert(issue_views(issues@) =~= start + scan(*v, path@, fv));
        },
    }
}

/// A desktop workspace: its runtime, the canvas graph kept from older
/// layouts, the API wallet, the audited direct endpoints, the loopback
/// gateway, the projects, and the UI state and templates as JSON text.
#[derive(Debug, Clone, PartialEq, Eq)]
pub struct WorkspacePackage {
    pub schema_version: u32,
    pub id: String,
    pub name: String,
    pub runtime: RuntimeConfig,
    pub runtime_state: WorkspaceRuntimeState,
    pub graph: WorkflowGraph,
    pub wallet: ApiWallet,
    /// Direct endpoints by id, in key order.
    pub direct_endpoints: Vec<(String, DirectEndpoint)>,
    pub gateway: DirectGateway,
    pub projects: WorkspaceProjects,
    pub ui: String,
    /// Templates by name, each as JSON text, in key order.
    pub templates: Vec<(String, String)>,
}

/// Whether a keyed list holds the key.
pub open spec fn has_key<V>(m: Seq<(String, V)>, k: Seq<char>) -> bool {
    exists|i: int| 0 <= i < m.len() && #[trigger] m[i].0@ == k
}

fn has_key_exec<V>(m: &Vec<(String, V)>, k: &str) -> (r: bool)
    ensures
        r == has_key(m@, k@),
{
    let mut i: usize = 0;
    while i < m.len()
        invariant
            i <= m@.len(),
            forall|j: int| 0 <= j < i ==> m@[j].0@ != k@,
        decreases m.len() - i,
    {
        if text::str_eq(m[i].0.as_str(), k) {
            assert(m@[i as int].0@ == k@);
            return true;
        }
        i = i + 1;
    }
    false
}

pub open spec fn head_issues(w: WorkspacePackage) -> Seq<IssueView> {
    opt_issue(w.schema_version != WORKSPACE_SCHEMA_VERSION, iv("schema_version"@, "UNSUPPORTED_SCHEMA"@, "工作区 Schema 版本不受支持"@))
        + opt_issue(is_blank(w.id@), iv("id"@, "REQUIRED"@, "工作区 ID 不能为空"@)) + opt_issue(
        is_blank(w.name@),
        iv("name"@, "REQUIRED"@, "工作区名称不能为空"@),
    ) + opt_issue(w.runtime.id@ != w.id@, iv("runtime.id"@, "WORKSPACE_ID_MISMATCH"@, "Runtime ID 必须与工作区 ID 一致"@))
        + opt_issue(
        w.gateway.listen_address@ != "127.0.0.1"@ && w.gateway.listen_address@ != "::1"@,
        iv("gateway.listen_address"@, "LOOPBACK_REQUIRED"@, "统一审计网关只能监听本机回环地址"@),
    ) + opt_issue(w.gateway.port < 1024, iv("gateway.port"@, "INVALID_PORT"@, "统一审计网关端口必须大于等于 1024"@))
}

/// Enabled publishers, among the first `n`, that the runtime lacks.
pub open spec fn enabled_issues(ids: Seq<String>, pubs: Seq<(String, RuntimePublisher)>, n: int) -> Seq<IssueView>
    decreases n,
{
    if n <= 0 {
        seq![]
    } else {
        enabled_issues(ids, pubs, n - 1) + opt_issue(
            !has_key(pubs, ids[n - 1]@),
            iv("runtime_state.enabled_publishers."@ + ids[n - 1]@, "PUBLISHER_NOT_FOUND"@, "启用状态引用了不存在的 Publisher"@),
        )
    }
}

/// The issues of a nested validation, re-rooted, when there are any.
pub open spec fn nested(prefix: Seq<char>, issues: Seq<IssueView>) -> Seq<IssueView> {
    if issues.len() == 0 {
        seq![]
    } else {
        prefixed(prefix, issues)
    }
}

pub open spec fn asset_issues(key: Seq<char>, a: ApiAsset, providers: Seq<(String, ProviderInstance)>) -> Seq<IssueView> {
    let path = "wallet.assets."@ + key;
    opt_issue(key != a.id@ || is_blank(a.id@), iv(path + ".id"@, "KEY_MISMATCH"@, "API wallet asset ID must match its map key"@))
        + opt_issue(
        !has_key(providers, a.provider_instance_id@),
        iv(path + ".provider_instance_id"@, "PROVIDER_NOT_FOUND"@, "API wallet asset references an unknown Provider instance"@),
    ) + opt_issue(is_blank(a.name@), iv(path + ".name"@, "REQUIRED"@, "API wallet asset name is required"@))
}

pub open spec fn assets_issues(assets: Seq<(String, ApiAsset)>, providers: Seq<(String, ProviderInstance)>, n: int) -> Seq<IssueView>
    decreases n,
{
    if n <= 0 {
        seq![]
    } else {
        assets_issues(assets, providers, n - 1) + asset_issues(assets[n - 1].0@, assets[n - 1].1, providers)
    }
}

/// An alias of ASCII letters, digits, hyphens and underscores.
pub open spec fn alias_chars(a: Seq<char>) -> bool {
    forall|i: int| 0 <= i < a.len() ==> is_ascii_alnum(#[trigger] a[i]) || a[i] == '-' || a[i] == '_'
}

pub open spec fn mapping_invalid(ms: Seq<DirectModelMapping>) -> bool {
    ms.len() == 0 || exists|i: int| 0 <= i < ms.len() && (is_blank(#[trigger] ms[i].public_model@) || is_blank(ms[i].upstream_model@))
}

/// The findings of the first `n` direct endpoints, with the aliases taken.
pub open spec fn endpoints_state(eps: Seq<(String, DirectEndpoint)>, assets: Seq<(String, ApiAsset)>, n: int) -> (Seq<IssueView>, Seq<Seq<char>>)
    decreases n,
{
    if n <= 0 {
        (seq![], seq![])
    } else {
        let prev = endpoints_state(eps, assets, n - 1);
        let key = eps[n - 1].0@;
        let e = eps[n - 1].1;
        let path = "direct_endpoints."@ + key;
        let malformed = is_blank(e.alias@) || !alias_chars(e.alias@);
        let taken = !malformed && prev.1.contains(e.alias@);
        let issues = opt_issue(key != e.id@ || is_blank(e.name@), iv(path, "ENDPOINT_INVALID"@, "审计直出端点 ID 和名称必须有效"@))
            + opt_issue(
            malformed || taken,
            iv(path + ".alias"@, "INVALID_OR_DUPLICATE_ALIAS"@, "直出别名必须唯一且只能包含 ASCII 字母、数字、连字符或下划线"@),
        ) + opt_issue(!has_key(assets, e.asset_id@), iv(path + ".asset_id"@, "ASSET_NOT_FOUND"@, "审计直出端点引用了不存在的钱包资产"@))
            + opt_issue(mapping_invalid(e.models@), iv(path + ".models"@, "MODEL_MAPPING_REQUIRED"@, "审计直出端点至少需要一条有效模型映射"@))
            + opt_issue(e.timeout_ms == 0 || e.max_retries > 10, iv(path, "POLICY_INVALID"@, "直出超时必须大于零且重试次数不能超过 10"@));
        (prev.0 + issues, if malformed || taken {
            prev.1
        } else {
            prev.1.push(e.alias@)
        })
    }
}

pub open spec fn canvas_ids_issues(fpath: Seq<char>, ids: Seq<String>, canvases: Seq<(String, Canvas)>, n: int) -> Seq<IssueView>
    decreases n,
{
    if n <= 0 {
        seq![]
    } else {
        canvas_ids_issues(fpath, ids, canvases, n - 1) + opt_issue(
            !has_key(canvases, ids[n - 1]@),
            iv(fpath + ".canvas_ids"@, "CANVAS_NOT_FOUND"@, "Folder references an unknown canvas"@),
        )
    }
}

pub open spec fn folders_issues(ppath: Seq<char>, p: Project, n: int) -> Seq<IssueView>
    decreases n,
{
    if n <= 0 {
        seq![]
    } else {
        let fid = p.folders@[n - 1].0@;
        let f = p.folders@[n - 1].1;
        let fpath = ppath + ".folders."@ + fid;
        folders_issues(ppath, p, n - 1) + opt_issue(
            fid != f.id@ || is_blank(f.name@),
            iv(fpath, "FOLDER_INVALID"@, "Folder ID and name must be valid"@),
        ) + canvas_ids_issues(fpath, f.canvas_ids@, p.canvases@, f.canvas_ids@.len() as int)
    }
}

pub open spec fn canvas_issues(ppath: Seq<char>, p: Project, cid: Seq<char>, c: Canvas, pubs: Seq<(String, RuntimePublisher)>) -> Seq<IssueView> {
    let cpath = ppath + ".canvases."@ + cid;
    let ns = c.graph.nodes@;
    opt_issue(cid != c.id@ || is_blank(c.name@), iv(cpath, "CANVAS_INVALID"@, "Canvas ID and name must be valid"@)) + opt_issue(
        c.folder_id matches Some(f) && !has_key(p.folders@, f@),
        iv(cpath + ".folder_id"@, "FOLDER_NOT_FOUND"@, "Canvas references an unknown folder"@),
    ) + nested(cpath + ".graph"@, graph_issues(c.graph)) + opt_issue(
        !c.legacy_multi_output && count_kind(ns, NodeKind::Publisher, ns.len() as int) != 1,
        iv(cpath + ".graph"@, "CANVAS_OUTPUT_REQUIRED"@, "New canvases must contain exactly one total Publisher output"@),
    ) + opt_issue(
        count_kind(ns, NodeKind::Composer, ns.len() as int) != 1,
        iv(cpath + ".graph"@, "CANVAS_COMPOSER_REQUIRED"@, "Canvas 必须且只能包含一个 Composer"@),
    ) + opt_issue(
        c.publisher_id matches Some(q) && !has_key(pubs, q@),
        iv(cpath + ".publisher_id"@, "PUBLISHER_NOT_FOUND"@, "Canvas references an unknown Publisher"@),
    )
}

pub open spec fn canvases_issues(ppath: Seq<char>, p: Project, pubs: Seq<(String, RuntimePublisher)>, n: int) -> Seq<IssueView>
    decreases n,
{
    if n <= 0 {
        seq![]
    } else {
        canvases_issues(ppath, p, pubs, n - 1) + canvas_issues(ppath, p, p.canvases@[n - 1].0@, p.canvases@[n - 1].1, pubs)
    }
}

pub open spec fn project_issues(pid: Seq<char>, p: Project, pubs: Seq<(String, RuntimePublisher)>) -> Seq<IssueView> {
    let ppath = "projects.projects."@ + pid;
    opt_issue(pid != p.id@ || is_blank(p.name@), iv(ppath, "PROJECT_INVALID"@, "Project ID and name must be valid"@))
        + folders_issues(ppath, p, p.folders@.len() as int) + canvases_issues(ppath, p, pubs, p.canvases@.len() as int)
}

pub open spec fn projects_issues(ps: Seq<(String, Project)>, pubs: Seq<(String, RuntimePublisher)>, n: int) -> Seq<IssueView>
    decreases n,
{
    if n <= 0 {
        seq![]
    } else {
        projects_issues(ps, pubs, n - 1) + project_issues(ps[n - 1].0@, ps[n - 1].1, pubs)
    }
}

/// Every issue workspace validation reports, in order; `document` is the
/// workspace as JSON, scanned for plaintext credentials.
pub open spec fn workspace_issues(w: WorkspacePackage, document: JsonValue) -> Seq<IssueView> {
    let rt = w.runtime;
    head_issues(w) + enabled_issues(w.runtime_state.enabled_publishers@, rt.publishers@, w.runtime_state.enabled_publishers@.len() as int)
        + nested("runtime"@, runtime_issues(rt)) + nested("graph"@, graph_issues(w.graph)) + assets_issues(
        w.wallet.assets@,
        rt.providers@,
        w.wallet.assets@.len() as int,
    ) + endpoints_state(w.direct_endpoints@, w.wallet.assets@, w.direct_endpoints@.len() as int).0 + projects_issues(
        w.projects.projects@,
        rt.publishers@,
        w.projects.projects@.len() as int,
    ) + scan(document, "$"@, None)
}

fn join(a: &str, b: &str) -> (r: String)
    ensures
        r@ == a@ + b@,
{
    let mut r = text::owned(a);
    text::push_str(&mut r, b);
    r
}

fn push_issue(issues: &mut Vec<ValidationIssue>, cond: bool, path: &str, code: &str, message: &str)
    ensures
        issue_views(final(issues)@) == issue_views(old(issues)@) + opt_issue(cond, iv(path@, code@, message@)),
{
    if cond {
        issues.push(ValidationIssue::new(path, code, message));
    }
    assert(issue_views(final(issues)@) =~= issue_views(old(issues)@) + opt_issue(cond, iv(path@, code@, message@)));
}

#[verifier::rlimit(30)]
fn head_check(w: &WorkspacePackage, issues: &mut Vec<ValidationIssue>)
    ensures
        issue_views(final(issues)@) == issue_views(old(issues)@) + head_issues(*w),
{
    let ghost start = issue_views(issues@);
    let mut local: Vec<ValidationIssue> = Vec::new();
    push_issue(&mut local, w.schema_version != WORKSPACE_SCHEMA_VERSION, "schema_version", "UNSUPPORTED_SCHEMA", "工作区 Schema 版本不受支持");
    push_issue(&mut local, text::is_blank_str(w.id.as_str()), "id", "REQUIRED", "工作区 ID 不能为空");
    push_issue(&mut local, text::is_blank_str(w.name.as_str()), "name", "REQUIRED", "工作区名称不能为空");
    push_issue(&mut local, !text::str_eq(w.runtime.id.as_str(), w.id.as_str()), "runtime.id", "WORKSPACE_ID_MISMATCH", "Runtime ID 必须与工作区 ID 一致");
    let addr = w.gateway.listen_address.as_str();
    let off_loopback = !text::str_eq(addr, "127.0.0.1") && !text::str_eq(addr, "::1");
    push_issue(&mut local, off_loopback, "gateway.listen_address", "LOOPBACK_REQUIRED", "统一审计网关只能监听本机回环地址");
    push_issue(&mut local, w.gateway.port < 1024, "gateway.port", "INVALID_PORT", "统一审计网关端口必须大于等于 1024");
    assert(issue_views(local@) =~= head_issues(*w));
    append_validation_issues(issues, local);
}

fn append_validation_issues(issues: &mut Vec<ValidationIssue>, more: Vec<ValidationIssue>)
    ensures
        issue_views(final(issues)@) == issue_views(old(issues)@) + issue_views(more@),
{
    let ghost start = issue_views(issues@);
    let ghost mv = issue_views(more@);
    let mut j: usize = 0;
    while j < more.len()
        invariant
            j <= more@.len(),
            mv == issue_views(more@),
            issue_views(issues@) == start + mv.take(j as int),
        decreases more.len() - j,
    {
        let ghost before = issue_views(issues@);
        issues.push(more[j].duplicate());
        assert(issue_views(issues@) =~= before.push(mv[j as int]));
        assert(mv.take(j + 1) =~= mv.take(j as int).push(mv[j as int]));
        j = j + 1;
    }
    assert(mv.take(more@.len() as int) =~= mv);
}

fn enabled_check(ids: &Vec<String>, pubs: &Vec<(String, RuntimePublisher)>, issues: &mut Vec<ValidationIssue>)
    ensures
        issue_views(final(issues)@) == issue_views(old(issues)@) + enabled_issues(ids@, pubs@, ids@.len() as int),
{
    let ghost start = issue_views(issues@);
    let mut i: usize = 0;
    while i < ids.len()
        invariant
            i <= ids@.len(),
            issue_views(issues@) == start + enabled_issues(ids@, pubs@, i as int),
        decreases ids.len() - i,
    {
        let path = join("runtime_state.enabled_publishers.", ids[i].as_str());
        push_issue(issues, !has_key_exec(pubs, ids[i].as_str()), path.as_str(), "PUBLISHER_NOT_FOUND", "启用状态引用了不存在的 Publisher");
        assert(issue_views(issues@) =~= start + enabled_issues(ids@, pubs@, i + 1));
        i = i + 1;
    }
}

fn graph_check(g: &WorkflowGraph, prefix: &str, issues: &mut Vec<ValidationIssue>)
    ensures
        issue_views(final(issues)@) == issue_views(old(issues)@) + nested(prefix@, graph_issues(*g)),
{
    match g.validate() {
        Err(e) => {
            append_nested_issues(issues, prefix, e);
        },
        Ok(_) => {
            assert(issue_views(issues@) =~= issue_views(old(issues)@) + nested(prefix@, graph_issues(*g)));
        },
    }
}

fn assets_check(assets: &Vec<(String, ApiAsset)>, providers: &Vec<(String, ProviderInstance)>, issues: &mut Vec<ValidationIssue>)
    ensures
        issue_views(final(issues)@) == issue_views(old(issues)@) + assets_issues(assets@, providers@, assets@.len() as int),
{
    let ghost start = issue_views(issues@);
    let mut i: usize = 0;
    while i < assets.len()
        invariant
            i <= assets@.len(),
            issue_views(issues@) == start + assets_issues(assets@, providers@, i as int),
        decreases assets.len() - i,
    {
        let key = assets[i].0.as_str();
        let a = &assets[i].1;
        let ghost before = issue_views(issues@);
        let path = join("wallet.assets.", key);
        let p1 = join(path.as_str(), ".id");
        push_issue(
            issues,
            !text::str_eq(key, a.id.as_str()) || text::is_blank_str(a.id.as_str()),
            p1.as_str(),
            "KEY_MISMATCH",
            "API wallet asset ID must match its map key",
        );
        let p2 = join(path.as_str(), ".provider_instance_id");
        push_issue(
            issues,
            !has_key_exec(providers, a.provider_instance_id.as_str()),
            p2.as_str(),
            "PROVIDER_NOT_FOUND",
            "API wallet asset references an unknown Provider instance",
        );
        let p3 = join(path.as_str(), ".name");
        push_issue(issues, text::is_blank_str(a.name.as_str()), p3.as_str(), "REQUIRED", "API wallet asset name is required");
        assert(issue_views(issues@) =~= before + asset_issues(assets@[i as int].0@, assets@[i as int].1, providers@));
        i = i + 1;
    }
}

fn alias_chars_exec(a: &str) -> (r: bool)
    ensures
        r == alias_chars(a@),
{
    let v = text::chars_of(a);
    let mut i: usize = 0;
    while i < v.len()
        invariant
            i <= v@.len(),
            v@ == a@,
            forall|j: int| 0 <= j < i ==> is_ascii_alnum(#[trigger] a@[j]) || a@[j] == '-' || a@[j] == '_',
        decreases v.len() - i,
    {
        let c = v[i];
        if !(text::char_is_ascii_alnum(c) || c == '-' || c == '_') {
            return false;
        }
        i = i + 1;
    }
    true
}

fn mapping_invalid_exec(ms: &Vec<DirectModelMapping>) -> (r: bool)
    ensures
        r == mapping_invalid(ms@),
{
    if ms.len() == 0 {
        return true;
    }
    let mut i: usize = 0;
    while i < ms.len()
        invariant
            i <= ms@.len(),
            forall|j: int| 0 <= j < i ==> !(is_blank(#[trigger] ms@[j].public_model@) || is_blank(ms@[j].upstream_model@)),
        decreases ms.len() - i,
    {
        if text::is_blank_str(ms[i].public_model.as_str()) || text::is_blank_str(ms[i].upstream_model.as_str()) {
            return true;
        }
        i = i + 1;
    }
    false
}

fn contains_text(v: &Vec<String>, x: &str) -> (r: bool)
    ensures
        r == crate::sort::str_views(v@).contains(x@),
{
    let mut i: usize = 0;
    while i < v.len()
        invariant
            i <= v@.len(),
            forall|k: int| 0 <= k < i ==> v@[k]@ != x@,
        decreases v.len() - i,
    {
        if text::str_eq(v[i].as_str(), x) {
            assert(crate::sort::str_views(v@)[i as int] == x@);
            return true;
        }
        i = i + 1;
    }
    proof {
        if crate::sort::str_views(v@).contains(x@) {
            let k = choose|k: int| 0 <= k < crate::sort::str_views(v@).len() && crate::sort::str_views(v@)[k] == x@;
            assert(v@[k]@ == x@);
        }
    }
    false
}

#[verifier::rlimit(30)]
fn endpoints_check(eps: &Vec<(String, DirectEndpoint)>, assets: &Vec<(String, ApiAsset)>, issues: &mut Vec<ValidationIssue>)
    ensures
        issue_views(final(issues)@) == issue_views(old(issues)@) + endpoints_state(eps@, assets@, eps@.len() as int).0,
{
    let ghost start = issue_views(issues@);
    let mut aliases: Vec<String> = Vec::new();
    let mut i: usize = 0;
    assert(crate::sort::str_views(aliases@) =~= seq![]);
    while i < eps.len()
        invariant
            i <= eps@.len(),
            issue_views(issues@) == start + endpoints_state(eps@, assets@, i as int).0,
            crate::sort::str_views(aliases@) == endpoints_state(eps@, assets@, i as int).1,
        decreases eps.len() - i,
    {
        let key = eps[i].0.as_str();
        let e = &eps[i].1;
        let ghost before = issue_views(issues@);
        let path = join("direct_endpoints.", key);
        push_issue(
            issues,
            !text::str_eq(key, e.id.as_str()) || text::is_blank_str(e.name.as_str()),
            path.as_str(),
            "ENDPOINT_INVALID",
            "审计直出端点 ID 和名称必须有效",
        );
        let malformed = text::is_blank_str(e.alias.as_str()) || !alias_chars_exec(e.alias.as_str());
        let taken = !malformed && contains_text(&aliases, e.alias.as_str());
        if !malformed && !taken {
            let ghost av = crate::sort::str_views(aliases@);
            aliases.push(e.alias.clone());
            assert(crate::sort::str_views(aliases@) =~= av.push(e.alias@));
        }
        let pa = join(path.as_str(), ".alias");
        push_issue(issues, malformed || taken, pa.as_str(), "INVALID_OR_DUPLICATE_ALIAS", "直出别名必须唯一且只能包含 ASCII 字母、数字、连字符或下划线");
        let pb = join(path.as_str(), ".asset_id");
        push_issue(issues, !has_key_exec(assets, e.asset_id.as_str()), pb.as_str(), "ASSET_NOT_FOUND", "审计直出端点引用了不存在的钱包资产");
        let pc = join(path.as_str(), ".models");
        push_issue(issues, mapping_invalid_exec(&e.models), pc.as_str(), "MODEL_MAPPING_REQUIRED", "审计直出端点至少需要一条有效模型映射");
        push_issue(issues, e.timeout_ms == 0 || e.max_retries > 10, path.as_str(), "POLICY_INVALID", "直出超时必须大于零且重试次数不能超过 10");
        assert(issue_views(issues@) =~= start + endpoints_state(eps@, assets@, i + 1).0);
        i = i + 1;
    }
}

fn folders_check(ppath: &str, p: &Project, issues: &mut Vec<ValidationIssue>)
    ensures
        issue_views(final(issues)@) == issue_views(old(issues)@) + folders_issues(ppath@, *p, p.folders@.len() as int),
{
    let ghost start = issue_views(issues@);
    let mut i: usize = 0;
    while i < p.folders.len()
        invariant
            i <= p.folders@.len(),
            issue_views(issues@) == start + folders_issues(ppath@, *p, i as int),
        decreases p.folders.len() - i,
    {
        let fid = p.folders[i].0.as_str();
        let f = &p.folders[i].1;
        let ghost before = issue_views(issues@);
        let mid = join(ppath, ".folders.");
        let fpath = join(mid.as_str(), fid);
        push_issue(issues, !text::str_eq(fid, f.id.as_str()) || text::is_blank_str(f.name.as_str()), fpath.as_str(), "FOLDER_INVALID", "Folder ID and name must be valid");
        let ghost b2 = issue_views(issues@);
        let idp = join(fpath.as_str(), ".canvas_ids");
        let mut j: usize = 0;
        while j < f.canvas_ids.len()
            invariant
                j <= f.canvas_ids@.len(),
                idp@ == fpath@ + ".canvas_ids"@,
                issue_views(issues@) == b2 + canvas_ids_issues(fpath@, f.canvas_ids@, p.canvases@, j as int),
            decreases f.canvas_ids.len() - j,
        {
            push_issue(issues, !has_key_exec(&p.canvases, f.canvas_ids[j].as_str()), idp.as_str(), "CANVAS_NOT_FOUND", "Folder references an unknown canvas");
            assert(issue_views(issues@) =~= b2 + canvas_ids_issues(fpath@, f.canvas_ids@, p.canvases@, j + 1));
            j = j + 1;
        }
        assert(issue_views(issues@) =~= start + folders_issues(ppath@, *p, i + 1));
        i = i + 1;
    }
}

#[verifier::rlimit(30)]
fn canvas_check(ppath: &str, p: &Project, k: usize, pubs: &Vec<(String, RuntimePublisher)>, issues: &mut Vec<ValidationIssue>)
    requires
        k < p.canvases@.len(),
    ensures
        issue_views(final(issues)@) == issue_views(old(issues)@) + canvas_issues(ppath@, *p, p.canvases@[k as int].0@, p.canvases@[k as int].1, pubs@),
{
    let ghost start = issue_views(issues@);
    let cid = p.canvases[k].0.as_str();
    let c = &p.canvases[k].1;
    let mid = join(ppath, ".canvases.");
    let cpath = join(mid.as_str(), cid);
    push_issue(issues, !text::str_eq(cid, c.id.as_str()) || text::is_blank_str(c.name.as_str()), cpath.as_str(), "CANVAS_INVALID", "Canvas ID and name must be valid");
    let unknown_folder = match &c.folder_id {
        Some(f) => !has_key_exec(&p.folders, f.as_str()),
        None => false,
    };
    let pf = join(cpath.as_str(), ".folder_id");
    push_issue(issues, unknown_folder, pf.as_str(), "FOLDER_NOT_FOUND", "Canvas references an unknown folder");
    let pg = join(cpath.as_str(), ".graph");
    graph_check(&c.graph, pg.as_str(), issues);
    let publishers = count_kind_exec(&c.graph.nodes, NodeKind::Publisher);
    let composers = count_kind_exec(&c.graph.nodes, NodeKind::Composer);
    push_issue(issues, !c.legacy_multi_output && publishers != 1, pg.as_str(), "CANVAS_OUTPUT_REQUIRED", "New canvases must contain exactly one total Publisher output");
    push_issue(issues, composers != 1, pg.as_str(), "CANVAS_COMPOSER_REQUIRED", "Canvas 必须且只能包含一个 Composer");
    let unknown_publisher = match &c.publisher_id {
        Some(q) => !has_key_exec(pubs, q.as_str()),
        None => false,
    };
    let pp = join(cpath.as_str(), ".publisher_id");
    push_issue(issues, unknown_publisher, pp.as_str(), "PUBLISHER_NOT_FOUND", "Canvas references an unknown Publisher");
    assert(issue_views(issues@) =~= start + canvas_issues(ppath@, *p, p.canvases@[k as int].0@, p.canvases@[k as int].1, pubs@));
}

fn projects_check(ps: &Vec<(String, Project)>, pubs: &Vec<(String, RuntimePublisher)>, issues: &mut Vec<ValidationIssue>)
    ensures
        issue_views(final(issues)@) == issue_views(old(issues)@) + projects_issues(ps@, pubs@, ps@.len() as int),
{
    let ghost start = issue_views(issues@);
    let mut i: usize = 0;
    while i < ps.len()
        invariant
            i <= ps@.len(),
            issue_views(issues@) == start + projects_issues(ps@, pubs@, i as int),
        decreases ps.len() - i,
    {
        let pid = ps[i].0.as_str();
        let p = &ps[i].1;
        let ghost before = issue_views(issues@);
        let ppath = join("projects.projects.", pid);
        push_issue(issues, !text::str_eq(pid, p.id.as_str()) || text::is_blank_str(p.name.as_str()), ppath.as_str(), "PROJECT_INVALID", "Project ID and name must be valid");
        folders_check(ppath.as_str(), p, issues);
        let ghost b3 = issue_views(issues@);
        let mut k: usize = 0;
        while k < p.canvases.len()
            invariant
                k <= p.canvases@.len(),
                issue_views(issues@) == b3 + canvases_issues(ppath@, *p, pubs@, k as int),
            decreases p.canvases.len() - k,
        {
            canvas_check(ppath.as_str(), p, k, pubs, issues);
            assert(issue_views(issues@) =~= b3 + canvases_issues(ppath@, *p, pubs@, k + 1));
            k = k + 1;
        }
        assert(issue_views(issues@) =~= start + projects_issues(ps@, pubs@, i + 1));
        i = i + 1;
    }
}

impl WorkspacePackage {
    /// Checks the workspace's fields, its runtime, its graphs and the
    /// references between them, and scans `document`, the workspace written
    /// as JSON, for plaintext credentials. Every issue is reported.
    pub fn validate(&self, document: &JsonValue) -> (r: Result<(), CoreError>)
        requires
            route_total(self.runtime.publishers@, self.runtime.publishers@.len() as int) <= usize::MAX,
            upstream_total(self.runtime.publishers@, self.runtime.publishers@.len() as int) <= usize::MAX,
        ensures
            match r {
                Ok(()) => workspace_issues(*self, *document).len() == 0,
                Err(e) => workspace_issues(*self, *document).len() > 0 && e.code == ErrorCode::InvalidInput && e.message@
                    == "工作区校验失败"@ && e@.issues == workspace_issues(*self, *document),
            },
    {
        let mut issues: Vec<ValidationIssue> = Vec::new();
        assert(issue_views(issues@) =~= seq![]);
        head_check(self, &mut issues);
        enabled_check(&self.runtime_state.enabled_publishers, &self.runtime.publishers, &mut issues);
        let runtime_list = runtime_issue_list(&self.runtime);
        if runtime_list.len() > 0 {
            let e = CoreError::validation(ErrorCode::RuntimeConfigInvalid, "Runtime 配置编译失败", runtime_list);
            append_nested_issues(&mut issues, "runtime", e);
        } else {
            assert(issue_views(runtime_list@) =~= seq![]);
        }
        graph_check(&self.graph, "graph", &mut issues);
        assets_check(&self.wallet.assets, &self.runtime.providers, &mut issues);
        endpoints_check(&self.direct_endpoints, &self.wallet.assets, &mut issues);
        projects_check(&self.projects.projects, &self.runtime.publishers, &mut issues);
        scan_sensitive_value(document, "$", None, &mut issues);
        assert(issue_views(issues@) =~= workspace_issues(*self, *document));
        if issues.len() == 0 {
            Ok(())
        } else {
            Err(CoreError::validation(ErrorCode::InvalidInput, "工作区校验失败", issues))
        }
    }
}

/// A provider secret reference among the providers before `i`, or among
/// the first `j` references of provider `i`.
pub open spec fn provider_ref_before(ps: Seq<(String, ProviderInstance)>, t: Seq<char>, i: int, j: int) -> bool {
    exists|a: int, b: int|
        #![trigger ps[a].1.secret_refs@[b]]
        0 <= a < ps.len() && 0 <= b < ps[a].1.secret_refs@.len() && (a < i || (a == i && b < j)) && ps[a].1.secret_refs@[b].1@
            == t
}

pub open spec fn publisher_token_before(pubs: Seq<(String, RuntimePublisher)>, t: Seq<char>, n: int) -> bool {
    exists|a: int| 0 <= a < n && a < pubs.len() && (#[trigger] pubs[a].1.config.token_ref matches Some(s) && s@ == t)
}

pub open spec fn endpoint_token_before(eps: Seq<(String, DirectEndpoint)>, t: Seq<char>, n: int) -> bool {
    exists|a: int| 0 <= a < n && a < eps.len() && (#[trigger] eps[a].1.token_ref)@ == t
}

/// A secret reference the workspace needs: one of a provider, the token of
/// a publisher, or the token of a direct endpoint.
pub open spec fn required_ref(w: WorkspacePackage, t: Seq<char>) -> bool {
    let ps = w.runtime.providers@;
    provider_ref_before(ps, t, ps.len() as int, 0) || publisher_token_before(w.runtime.publishers@, t, w.runtime.publishers@.len() as int)
        || endpoint_token_before(w.direct_endpoints@, t, w.direct_endpoints@.len() as int)
}

pub open spec fn all_available(refs: Seq<(String, SecretRef)>, available: Seq<Seq<char>>) -> bool {
    forall|k: int| 0 <= k < refs.len() ==> available.contains(#[trigger] refs[k].1@)
}

/// Whether every upstream of the publisher has a provider whose references
/// are all available, and its token, if any, is available.
pub open spec fn publisher_ready(ps: Seq<(String, ProviderInstance)>, p: RuntimePublisher, available: Seq<Seq<char>>) -> bool {
    &&& (p.config.token_ref matches Some(t) ==> available.contains(t@))
    &&& forall|r: int, u: int|
        #![trigger p.routes@[r].upstreams@[u]]
        0 <= r < p.routes@.len() && 0 <= u < p.routes@[r].upstreams@.len() ==> (provider_at(
            ps,
            p.routes@[r].upstreams@[u].provider_instance@,
        ) matches Some(pi) && all_available(pi.secret_refs@, available))
}

/// Whether the endpoint's token is available and its asset's provider is
/// enabled with every reference available.
pub open spec fn endpoint_ready(w: WorkspacePackage, e: DirectEndpoint, available: Seq<Seq<char>>) -> bool {
    &&& available.contains(e.token_ref@)
    &&& asset_at(w.wallet.assets@, e.asset_id@) matches Some(a)
    &&& provider_at(w.runtime.providers@, a.provider_instance_id@) matches Some(pi)
    &&& pi.enabled && all_available(pi.secret_refs@, available)
}

/// What `secret_status` reports for the available references.
pub open spec fn secret_status_is(s: WorkspaceSecretStatus, w: WorkspacePackage, available: Seq<Seq<char>>) -> bool {
    let pubs = w.runtime.publishers@;
    let eps = w.direct_endpoints@;
    &&& strictly_sorted(str_views(s.required@))
    &&& forall|t: Seq<char>| str_views(s.required@).contains(t) <==> required_ref(w, t)
    &&& strictly_sorted(str_views(s.missing@))
    &&& forall|t: Seq<char>| str_views(s.missing@).contains(t) <==> (required_ref(w, t) && !available.contains(t))
    &&& s.publisher_ready@.len() == pubs.len()
    &&& forall|i: int| 0 <= i < pubs.len() ==> (#[trigger] s.publisher_ready@[i]).0@ == pubs[i].0@ && s.publisher_ready@[i].1
        == publisher_ready(w.runtime.providers@, pubs[i].1, available)
    &&& s.direct_endpoint_ready@.len() == eps.len()
    &&& forall|i: int| 0 <= i < eps.len() ==> (#[trigger] s.direct_endpoint_ready@[i]).0@ == eps[i].0@
        && s.direct_endpoint_ready@[i].1 == endpoint_ready(w, eps[i].1, available)
}

pub(crate) fn all_available_exec(refs: &Vec<(String, SecretRef)>, available: &Vec<String>) -> (r: bool)
    ensures
        r == all_available(refs@, str_views(available@)),
{
    let mut k: usize = 0;
    while k < refs.len()
        invariant
            k <= refs@.len(),
            forall|m: int| 0 <= m < k ==> str_views(available@).contains(#[trigger] refs@[m].1@),
        decreases refs.len() - k,
    {
        if !contains_text(available, refs[k].1.as_str()) {
            return false;
        }
        k = k + 1;
    }
    true
}

impl WorkspacePackage {
    /// Every secret reference the workspace needs, once each, sorted.
    pub fn required_secret_refs(&self) -> (r: Vec<String>)
        ensures
            strictly_sorted(str_views(r@)),
            forall|t: Seq<char>| str_views(r@).contains(t) <==> required_ref(*self, t),
    {
        let ps = &self.runtime.providers;
        let mut r: Vec<String> = Vec::new();
        let mut i: usize = 0;
        while i < ps.len()
            invariant
                i <= ps@.len(),
                strictly_sorted(str_views(r@)),
                forall|t: Seq<char>| #![trigger str_views(r@).contains(t)] str_views(r@).contains(t) <==> provider_ref_before(ps@, t, i as int, 0),
            decreases ps.len() - i,
        {
            let refs = &ps[i].1.secret_refs;
            let mut j: usize = 0;
            while j < refs.len()
                invariant
                    i < ps@.len(),
                    j <= refs@.len(),
                    refs == &ps@[i as int].1.secret_refs,
                    strictly_sorted(str_views(r@)),
                    forall|t: Seq<char>| #![trigger str_views(r@).contains(t)] str_views(r@).contains(t) <==> provider_ref_before(ps@, t, i as int, j as int),
                decreases refs.len() - j,
            {
                insert_sorted_unique(&mut r, text::owned(refs[j].1.as_str()));
                assert forall|t: Seq<char>| #![trigger str_views(r@).contains(t)] str_views(r@).contains(t) <==> provider_ref_before(ps@, t, i as int, j + 1) by {
                    if t == refs@[j as int].1@ {
                        assert(ps@[i as int].1.secret_refs@[j as int].1@ == t);
                    }
                    if provider_ref_before(ps@, t, i as int, j + 1) {
                        let (a, b) = choose|a: int, b: int|
                            #![trigger ps@[a].1.secret_refs@[b]]
                            0 <= a < ps@.len() && 0 <= b < ps@[a].1.secret_refs@.len() && (a < i || (a == i && b < j + 1)) && ps@[a].1.secret_refs@[b].1@ == t;
                        if !(a == i && b == j) {
                            assert(provider_ref_before(ps@, t, i as int, j as int));
                        }
                    }
                }
                j = j + 1;
            }
            assert forall|t: Seq<char>| #![trigger str_views(r@).contains(t)] str_views(r@).contains(t) <==> provider_ref_before(ps@, t, i + 1, 0) by {
                if provider_ref_before(ps@, t, i + 1, 0) {
                    let (a, b) = choose|a: int, b: int|
                        #![trigger ps@[a].1.secret_refs@[b]]
                        0 <= a < ps@.len() && 0 <= b < ps@[a].1.secret_refs@.len() && (a < i + 1 || (a == i + 1 && b < 0)) && ps@[a].1.secret_refs@[b].1@ == t;
                    assert(provider_ref_before(ps@, t, i as int, refs@.len() as int));
                }
                if provider_ref_before(ps@, t, i as int, refs@.len() as int) {
                    let (a, b) = choose|a: int, b: int|
                        #![trigger ps@[a].1.secret_refs@[b]]
                        0 <= a < ps@.len() && 0 <= b < ps@[a].1.secret_refs@.len() && (a < i || (a == i && b < refs@.len())) && ps@[a].1.secret_refs@[b].1@ == t;
                    assert(provider_ref_before(ps@, t, i + 1, 0));
                }
            }
            i = i + 1;
        }
        let pubs = &self.runtime.publishers;
        let mut k: usize = 0;
        while k < pubs.len()
            invariant
                k <= pubs@.len(),
                strictly_sorted(str_views(r@)),
                forall|t: Seq<char>| #![trigger str_views(r@).contains(t)] str_views(r@).contains(t) <==> (provider_ref_before(ps@, t, ps@.len() as int, 0)
                    || publisher_token_before(pubs@, t, k as int)),
            decreases pubs.len() - k,
        {
            match &pubs[k].1.config.token_ref {
                Some(token) => {
                    insert_sorted_unique(&mut r, token.clone());
                },
                None => {},
            }
            assert forall|t: Seq<char>| #![trigger str_views(r@).contains(t)] str_views(r@).contains(t) <==> (provider_ref_before(ps@, t, ps@.len() as int, 0)
                || publisher_token_before(pubs@, t, k + 1)) by {
                if publisher_token_before(pubs@, t, k + 1) {
                    let a = choose|a: int| 0 <= a < k + 1 && a < pubs@.len() && (#[trigger] pubs@[a].1.config.token_ref matches Some(s) && s@ == t);
                    if a < k {
                        assert(publisher_token_before(pubs@, t, k as int));
                    }
                }
                if publisher_token_before(pubs@, t, k as int) {
                    let a = choose|a: int| 0 <= a < k && a < pubs@.len() && (#[trigger] pubs@[a].1.config.token_ref matches Some(s) && s@ == t);
                    assert(publisher_token_before(pubs@, t, k + 1));
                }
                if pubs@[k as int].1.config.token_ref matches Some(s) && s@ == t {
                    assert(publisher_token_before(pubs@, t, k + 1));
                }
            }
            k = k + 1;
        }
        let eps = &self.direct_endpoints;
        let mut m: usize = 0;
        while m < eps.len()
            invariant
                m <= eps@.len(),
                strictly_sorted(str_views(r@)),
                forall|t: Seq<char>| #![trigger str_views(r@).contains(t)] str_views(r@).contains(t) <==> (provider_ref_before(ps@, t, ps@.len() as int, 0)
                    || publisher_token_before(pubs@, t, pubs@.len() as int) || endpoint_token_before(eps@, t, m as int)),
            decreases eps.len() - m,
        {
            insert_sorted_unique(&mut r, text::owned(eps[m].1.token_ref.as_str()));
            assert forall|t: Seq<char>| #![trigger str_views(r@).contains(t)] str_views(r@).contains(t) <==> (provider_ref_before(ps@, t, ps@.len() as int, 0)
                || publisher_token_before(pubs@, t, pubs@.len() as int) || endpoint_token_before(eps@, t, m + 1)) by {
                if endpoint_token_before(eps@, t, m + 1) {
                    let a = choose|a: int| 0 <= a < m + 1 && a < eps@.len() && (#[trigger] eps@[a].1.token_ref)@ == t;
                    if a < m {
                        assert(endpoint_token_before(eps@, t, m as int));
                    }
                }
                if endpoint_token_before(eps@, t, m as int) {
                    let a = choose|a: int| 0 <= a < m && a < eps@.len() && (#[trigger] eps@[a].1.token_ref)@ == t;
                    assert(endpoint_token_before(eps@, t, m + 1));
                }
                if eps@[m as int].1.token_ref@ == t {
                    assert(endpoint_token_before(eps@, t, m + 1));
                }
            }
            m = m + 1;
        }
        r
    }
}

fn publisher_ready_exec(ps: &Vec<(String, ProviderInstance)>, p: &RuntimePublisher, available: &Vec<String>) -> (r: bool)
    ensures
        r == publisher_ready(ps@, *p, str_views(available@)),
{
    let token_ready = match &p.config.token_ref {
        Some(t) => contains_text(available, t.as_str()),
        None => true,
    };
    if !token_ready {
        return false;
    }
    let mut r: usize = 0;
    while r < p.routes.len()
        invariant
            r <= p.routes@.len(),
            forall|a: int, u: int|
                #![trigger p.routes@[a].upstreams@[u]]
                0 <= a < r && 0 <= u < p.routes@[a].upstreams@.len() ==> (provider_at(ps@, p.routes@[a].upstreams@[u].provider_instance@) matches Some(
                    pi,
                ) && all_available(pi.secret_refs@, str_views(available@))),
        decreases p.routes.len() - r,
    {
        let ups = &p.routes[r].upstreams;
        let mut u: usize = 0;
        while u < ups.len()
            invariant
                r < p.routes@.len(),
                u <= ups@.len(),
                ups == &p.routes@[r as int].upstreams,
                forall|a: int, v: int|
                    #![trigger p.routes@[a].upstreams@[v]]
                    0 <= a < r && 0 <= v < p.routes@[a].upstreams@.len() ==> (provider_at(ps@, p.routes@[a].upstreams@[v].provider_instance@) matches Some(
                        pi,
                    ) && all_available(pi.secret_refs@, str_views(available@))),
                forall|v: int|
                    0 <= v < u ==> (provider_at(ps@, (#[trigger] ups@[v]).provider_instance@) matches Some(pi) && all_available(
                        pi.secret_refs@,
                        str_views(available@),
                    )),
            decreases ups.len() - u,
        {
            match find_instance(ps, &ups[u].provider_instance) {
                Some(k) => {
                    if !all_available_exec(&ps[k].1.secret_refs, available) {
                        assert(p.routes@[r as int].upstreams@[u as int] == ups@[u as int]);
                        return false;
                    }
                },
                None => {
                    assert(p.routes@[r as int].upstreams@[u as int] == ups@[u as int]);
                    return false;
                },
            }
            u = u + 1;
        }
        assert forall|a: int, v: int|
            #![trigger p.routes@[a].upstreams@[v]]
            0 <= a < r + 1 && 0 <= v < p.routes@[a].upstreams@.len() implies (provider_at(ps@, p.routes@[a].upstreams@[v].provider_instance@) matches Some(
                pi,
            ) && all_available(pi.secret_refs@, str_views(available@))) by {
            if a == r {
                assert(p.routes@[a].upstreams@[v] == ups@[v]);
            }
        }
        r = r + 1;
    }
    true
}

/// Whether a provider instance is enabled and every reference it holds is
/// available.
fn asset_and_provider_ready(provider: &ProviderInstance, available: &Vec<String>) -> (r: bool)
    ensures
        r == (provider.enabled && all_available(provider.secret_refs@, str_views(available@))),
{
    provider.enabled && all_available_exec(&provider.secret_refs, available)
}

fn endpoint_ready_exec(w: &WorkspacePackage, e: &DirectEndpoint, available: &Vec<String>) -> (r: bool)
    ensures
        r == endpoint_ready(*w, *e, str_views(available@)),
{
    if !contains_text(available, e.token_ref.as_str()) {
        return false;
    }
    match find_asset(&w.wallet.assets, &e.asset_id) {
        None => false,
        Some(a) => match find_instance(&w.runtime.providers, &w.wallet.assets[a].1.provider_instance_id) {
            None => false,
            Some(k) => asset_and_provider_ready(&w.runtime.providers[k].1, available),
        },
    }
}

impl WorkspacePackage {
    /// Which required references are missing, and whether each publisher
    /// and each direct endpoint has every reference it needs, given the
    /// references that are available.
    pub fn secret_status(&self, available: &Vec<String>) -> (r: WorkspaceSecretStatus)
        ensures
            secret_status_is(r, *self, str_views(available@)),
    {
        let required = self.required_secret_refs();
        let mut missing: Vec<String> = Vec::new();
        let mut i: usize = 0;
        while i < required.len()
            invariant
                i <= required@.len(),
                strictly_sorted(str_views(required@)),
                strictly_sorted(str_views(missing@)),
                forall|t: Seq<char>| #![trigger str_views(missing@).contains(t)] str_views(missing@).contains(t) <==> (str_views(required@).take(i as int).contains(t)
                    && !str_views(available@).contains(t)),
            decreases required.len() - i,
        {
            let ghost rv = str_views(required@);
            if !contains_text(available, required[i].as_str()) {
                insert_sorted_unique(&mut missing, required[i].clone());
            }
            let ghost t0 = rv.take(i as int);
            let ghost t1 = rv.take(i + 1);
            assert(t1 =~= t0.push(rv[i as int]));
            assert forall|t: Seq<char>| #![trigger str_views(missing@).contains(t)] str_views(missing@).contains(t) <==> (t1.contains(t)
                && !str_views(available@).contains(t)) by {
                if t1.contains(t) && !t0.contains(t) {
                    let m = choose|m: int| 0 <= m < t1.len() && #[trigger] t1[m] == t;
                    if m < i {
                        assert(t0[m] == t);
                    }
                }
                if t0.contains(t) {
                    let m = choose|m: int| 0 <= m < t0.len() && #[trigger] t0[m] == t;
                    assert(t1[m] == t);
                }
                if t == rv[i as int] {
                    assert(t1[i as int] == t);
                }
            }
            i = i + 1;
        }
        assert(str_views(required@).take(required@.len() as int) =~= str_views(required@));
        let pubs = &self.runtime.publishers;
        let mut publisher_ready: Vec<(String, bool)> = Vec::new();
        let mut k: usize = 0;
        while k < pubs.len()
            invariant
                k <= pubs@.len(),
                publisher_ready@.len() == k,
                forall|j: int| 0 <= j < k ==> (#[trigger] publisher_ready@[j]).0@ == pubs@[j].0@ && publisher_ready@[j].1
                    == crate::workspace::publisher_ready(self.runtime.providers@, pubs@[j].1, str_views(available@)),
            decreases pubs.len() - k,
        {
            let ready = publisher_ready_exec(&self.runtime.providers, &pubs[k].1, available);
            publisher_ready.push((pubs[k].0.clone(), ready));
            k = k + 1;
        }
        let eps = &self.direct_endpoints;
        let mut direct_endpoint_ready: Vec<(String, bool)> = Vec::new();
        let mut m: usize = 0;
        while m < eps.len()
            invariant
                m <= eps@.len(),
                direct_endpoint_ready@.len() == m,
                forall|j: int| 0 <= j < m ==> (#[trigger] direct_endpoint_ready@[j]).0@ == eps@[j].0@ && direct_endpoint_ready@[j].1
                    == endpoint_ready(*self, eps@[j].1, str_views(available@)),
            decreases eps.len() - m,
        {
            let ready = endpoint_ready_exec(self, &eps[m].1, available);
            direct_endpoint_ready.push((eps[m].0.clone(), ready));
            m = m + 1;
        }
        WorkspaceSecretStatus { required, missing, publisher_ready, direct_endpoint_ready }
    }
}

/// The value of a run of decimal digits.
pub open spec fn digits_value(s: Seq<char>) -> nat
    decreases s.len(),
{
    if s.len() == 0 {
        0
    } else {
        (digits_value(s.drop_last()) * 10 + (s.last() as int - '0' as int)) as nat
    }
}

pub open spec fn all_digits(s: Seq<char>) -> bool {
    forall|i: int| 0 <= i < s.len() ==> '0' <= #[trigger] s[i] <= '9'
}

/// `Value::as_u64` of a number written as `t`: a non-negative integer that
/// fits in 64 bits.
pub open spec fn number_u64(t: Seq<char>) -> Option<u64> {
    if t.len() > 0 && all_digits(t) && digits_value(t) <= u64::MAX {
        Some(digits_value(t) as u64)
    } else {
        None
    }
}

/// The first index of a key of an object, among the stored values.
pub open spec fn key_index(keys: Seq<String>, n: int, key: Seq<char>) -> Option<int>
    decreases n,
{
    if n <= 0 {
        None
    } else {
        match key_index(keys, n - 1, key) {
            Some(i) => Some(i),
            None => if keys[n - 1]@ == key {
                Some(n - 1)
            } else {
                None
            },
        }
    }
}

/// The `schema_version` of a workspace document, where it is a number that
/// fits in 32 bits.
pub open spec fn document_schema(raw: JsonValue) -> Option<u32> {
    match raw {
        JsonValue::Object { keys, values } => {
            let n = if keys@.len() < values@.len() {
                keys@.len() as int
            } else {
                values@.len() as int
            };
            match key_index(keys@, n, "schema_version"@) {
                Some(i) => match values@[i] {
                    JsonValue::Number(t) => match number_u64(t@) {
                        Some(v) => if v <= u32::MAX {
                            Some(v as u32)
                        } else {
                            None
                        },
                        None => None,
                    },
                    _ => None,
                },
                None => None,
            }
        },
        _ => None,
    }
}

fn number_u64_exec(t: &str) -> (r: Option<u64>)
    ensures
        r == number_u64(t@),
{
    let v = text::chars_of(t);
    if v.len() == 0 {
        return None;
    }
    let mut value: u64 = 0;
    let mut i: usize = 0;
    while i < v.len()
        invariant
            i <= v@.len(),
            v@ == t@,
            all_digits(t@.take(i as int)),
            value == digits_value(t@.take(i as int)),
        decreases v.len() - i,
    {
        let c = v[i];
        assert(t@.take(i + 1).drop_last() =~= t@.take(i as int));
        assert(t@.take(i + 1).last() == c);
        if !('0' <= c && c <= '9') {
            assert(!all_digits(t@)) by {
                assert(t@[i as int] == c);
            }
            return None;
        }
        let d = (c as u32 - '0' as u32) as u64;
        if value > (u64::MAX - d) / 10 {
            proof {
                if all_digits(t@) {
                    lemma_digits_monotone(t@, i + 1);
                }
            }
            return None;
        }
        value = value * 10 + d;
        assert forall|k: int| 0 <= k < i + 1 implies '0' <= #[trigger] t@.take(i + 1)[k] <= '9' by {
            if k < i {
                assert(t@.take(i + 1)[k] == t@.take(i as int)[k]);
            }
        }
        i = i + 1;
    }
    assert(t@.take(v@.len() as int) =~= t@);
    Some(value)
}

/// A longer run of digits is worth at least as much as its prefix.
proof fn lemma_digits_monotone(t: Seq<char>, n: int)
    requires
        0 <= n <= t.len(),
        all_digits(t),
    ensures
        digits_value(t.take(n)) <= digits_value(t),
    decreases t.len() - n,
{
    if n < t.len() {
        lemma_digits_monotone(t, n + 1);
        assert(t.take(n + 1).drop_last() =~= t.take(n));
        assert('0' <= t[n] <= '9');
    } else {
        assert(t.take(n) =~= t);
    }
}

fn document_schema_exec(raw: &JsonValue) -> (r: Option<u32>)
    ensures
        r == document_schema(*raw),
{
    match raw {
        JsonValue::Object { keys, values } => {
            let n = if keys.len() < values.len() {
                keys.len()
            } else {
                values.len()
            };
            let mut i: usize = 0;
            while i < n
                invariant
                    i <= n,
                    n == (if keys@.len() < values@.len() {
                        keys@.len()
                    } else {
                        values@.len()
                    }),
                    *raw == (JsonValue::Object { keys: *keys, values: *values }),
                    key_index(keys@, i as int, "schema_version"@) is None,
                decreases n - i,
            {
                if text::str_eq(keys[i].as_str(), "schema_version") {
                    proof {
                        lemma_key_index_found(keys@, i as int, n as int, "schema_version"@);
                    }
                    assert(key_index(keys@, n as int, "schema_version"@) == Some(i as int));
                    let ghost spec_n: int = if keys@.len() < values@.len() {
                        keys@.len() as int
                    } else {
                        values@.len() as int
                    };
                    assert(spec_n == n);
                    let r = match &values[i] {
                        JsonValue::Number(t) => match number_u64_exec(t.as_str()) {
                            Some(v) => if v <= 4294967295u64 {
                                Some(v as u32)
                            } else {
                                None
                            },
                            None => None,
                        },
                        _ => None,
                    };
                    return r;
                }
                i = i + 1;
            }
            None
        },
        _ => None,
    }
}

proof fn lemma_key_index_found(keys: Seq<String>, i: int, n: int, key: Seq<char>)
    requires
        0 <= i < n <= keys.len(),
        key_index(keys, i, key) is None,
        keys[i]@ == key,
    ensures
        key_index(keys, n, key) == Some(i),
    decreases n - i,
{
    if n > i + 1 {
        lemma_key_index_found(keys, i, n - 1, key);
    }
}

/// Checks a workspace document before it is read: it may hold no plaintext
/// credential, and its schema must be the current one. Older workspaces are
/// refused rather than migrated.
pub fn check_workspace_document(raw: &JsonValue) -> (r: Result<(), CoreError>)
    ensures
        scan(*raw, "$"@, None).len() > 0 ==> (r matches Err(e) && e.code == ErrorCode::SecretInvalid && e.message@
            == "工作区包含疑似明文凭据，已拒绝导入"@ && e@.issues == scan(*raw, "$"@, None)),
        scan(*raw, "$"@, None).len() == 0 && document_schema(*raw) is None ==> (r matches Err(e) && e.code
            == ErrorCode::UnsupportedSchema && e.message@ == "工作区缺少 Schema 版本"@ && e@.issues.len() == 0),
        scan(*raw, "$"@, None).len() == 0 && document_schema(*raw) is Some && document_schema(*raw) != Some(WORKSPACE_SCHEMA_VERSION) ==> (r matches Err(
            e,
        ) && e.code == ErrorCode::UnsupportedSchema && e.message@ == "此 POC 只接受工作区 Schema 6；旧工作区必须重建"@ && e@.issues.len()
            == 0),
        scan(*raw, "$"@, None).len() == 0 && document_schema(*raw) == Some(WORKSPACE_SCHEMA_VERSION) ==> r is Ok,
{
    let mut issues: Vec<ValidationIssue> = Vec::new();
    assert(issue_views(issues@) =~= seq![]);
    scan_sensitive_value(raw, "$", None, &mut issues);
    assert(issue_views(issues@) =~= scan(*raw, "$"@, None));
    if issues.len() > 0 {
        return Err(CoreError::validation(ErrorCode::SecretInvalid, "工作区包含疑似明文凭据，已拒绝导入", issues));
    }
    match document_schema_exec(raw) {
        None => Err(CoreError::new(ErrorCode::UnsupportedSchema, "工作区缺少 Schema 版本")),
        Some(v) => if v != WORKSPACE_SCHEMA_VERSION {
            Err(CoreError::new(ErrorCode::UnsupportedSchema, "此 POC 只接受工作区 Schema 6；旧工作区必须重建"))
        } else {
            Ok(())
        },
    }
}

/// What checking a parsed workspace document gives: a refusal when it holds
/// plaintext credentials, lacks a schema version or has another one than
/// the current; otherwise the document itself.
pub open spec fn document_outcome(raw: JsonValue, r: Result<JsonValue, CoreError>) -> bool {
    if scan(raw, "$"@, None).len() > 0 {
        r matches Err(e) && e.code == ErrorCode::SecretInvalid && e.message@ == "工作区包含疑似明文凭据，已拒绝导入"@ && e@.issues
            == scan(raw, "$"@, None)
    } else if document_schema(raw) is None {
        r matches Err(e) && e.code == ErrorCode::UnsupportedSchema && e.message@ == "工作区缺少 Schema 版本"@ && e@.issues.len() == 0
    } else if document_schema(raw) != Some(WORKSPACE_SCHEMA_VERSION) {
        r matches Err(e) && e.code == ErrorCode::UnsupportedSchema && e.message@ == "此 POC 只接受工作区 Schema 6；旧工作区必须重建"@
            && e@.issues.len() == 0
    } else {
        r == Ok::<JsonValue, CoreError>(raw)
    }
}

/// Reads a workspace export: text that is not JSON is refused with the
/// parser's message; a parsed document must pass `check_workspace_document`,
/// and is then handed back for reading into a workspace.
pub fn load_workspace_document(input: &str) -> (r: Result<JsonValue, CoreError>)
    ensures
        !json_is_valid(input@) ==> (r matches Err(e) && e.code == ErrorCode::SerializationFailed && e.message@ == "JSON 序列化失败: "@
            + json_error_message(input@) && e@.issues.len() == 0),
        json_is_valid(input@) ==> document_outcome(json_value_of(input@), r),
{
    let raw = match json_parse(input) {
        Err(m) => {
            let mut message = text::owned("JSON 序列化失败: ");
            text::push_str(&mut message, m.as_str());
            return Err(CoreError::new(ErrorCode::SerializationFailed, message.as_str()));
        },
        Ok(v) => v,
    };
    match check_workspace_document(&raw) {
        Err(e) => Err(e),
        Ok(()) => Ok(raw),
    }
}

/// The value stored under the first entry with the key.
pub open spec fn lookup<V>(m: Seq<(String, V)>, key: Seq<char>) -> Option<V>
    decreases m.len(),
{
    if m.len() == 0 {
        None
    } else if m[0].0@ == key {
        Some(m[0].1)
    } else {
        lookup(m.drop_first(), key)
    }
}

pub(crate) fn find_entry<V>(m: &Vec<(String, V)>, key: &str) -> (r: Option<usize>)
    ensures
        match r {
            Some(k) => k < m@.len() && lookup(m@, key@) == Some(m@[k as int].1),
            None => lookup(m@, key@) is None,
        },
{
    assert(m@.subrange(0, m@.len() as int) =~= m@);
    let mut i: usize = 0;
    while i < m.len()
        invariant
            i <= m@.len(),
            lookup(m@, key@) == lookup(m@.subrange(i as int, m@.len() as int), key@),
        decreases m.len() - i,
    {
        let ghost rest = m@.subrange(i as int, m@.len() as int);
        assert(rest[0] == m@[i as int]);
        if text::str_eq(m[i].0.as_str(), key) {
            return Some(i);
        }
        assert(rest.drop_first() =~= m@.subrange(i + 1, m@.len() as int));
        i = i + 1;
    }
    None
}

/// The canvas stored under the ids, in the project stored under its id.
pub open spec fn canvas_of(w: WorkspacePackage, project_id: Seq<char>, canvas_id: Seq<char>) -> Option<Canvas> {
    match lookup(w.projects.projects@, project_id) {
        Some(p) => lookup(p.canvases@, canvas_id),
        None => None,
    }
}

/// Compiles a canvas of a project against the workspace's wallet and
/// runtime; the report says whether the runtime still runs an older
/// revision of the canvas.
pub fn validate_runtime_semantics(workspace: &WorkspacePackage, project_id: &str, canvas_id: &str) -> (r: Result<
    CanvasCompilationReport,
    CoreError,
>)
    ensures
        canvas_of(*workspace, project_id@, canvas_id@) is None ==> (r matches Err(e) && e.code == ErrorCode::GraphInvalid
            && e.message@ == "编组方案不存在或不属于指定项目"@ && e@.issues.len() == 0),
        canvas_of(*workspace, project_id@, canvas_id@) matches Some(c) ==> match r {
            Ok(rep) => graph_issues(c.graph).len() == 0 && exists|g: CompiledCanvasGraph|
                #![trigger compiled_is(g, c.graph, workspace.wallet, workspace.runtime)]
                compiled_is(g, c.graph, workspace.wallet, workspace.runtime) && rep == (CanvasCompilationReport {
                    stale_runtime: c.draft_revision != c.applied_revision,
                    ..g.report
                }),
            Err(e) => graph_issues(c.graph).len() > 0 && e.code == ErrorCode::GraphInvalid && e@.issues == graph_issues(c.graph),
        },
{
    let p = match find_entry(&workspace.projects.projects, project_id) {
        Some(p) => p,
        None => {
            return Err(CoreError::new(ErrorCode::GraphInvalid, "编组方案不存在或不属于指定项目"));
        },
    };
    let project = &workspace.projects.projects[p].1;
    let k = match find_entry(&project.canvases, canvas_id) {
        Some(k) => k,
        None => {
            return Err(CoreError::new(ErrorCode::GraphInvalid, "编组方案不存在或不属于指定项目"));
        },
    };
    let canvas = &project.canvases[k].1;
    match compile_canvas_graph(&canvas.graph, &workspace.wallet, &workspace.runtime) {
        Err(e) => Err(e),
        Ok(compiled) => {
            let ghost g = compiled;
            let mut report = compiled.report;
            report.stale_runtime = canvas.draft_revision != canvas.applied_revision;
            assert(report == (CanvasCompilationReport { stale_runtime: canvas.draft_revision != canvas.applied_revision, ..g.report }));
            Ok(report)
        },
    }
}

/// A workspace document as loaded: ready to use, or kept read-only with
/// the reason and the document itself.
#[derive(Debug)]
pub enum WorkspaceLoad {
    Ready { workspace: Box<WorkspacePackage> },
    ReadOnly { schema_version: u32, reason: String, raw: JsonValue },
}

} // verus!
