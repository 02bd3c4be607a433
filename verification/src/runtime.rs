//! The runtime configuration: provider instances, publishers and their model
//! routes, compiled into a checked runtime that plans where each request
//! goes and how it is sent. Keyed collections are held as `(key, value)` vectors in key order.
use crate::adapter::{adapter_of, plain_error, plan_view, transport_plan_for, transport_spec, PlanView, TransportPlan};
use crate::canonical::{request_issues, CanonicalRequest};
use crate::translate::opt_view;
use crate::error::{error_code_name, issue_views, iv, CoreError, ErrorCode, ErrorView, IssueView, ValidationIssue};
use crate::provider::{manifest_issues, url_scheme, url_scheme_exec, AuthenticationField, ProviderManifest};
use crate::publisher::{publisher_base_url, publisher_issues, PublisherConfig, PublisherSummary};
use crate::routing::{
    candidate_views, contains_string, decision_is, decision_spec, opt_issue, policy_issues,
    stateless_choice, strings, CandidateView, HealthStatus, RequestView, RouteCandidate, RouteDecision,
    RoutePolicy, RouteRequest, StandardError,
};
use crate::secret::SecretRef;
use crate::text::{self, decimal, is_blank, upper};
use crate::SCHEMA_VERSION;
use vstd::prelude::*;

verus! {

#[derive(Debug, Clone, PartialEq, Eq)]
pub struct ProviderInstance {
    pub id: String,
    pub manifest: ProviderManifest,
    pub endpoint_override: Option<String>,
    /// Secret references by authentication field id, in key order.
    pub secret_refs: Vec<(String, SecretRef)>,
    pub enabled: bool,
}

#[derive(Debug, Clone, PartialEq, Eq)]
pub enum RouteCondition {
    MetadataEquals { key: String, value: String },
    MetadataPresent { key: String },
}

#[derive(Debug, Clone, PartialEq, Eq)]
pub struct UpstreamRoute {
    pub id: String,
    pub provider_instance: String,
    pub upstream_model: String,
    pub priority: u32,
    pub enabled: bool,
    pub conditions: Vec<RouteCondition>,
}

#[derive(Debug, Clone, PartialEq, Eq)]
pub struct ModelRoute {
    pub public_model: String,
    pub policy: RoutePolicy,
    pub upstreams: Vec<UpstreamRoute>,
}

#[derive(Debug, Clone, PartialEq, Eq)]
pub struct RuntimePublisher {
    pub config: PublisherConfig,
    pub routes: Vec<ModelRoute>,
}

#[derive(Debug, Clone, PartialEq, Eq)]
pub struct RuntimeConfig {
    pub schema_version: u32,
    pub id: String,
    /// Provider instances by id, in key order.
    pub providers: Vec<(String, ProviderInstance)>,
    /// Publishers by id, in key order.
    pub publishers: Vec<(String, RuntimePublisher)>,
}

#[derive(Debug, Clone, PartialEq, Eq)]
pub struct RuntimeSummary {
    pub runtime_id: String,
    pub provider_count: usize,
    pub enabled_provider_count: usize,
    pub publisher_count: usize,
    pub route_count: usize,
    pub upstream_count: usize,
    /// Publisher summaries by publisher key, in key order.
    pub publishers: Vec<(String, PublisherSummary)>,
}

/// A runtime configuration that compiled without issues.
#[derive(Debug)]
pub struct CompiledRuntime {
    config: RuntimeConfig,
    summary: RuntimeSummary,
}

/// The number of UTF-8 bytes of a text, as `str::len` reports it.
pub open spec fn byte_len(s: Seq<char>) -> usize {
    vstd::utf8::encode_utf8(s).len() as usize
}

/// A simple route condition is well formed: a non-blank key of at most 64
/// bytes and, for an equality, a value of at most 256 bytes.
pub open spec fn condition_valid(c: RouteCondition) -> bool {
    match c {
        RouteCondition::MetadataEquals { key, value } => !is_blank(key@) && byte_len(key@) <= 64
            && byte_len(value@) <= 256,
        RouteCondition::MetadataPresent { key } => !is_blank(key@) && byte_len(key@) <= 64,
    }
}

/// The value of a metadata key, the first entry with that key.
pub open spec fn metadata_get(m: Seq<(Seq<char>, Seq<char>)>, key: Seq<char>) -> Option<Seq<char>>
    decreases m.len(),
{
    if m.len() == 0 {
        None
    } else if m[0].0 == key {
        Some(m[0].1)
    } else {
        metadata_get(m.drop_first(), key)
    }
}

/// Whether a condition holds of the request metadata.
pub open spec fn condition_matches(c: RouteCondition, m: Seq<(Seq<char>, Seq<char>)>) -> bool {
    match c {
        RouteCondition::MetadataEquals { key, value } => metadata_get(m, key@) == Some(value@),
        RouteCondition::MetadataPresent { key } => metadata_get(m, key@) is Some,
    }
}

pub open spec fn pair_views(v: Seq<(String, String)>) -> Seq<(Seq<char>, Seq<char>)> {
    v.map_values(|p: (String, String)| (p.0@, p.1@))
}

fn metadata_lookup(m: &Vec<(String, String)>, key: &String) -> (r: Option<usize>)
    ensures
        match r {
            Some(i) => i < m@.len() && metadata_get(pair_views(m@), key@) == Some(m@[i as int].1@),
            None => metadata_get(pair_views(m@), key@) is None,
        },
{
    let ghost pv = pair_views(m@);
    assert(pv.subrange(0, pv.len() as int) =~= pv);
    let mut i: usize = 0;
    while i < m.len()
        invariant
            i <= m@.len(),
            pv == pair_views(m@),
            metadata_get(pv, key@) == metadata_get(pv.subrange(i as int, pv.len() as int), key@),
        decreases m.len() - i,
    {
        let ghost rest = pv.subrange(i as int, pv.len() as int);
        assert(rest[0] == (m@[i as int].0@, m@[i as int].1@));
        if m[i].0 == *key {
            return Some(i);
        }
        assert(rest.drop_first() =~= pv.subrange(i + 1, pv.len() as int));
        i = i + 1;
    }
    None
}

impl RouteCondition {
    /// Whether the condition holds of the request metadata.
    pub fn matches(&self, metadata: &Vec<(String, String)>) -> (r: bool)
        ensures
            r == condition_matches(*self, pair_views(metadata@)),
    {
        match self {
            RouteCondition::MetadataEquals { key, value } => match metadata_lookup(metadata, key) {
                Some(i) => metadata[i].1 == *value,
                None => false,
            },
            RouteCondition::MetadataPresent { key } => metadata_lookup(metadata, key).is_some(),
        }
    }

    /// Whether the condition is well formed.
    pub fn validate(&self) -> (r: bool)
        ensures
            r == condition_valid(*self),
    {
        match self {
            RouteCondition::MetadataEquals { key, value } => !text::is_blank_str(key.as_str())
                && key.as_str().len() <= 64 && value.as_str().len() <= 256,
            RouteCondition::MetadataPresent { key } => !text::is_blank_str(key.as_str())
                && key.as_str().len() <= 64,
        }
    }
}

/// The issues of a nested validator, re-rooted under `prefix`.
pub open spec fn prefixed(prefix: Seq<char>, issues: Seq<IssueView>) -> Seq<IssueView> {
    issues.map_values(|i: IssueView| iv(prefix + "."@ + i.path, i.code, i.message))
}

/// What `append_nested_issues` adds for an error: its issues re-rooted
/// under `prefix`, or one issue named after the error code when it has none.
pub open spec fn nested_issues(prefix: Seq<char>, e: ErrorView) -> Seq<IssueView> {
    if e.issues.len() == 0 {
        seq![iv(prefix, upper(error_code_name(e.code)), e.message)]
    } else {
        prefixed(prefix, e.issues)
    }
}

pub(crate) fn append_nested_issues(issues: &mut Vec<ValidationIssue>, prefix: &str, error: CoreError)
    ensures
        issue_views(final(issues)@) == issue_views(old(issues)@) + nested_issues(prefix@, error@),
{
    let ghost e = error@;
    if error.issues.len() == 0 {
        let code = text::to_upper(crate::error::error_code_str(error.code));
        issues.push(ValidationIssue::new(prefix, code.as_str(), error.message.as_str()));
        assert(issue_views(final(issues)@) =~= issue_views(old(issues)@) + nested_issues(prefix@, e));
    } else {
        let nested = error.issues;
        let ghost start = issue_views(issues@);
        let mut i: usize = 0;
        while i < nested.len()
            invariant
                i <= nested@.len(),
                e.issues == issue_views(nested@),
                issue_views(issues@) == start + prefixed(prefix@, e.issues.take(i as int)),
            decreases nested.len() - i,
        {
            let mut path = text::owned(prefix);
            text::push_str(&mut path, ".");
            text::push_str(&mut path, nested[i].path.as_str());
            let ghost before = issue_views(issues@);
            assert(e.issues[i as int] == nested@[i as int]@);
            issues.push(ValidationIssue::at(path, nested[i].code.as_str(), nested[i].message.as_str()));
            assert(issue_views(issues@) =~= before.push(iv(prefix@ + "."@ + e.issues[i as int].path, e.issues[i as int].code, e.issues[i as int].message)));
            assert(e.issues.take(i + 1) =~= e.issues.take(i as int).push(e.issues[i as int]));
            assert(prefixed(prefix@, e.issues.take(i + 1)) =~= prefixed(prefix@, e.issues.take(i as int)).push(iv(prefix@ + "."@ + e.issues[i as int].path, e.issues[i as int].code, e.issues[i as int].message)));
            assert(issue_views(issues@) =~= start + prefixed(prefix@, e.issues.take(i + 1)));
            i = i + 1;
        }
        assert(e.issues.take(nested@.len() as int) =~= e.issues);
    }
}

/// Whether an endpoint override uses a scheme the provider allows.
pub open spec fn endpoint_allowed(m: ProviderManifest, endpoint: Seq<char>) -> bool {
    match url_scheme(endpoint) {
        Some(s) => strings(m.endpoint.allowed_schemes@).contains(s),
        None => false,
    }
}

fn endpoint_allowed_exec(m: &ProviderManifest, endpoint: &str) -> (r: bool)
    ensures
        r == endpoint_allowed(*m, endpoint@),
{
    match url_scheme_exec(endpoint) {
        Some(s) => contains_string(&m.endpoint.allowed_schemes, &s),
        None => false,
    }
}

pub open spec fn ref_keys(v: Seq<(String, SecretRef)>) -> Seq<Seq<char>> {
    v.map_values(|p: (String, SecretRef)| p.0@)
}

/// Required secret fields of the manifest that have no reference, among the
/// first `n` fields.
pub open spec fn missing_secret_issues(path: Seq<char>, fs: Seq<AuthenticationField>, keys: Seq<Seq<char>>, n: int) -> Seq<IssueView>
    decreases n,
{
    if n <= 0 {
        seq![]
    } else {
        missing_secret_issues(path, fs, keys, n - 1) + opt_issue(
            fs[n - 1].secret && fs[n - 1].required && !keys.contains(fs[n - 1].id@),
            iv(path + ".secret_refs."@ + fs[n - 1].id@, "SECRET_REFERENCE_REQUIRED"@, "缺少必需的 Secret 引用"@),
        )
    }
}

/// The issues of one provider instance stored under `key`.
#[verifier::opaque]
pub open spec fn instance_issues(key: Seq<char>, p: ProviderInstance) -> Seq<IssueView> {
    let path = "providers."@ + key;
    opt_issue(key != p.id@, iv(path + ".id"@, "KEY_MISMATCH"@, "Provider Instance 的映射键必须与 ID 一致"@))
        + prefixed(path + ".manifest"@, manifest_issues(p.manifest)) + opt_issue(
        adapter_of(p.manifest.adapter.id@) is None,
        iv(path + ".manifest.adapter.id"@, "ADAPTER_UNSUPPORTED"@, "Provider 引用了尚未实现的 Adapter"@),
    ) + opt_issue(
        p.endpoint_override matches Some(e) && !endpoint_allowed(p.manifest, e@),
        iv(
            path + ".endpoint_override"@,
            "SCHEME_NOT_ALLOWED"@,
            "Endpoint Override 的 Scheme 不在 Provider 允许列表中"@,
        ),
    ) + missing_secret_issues(
        path,
        p.manifest.authentication.fields@,
        ref_keys(p.secret_refs@),
        p.manifest.authentication.fields@.len() as int,
    )
}

pub open spec fn providers_issues(ps: Seq<(String, ProviderInstance)>, n: int) -> Seq<IssueView>
    decreases n,
{
    if n <= 0 {
        seq![]
    } else {
        providers_issues(ps, n - 1) + instance_issues(ps[n - 1].0@, ps[n - 1].1)
    }
}

/// The provider instance stored under a key.
pub open spec fn provider_at(ps: Seq<(String, ProviderInstance)>, key: Seq<char>) -> Option<ProviderInstance>
    decreases ps.len(),
{
    if ps.len() == 0 {
        None
    } else if ps[0].0@ == key {
        Some(ps[0].1)
    } else {
        provider_at(ps.drop_first(), key)
    }
}

pub open spec fn condition_issues(path: Seq<char>, cs: Seq<RouteCondition>, n: int) -> Seq<IssueView>
    decreases n,
{
    if n <= 0 {
        seq![]
    } else {
        condition_issues(path, cs, n - 1) + opt_issue(
            !condition_valid(cs[n - 1]),
            iv(
                path + ".conditions["@ + decimal((n - 1) as nat) + "]"@,
                "INVALID_CONDITION"@,
                "简单路由条件的键值为空或超过长度限制"@,
            ),
        )
    }
}

pub open spec fn upstream_id_repeats(us: Seq<UpstreamRoute>, j: int) -> bool {
    exists|k: int| 0 <= k < j && us[k].id@ == us[j].id@
}

pub open spec fn provider_ref_issues(ps: Seq<(String, ProviderInstance)>, path: Seq<char>, u: UpstreamRoute) -> Seq<IssueView> {
    match provider_at(ps, u.provider_instance@) {
        Some(p) => opt_issue(
            !p.enabled && u.enabled,
            iv(path + ".provider_instance"@, "PROVIDER_DISABLED"@, "启用的上游不能引用已停用 Provider"@),
        ),
        None => seq![iv(path + ".provider_instance"@, "PROVIDER_NOT_FOUND"@, "上游引用的 Provider Instance 不存在"@)],
    }
}

/// The issues of the `j`-th upstream of a route at `route_path`.
#[verifier::opaque]
pub open spec fn upstream_issues(ps: Seq<(String, ProviderInstance)>, route_path: Seq<char>, us: Seq<UpstreamRoute>, j: int) -> Seq<IssueView> {
    let path = route_path + ".upstreams["@ + decimal(j as nat) + "]"@;
    let u = us[j];
    opt_issue(
        is_blank(u.id@) || upstream_id_repeats(us, j),
        iv(path + ".id"@, "INVALID_OR_DUPLICATE"@, "上游 ID 不能为空且在模型路由内必须唯一"@),
    ) + opt_issue(is_blank(u.upstream_model@), iv(path + ".upstream_model"@, "REQUIRED"@, "上游模型名不能为空"@))
        + provider_ref_issues(ps, path, u) + condition_issues(path, u.conditions@, u.conditions@.len() as int)
}

pub open spec fn upstreams_issues(ps: Seq<(String, ProviderInstance)>, route_path: Seq<char>, us: Seq<UpstreamRoute>, n: int) -> Seq<IssueView>
    decreases n,
{
    if n <= 0 {
        seq![]
    } else {
        upstreams_issues(ps, route_path, us, n - 1) + upstream_issues(ps, route_path, us, n - 1)
    }
}

pub open spec fn public_model_repeats(rs: Seq<ModelRoute>, i: int) -> bool {
    exists|k: int| 0 <= k < i && rs[k].public_model@ == rs[i].public_model@
}

/// The issues of the `i`-th route of the publisher at `path`.
#[verifier::opaque]
pub open spec fn route_issues(ps: Seq<(String, ProviderInstance)>, path: Seq<char>, rs: Seq<ModelRoute>, i: int) -> Seq<IssueView> {
    let rp = path + ".routes["@ + decimal(i as nat) + "]"@;
    let r = rs[i];
    opt_issue(
        is_blank(r.public_model@) || public_model_repeats(rs, i),
        iv(rp + ".public_model"@, "INVALID_OR_DUPLICATE"@, "公开模型名不能为空且在 Publisher 内必须唯一"@),
    ) + prefixed(rp + ".policy"@, policy_issues(r.policy@)) + opt_issue(
        r.upstreams@.len() == 0,
        iv(rp + ".upstreams"@, "REQUIRED"@, "模型路由至少需要一个上游"@),
    ) + upstreams_issues(ps, rp, r.upstreams@, r.upstreams@.len() as int)
}

pub open spec fn routes_issues(ps: Seq<(String, ProviderInstance)>, path: Seq<char>, rs: Seq<ModelRoute>, n: int) -> Seq<IssueView>
    decreases n,
{
    if n <= 0 {
        seq![]
    } else {
        routes_issues(ps, path, rs, n - 1) + route_issues(ps, path, rs, n - 1)
    }
}

/// The issues of one publisher stored under `key`.
#[verifier::opaque]
pub open spec fn publisher_entry_issues(ps: Seq<(String, ProviderInstance)>, key: Seq<char>, p: RuntimePublisher) -> Seq<IssueView> {
    let path = "publishers."@ + key;
    opt_issue(key != p.config.id@, iv(path + ".config.id"@, "KEY_MISMATCH"@, "Publisher 的映射键必须与配置 ID 一致"@))
        + prefixed(path + ".config"@, publisher_issues(p.config)) + opt_issue(
        p.routes@.len() == 0,
        iv(path + ".routes"@, "REQUIRED"@, "Publisher 至少需要一个模型路由"@),
    ) + routes_issues(ps, path, p.routes@, p.routes@.len() as int)
}

pub open spec fn publishers_issues(ps: Seq<(String, ProviderInstance)>, pubs: Seq<(String, RuntimePublisher)>, n: int) -> Seq<IssueView>
    decreases n,
{
    if n <= 0 {
        seq![]
    } else {
        publishers_issues(ps, pubs, n - 1) + publisher_entry_issues(ps, pubs[n - 1].0@, pubs[n - 1].1)
    }
}

/// Every issue that compiling a runtime configuration reports, in order.
pub open spec fn runtime_issues(c: RuntimeConfig) -> Seq<IssueView> {
    opt_issue(
        c.schema_version != SCHEMA_VERSION,
        iv("schema_version"@, "UNSUPPORTED_SCHEMA"@, "Runtime Schema 版本不受支持"@),
    ) + opt_issue(is_blank(c.id@), iv("id"@, "REQUIRED"@, "Runtime ID 不能为空"@)) + providers_issues(
        c.providers@,
        c.providers@.len() as int,
    ) + publishers_issues(c.providers@, c.publishers@, c.publishers@.len() as int)
}

/// The number of model routes of the first `n` publishers.
pub open spec fn route_total(pubs: Seq<(String, RuntimePublisher)>, n: int) -> nat
    decreases n,
{
    if n <= 0 {
        0
    } else {
        route_total(pubs, n - 1) + pubs[n - 1].1.routes@.len()
    }
}

pub open spec fn route_upstreams(rs: Seq<ModelRoute>, n: int) -> nat
    decreases n,
{
    if n <= 0 {
        0
    } else {
        route_upstreams(rs, n - 1) + rs[n - 1].upstreams@.len()
    }
}

/// The number of upstreams of the first `n` publishers.
pub open spec fn upstream_total(pubs: Seq<(String, RuntimePublisher)>, n: int) -> nat
    decreases n,
{
    if n <= 0 {
        0
    } else {
        upstream_total(pubs, n - 1) + route_upstreams(pubs[n - 1].1.routes@, pubs[n - 1].1.routes@.len() as int)
    }
}

pub open spec fn enabled_count(ps: Seq<(String, ProviderInstance)>, n: int) -> nat
    decreases n,
{
    if n <= 0 {
        0
    } else {
        enabled_count(ps, n - 1) + if ps[n - 1].1.enabled {
            1nat
        } else {
            0nat
        }
    }
}

/// The summary of a publisher that validated.
pub open spec fn summary_is(s: PublisherSummary, c: PublisherConfig) -> bool {
    s.id@ == c.id@ && s.base_url@ == publisher_base_url(c) && s.loopback_only && s.authentication_enabled
        == c.require_token
}

/// The summary of a compiled configuration.
pub open spec fn runtime_summary_is(s: RuntimeSummary, c: RuntimeConfig) -> bool {
    &&& s.runtime_id@ == c.id@
    &&& s.provider_count == c.providers@.len()
    &&& s.enabled_provider_count == enabled_count(c.providers@, c.providers@.len() as int)
    &&& s.publisher_count == c.publishers@.len()
    &&& s.route_count == route_total(c.publishers@, c.publishers@.len() as int)
    &&& s.upstream_count == upstream_total(c.publishers@, c.publishers@.len() as int)
    &&& s.publishers@.len() == c.publishers@.len()
    &&& forall|i: int|
        0 <= i < s.publishers@.len() ==> #[trigger] s.publishers@[i].0@ == c.publishers@[i].0@
            && summary_is(s.publishers@[i].1, c.publishers@[i].1.config)
}

fn missing_secrets(path: &str, inst: &ProviderInstance, issues: &mut Vec<ValidationIssue>)
    ensures
        issue_views(final(issues)@) == issue_views(old(issues)@) + missing_secret_issues(
            path@,
            inst.manifest.authentication.fields@,
            ref_keys(inst.secret_refs@),
            inst.manifest.authentication.fields@.len() as int,
        ),
{
    let fields = &inst.manifest.authentication.fields;
    let ghost keys = ref_keys(inst.secret_refs@);
    let ghost start = issue_views(issues@);
    let mut i: usize = 0;
    while i < fields.len()
        invariant
            i <= fields@.len(),
            keys == ref_keys(inst.secret_refs@),
            fields@ == inst.manifest.authentication.fields@,
            issue_views(issues@) == start + missing_secret_issues(path@, fields@, keys, i as int),
        decreases fields.len() - i,
    {
        let field = &fields[i];
        if field.secret && field.required {
            let mut found = false;
            let mut k: usize = 0;
            while k < inst.secret_refs.len()
                invariant
                    k <= inst.secret_refs@.len(),
                    keys == ref_keys(inst.secret_refs@),
                    found == keys.take(k as int).contains(field.id@),
                decreases inst.secret_refs.len() - k,
            {
                assert(keys.take(k + 1) =~= keys.take(k as int).push(inst.secret_refs@[k as int].0@));
                proof {
                    lemma_contains_push(keys.take(k as int), inst.secret_refs@[k as int].0@, field.id@);
                }
                if inst.secret_refs[k].0 == field.id {
                    found = true;
                }
                k = k + 1;
            }
            assert(keys.take(inst.secret_refs@.len() as int) =~= keys);
            if !found {
                let mut p = text::owned(path);
                text::push_str(&mut p, ".secret_refs.");
                text::push_str(&mut p, field.id.as_str());
                issues.push(ValidationIssue::at(p, "SECRET_REFERENCE_REQUIRED", "缺少必需的 Secret 引用"));
            }
        }
        let ghost step = opt_issue(
            fields@[i as int].secret && fields@[i as int].required && !keys.contains(fields@[i as int].id@),
            iv(path@ + ".secret_refs."@ + fields@[i as int].id@, "SECRET_REFERENCE_REQUIRED"@, "缺少必需的 Secret 引用"@),
        );
        assert(issue_views(issues@) =~= start + missing_secret_issues(path@, fields@, keys, i as int) + step);
        i = i + 1;
    }
}

fn push_if(issues: &mut Vec<ValidationIssue>, cond: bool, path: String, code: &str, message: &str)
    ensures
        issue_views(final(issues)@) == issue_views(old(issues)@) + opt_issue(cond, iv(path@, code@, message@)),
{
    if cond {
        issues.push(ValidationIssue::at(path, code, message));
    }
    assert(issue_views(final(issues)@) =~= issue_views(old(issues)@) + opt_issue(cond, iv(path@, code@, message@)));
}

fn join(a: &str, b: &str) -> (r: String)
    ensures
        r@ == a@ + b@,
{
    let mut r = text::owned(a);
    text::push_str(&mut r, b);
    r
}

#[verifier::rlimit(40)]
fn instance_check(key: &String, inst: &ProviderInstance, issues: &mut Vec<ValidationIssue>)
    ensures
        issue_views(final(issues)@) == issue_views(old(issues)@) + instance_issues(key@, *inst),
{
    reveal(instance_issues);
    let ghost start = issue_views(issues@);
    let path = join("providers.", key.as_str());
    let p = path.as_str();
    push_if(issues, *key != inst.id, join(p, ".id"), "KEY_MISMATCH", "Provider Instance 的映射键必须与 ID 一致");
    let ghost s1 = issue_views(issues@);
    let mpath = join(p, ".manifest");
    match inst.manifest.validate() {
        Ok(()) => {
            assert(prefixed(mpath@, manifest_issues(inst.manifest)) =~= seq![]);
        },
        Err(error) => {
            append_nested_issues(issues, mpath.as_str(), error);
        },
    }
    assert(issue_views(issues@) =~= s1 + prefixed(mpath@, manifest_issues(inst.manifest)));
    let unsupported = match crate::adapter::AdapterKind::parse(inst.manifest.adapter.id.as_str()) {
        Ok(_) => false,
        Err(_) => true,
    };
    push_if(issues, unsupported, join(p, ".manifest.adapter.id"), "ADAPTER_UNSUPPORTED", "Provider 引用了尚未实现的 Adapter");
    let bad_override = match &inst.endpoint_override {
        Some(e) => !endpoint_allowed_exec(&inst.manifest, e.as_str()),
        None => false,
    };
    push_if(
        issues,
        bad_override,
        join(p, ".endpoint_override"),
        "SCHEME_NOT_ALLOWED",
        "Endpoint Override 的 Scheme 不在 Provider 允许列表中",
    );
    missing_secrets(p, inst, issues);
}

fn condition_check(path: &str, conditions: &Vec<RouteCondition>, issues: &mut Vec<ValidationIssue>)
    ensures
        issue_views(final(issues)@) == issue_views(old(issues)@) + condition_issues(
            path@,
            conditions@,
            conditions@.len() as int,
        ),
{
    let ghost start = issue_views(issues@);
    let mut i: usize = 0;
    while i < conditions.len()
        invariant
            i <= conditions@.len(),
            issue_views(issues@) == start + condition_issues(path@, conditions@, i as int),
        decreases conditions.len() - i,
    {
        let bad = !conditions[i].validate();
        let cpath = crate::provider::indexed_path(join(path, ".conditions").as_str(), i, "");
        proof {
            reveal_strlit("");
            assert(path@ + ".conditions"@ + seq!['['] + decimal(i as nat) + seq![']'] + ""@
                =~= path@ + ".conditions["@ + decimal(i as nat) + "]"@) by {
                reveal_strlit(".conditions[");
                reveal_strlit(".conditions");
                reveal_strlit("]");
            }
        }
        push_if(issues, bad, cpath, "INVALID_CONDITION", "简单路由条件的键值为空或超过长度限制");
        assert(issue_views(issues@) =~= start + condition_issues(path@, conditions@, i + 1));
        i = i + 1;
    }
}

fn provider_lookup(ps: &Vec<(String, ProviderInstance)>, key: &String) -> (r: Option<usize>)
    ensures
        match r {
            Some(i) => i < ps@.len() && provider_at(ps@, key@) == Some(ps@[i as int].1),
            None => provider_at(ps@, key@) is None,
        },
{
    assert(ps@.subrange(0, ps@.len() as int) =~= ps@);
    let mut i: usize = 0;
    while i < ps.len()
        invariant
            i <= ps@.len(),
            provider_at(ps@, key@) == provider_at(ps@.subrange(i as int, ps@.len() as int), key@),
        decreases ps.len() - i,
    {
        let ghost rest = ps@.subrange(i as int, ps@.len() as int);
        assert(rest[0] == ps@[i as int]);
        if ps[i].0 == *key {
            return Some(i);
        }
        assert(rest.drop_first() =~= ps@.subrange(i + 1, ps@.len() as int));
        i = i + 1;
    }
    None
}

fn upstream_id_seen(us: &Vec<UpstreamRoute>, j: usize) -> (r: bool)
    requires
        j < us@.len(),
    ensures
        r == upstream_id_repeats(us@, j as int),
{
    let mut k: usize = 0;
    while k < j
        invariant
            k <= j < us@.len(),
            forall|m: int| 0 <= m < k ==> us@[m].id@ != us@[j as int].id@,
        decreases j - k,
    {
        if us[k].id == us[j].id {
            return true;
        }
        k = k + 1;
    }
    false
}

fn upstream_check(
    providers: &Vec<(String, ProviderInstance)>,
    route_path: &str,
    us: &Vec<UpstreamRoute>,
    j: usize,
    issues: &mut Vec<ValidationIssue>,
)
    requires
        j < us@.len(),
    ensures
        issue_views(final(issues)@) == issue_views(old(issues)@) + upstream_issues(providers@, route_path@, us@, j as int),
{
    reveal(upstream_issues);
    let ghost start = issue_views(issues@);
    let u = &us[j];
    let path = crate::provider::indexed_path(join(route_path, ".upstreams").as_str(), j, "");
    proof {
        reveal_strlit("");
        assert(route_path@ + ".upstreams"@ + seq!['['] + decimal(j as nat) + seq![']'] + ""@
            =~= route_path@ + ".upstreams["@ + decimal(j as nat) + "]"@) by {
            reveal_strlit(".upstreams[");
            reveal_strlit(".upstreams");
            reveal_strlit("]");
        }
    }
    let p = path.as_str();
    let bad_id = text::is_blank_str(u.id.as_str()) || upstream_id_seen(us, j);
    push_if(issues, bad_id, join(p, ".id"), "INVALID_OR_DUPLICATE", "上游 ID 不能为空且在模型路由内必须唯一");
    push_if(issues, text::is_blank_str(u.upstream_model.as_str()), join(p, ".upstream_model"), "REQUIRED", "上游模型名不能为空");
    let ghost s2 = issue_views(issues@);
    match provider_lookup(providers, &u.provider_instance) {
        Some(k) => {
            push_if(
                issues,
                !providers[k].1.enabled && u.enabled,
                join(p, ".provider_instance"),
                "PROVIDER_DISABLED",
                "启用的上游不能引用已停用 Provider",
            );
        },
        None => {
            issues.push(ValidationIssue::at(join(p, ".provider_instance"), "PROVIDER_NOT_FOUND", "上游引用的 Provider Instance 不存在"));
            assert(issue_views(issues@) =~= s2 + provider_ref_issues(providers@, path@, *u));
        },
    }
    assert(issue_views(issues@) =~= s2 + provider_ref_issues(providers@, path@, *u));
    condition_check(p, &u.conditions, issues);
    assert(issue_views(issues@) =~= start + upstream_issues(providers@, route_path@, us@, j as int));
}

fn public_model_seen(rs: &Vec<ModelRoute>, i: usize) -> (r: bool)
    requires
        i < rs@.len(),
    ensures
        r == public_model_repeats(rs@, i as int),
{
    let mut k: usize = 0;
    while k < i
        invariant
            k <= i < rs@.len(),
            forall|m: int| 0 <= m < k ==> rs@[m].public_model@ != rs@[i as int].public_model@,
        decreases i - k,
    {
        if rs[k].public_model == rs[i].public_model {
            return true;
        }
        k = k + 1;
    }
    false
}

fn route_check(
    providers: &Vec<(String, ProviderInstance)>,
    path: &str,
    rs: &Vec<ModelRoute>,
    i: usize,
    issues: &mut Vec<ValidationIssue>,
)
    requires
        i < rs@.len(),
    ensures
        issue_views(final(issues)@) == issue_views(old(issues)@) + route_issues(providers@, path@, rs@, i as int),
{
    reveal(route_issues);
    let ghost start = issue_views(issues@);
    let r = &rs[i];
    let rpath = crate::provider::indexed_path(join(path, ".routes").as_str(), i, "");
    proof {
        reveal_strlit("");
        assert(path@ + ".routes"@ + seq!['['] + decimal(i as nat) + seq![']'] + ""@ =~= path@
            + ".routes["@ + decimal(i as nat) + "]"@) by {
            reveal_strlit(".routes[");
            reveal_strlit(".routes");
            reveal_strlit("]");
        }
    }
    let rp = rpath.as_str();
    let bad_model = text::is_blank_str(r.public_model.as_str()) || public_model_seen(rs, i);
    push_if(
        issues,
        bad_model,
        join(rp, ".public_model"),
        "INVALID_OR_DUPLICATE",
        "公开模型名不能为空且在 Publisher 内必须唯一",
    );
    let ghost s1 = issue_views(issues@);
    let ppath = join(rp, ".policy");
    match r.policy.validate() {
        Ok(()) => {
            assert(prefixed(ppath@, policy_issues(r.policy@)) =~= seq![]);
        },
        Err(error) => {
            append_nested_issues(issues, ppath.as_str(), error);
        },
    }
    assert(issue_views(issues@) =~= s1 + prefixed(ppath@, policy_issues(r.policy@)));
    push_if(issues, r.upstreams.len() == 0, join(rp, ".upstreams"), "REQUIRED", "模型路由至少需要一个上游");
    let ghost s3 = issue_views(issues@);
    let mut j: usize = 0;
    while j < r.upstreams.len()
        invariant
            j <= r.upstreams@.len(),
            rp@ == rpath@,
            issue_views(issues@) == s3 + upstreams_issues(providers@, rpath@, r.upstreams@, j as int),
        decreases r.upstreams.len() - j,
    {
        let ghost before = issue_views(issues@);
        upstream_check(providers, rp, &r.upstreams, j, issues);
        assert(issue_views(issues@) =~= s3 + upstreams_issues(providers@, rpath@, r.upstreams@, j + 1));
        j = j + 1;
    }
    assert(issue_views(issues@) =~= start + route_issues(providers@, path@, rs@, i as int));
}

fn routes_check(
    providers: &Vec<(String, ProviderInstance)>,
    path: &str,
    rs: &Vec<ModelRoute>,
    issues: &mut Vec<ValidationIssue>,
)
    ensures
        issue_views(final(issues)@) == issue_views(old(issues)@) + routes_issues(providers@, path@, rs@, rs@.len() as int),
{
    let ghost s3 = issue_views(issues@);
    let mut i: usize = 0;
    while i < rs.len()
        invariant
            i <= rs@.len(),
            issue_views(issues@) == s3 + routes_issues(providers@, path@, rs@, i as int),
        decreases rs.len() - i,
    {
        route_check(providers, path, rs, i, issues);
        assert(issue_views(issues@) =~= s3 + routes_issues(providers@, path@, rs@, i + 1));
        i = i + 1;
    }
}

fn publisher_check(
    providers: &Vec<(String, ProviderInstance)>,
    key: &String,
    p: &RuntimePublisher,
    issues: &mut Vec<ValidationIssue>,
) -> (r: Option<PublisherSummary>)
    ensures
        issue_views(final(issues)@) == issue_views(old(issues)@) + publisher_entry_issues(providers@, key@, *p),
        match r {
            Some(s) => publisher_issues(p.config).len() == 0 && summary_is(s, p.config),
            None => publisher_issues(p.config).len() > 0 && issue_views(final(issues)@).len() > issue_views(old(issues)@).len(),
        },
{
    reveal(publisher_entry_issues);
    let ghost start = issue_views(issues@);
    let path = join("publishers.", key.as_str());
    let pp = path.as_str();
    push_if(issues, *key != p.config.id, join(pp, ".config.id"), "KEY_MISMATCH", "Publisher 的映射键必须与配置 ID 一致");
    let ghost s1 = issue_views(issues@);
    let cpath = join(pp, ".config");
    let summary = match p.config.validate() {
        Ok(s) => {
            assert(prefixed(cpath@, publisher_issues(p.config)) =~= seq![]);
            Some(s)
        },
        Err(error) => {
            append_nested_issues(issues, cpath.as_str(), error);
            None
        },
    };
    assert(issue_views(issues@) =~= s1 + prefixed(cpath@, publisher_issues(p.config)));
    push_if(issues, p.routes.len() == 0, join(pp, ".routes"), "REQUIRED", "Publisher 至少需要一个模型路由");
    routes_check(providers, pp, &p.routes, issues);
    assert(issue_views(issues@) =~= start + publisher_entry_issues(providers@, key@, *p));
    summary
}

proof fn lemma_contains_push(s: Seq<Seq<char>>, x: Seq<char>, y: Seq<char>)
    ensures
        s.push(x).contains(y) <==> (s.contains(y) || x == y),
{
    if s.contains(y) {
        let k = choose|k: int| 0 <= k < s.len() && s[k] == y;
        assert(s.push(x)[k] == y);
    }
    if x == y {
        assert(s.push(x)[s.len() as int] == y);
    }
    if s.push(x).contains(y) {
        let k = choose|k: int| 0 <= k < s.push(x).len() && s.push(x)[k] == y;
        if k < s.len() {
            assert(s[k] == y);
        }
    }
}

proof fn lemma_prefix_totals(pubs: Seq<(String, RuntimePublisher)>, i: int, n: int)
    requires
        0 <= i <= n,
    ensures
        route_total(pubs, i) <= route_total(pubs, n),
        upstream_total(pubs, i) <= upstream_total(pubs, n),
    decreases n - i,
{
    if i < n {
        lemma_prefix_totals(pubs, i, n - 1);
    }
}

proof fn lemma_route_prefix(rs: Seq<ModelRoute>, i: int, n: int)
    requires
        0 <= i <= n,
    ensures
        route_upstreams(rs, i) <= route_upstreams(rs, n),
    decreases n - i,
{
    if i < n {
        lemma_route_prefix(rs, i, n - 1);
    }
}

fn route_upstream_count(rs: &Vec<ModelRoute>) -> (r: usize)
    requires
        route_upstreams(rs@, rs@.len() as int) <= usize::MAX,
    ensures
        r == route_upstreams(rs@, rs@.len() as int),
{
    let mut count: usize = 0;
    let mut j: usize = 0;
    while j < rs.len()
        invariant
            j <= rs@.len(),
            count == route_upstreams(rs@, j as int),
            route_upstreams(rs@, rs@.len() as int) <= usize::MAX,
        decreases rs.len() - j,
    {
        proof {
            lemma_route_prefix(rs@, j + 1, rs@.len() as int);
        }
        count = count + rs[j].upstreams.len();
        j = j + 1;
    }
    count
}

fn providers_check(providers: &Vec<(String, ProviderInstance)>, issues: &mut Vec<ValidationIssue>) -> (enabled: usize)
    ensures
        issue_views(final(issues)@) == issue_views(old(issues)@) + providers_issues(providers@, providers@.len() as int),
        enabled == enabled_count(providers@, providers@.len() as int),
{
    let ghost s1 = issue_views(issues@);
    let mut i: usize = 0;
    let mut enabled: usize = 0;
    while i < providers.len()
        invariant
            i <= providers@.len(),
            enabled == enabled_count(providers@, i as int),
            enabled <= i,
            issue_views(issues@) == s1 + providers_issues(providers@, i as int),
        decreases providers.len() - i,
    {
        instance_check(&providers[i].0, &providers[i].1, issues);
        assert(issue_views(issues@) =~= s1 + providers_issues(providers@, i + 1));
        if providers[i].1.enabled {
            enabled = enabled + 1;
        }
        i = i + 1;
    }
    enabled
}

#[verifier::rlimit(30)]
fn publishers_check(
    providers: &Vec<(String, ProviderInstance)>,
    publishers: &Vec<(String, RuntimePublisher)>,
    issues: &mut Vec<ValidationIssue>,
) -> (r: (Vec<(String, PublisherSummary)>, bool, usize, usize))
    requires
        route_total(publishers@, publishers@.len() as int) <= usize::MAX,
        upstream_total(publishers@, publishers@.len() as int) <= usize::MAX,
    ensures
        issue_views(final(issues)@) == issue_views(old(issues)@) + publishers_issues(
            providers@,
            publishers@,
            publishers@.len() as int,
        ),
        r.2 == route_total(publishers@, publishers@.len() as int),
        r.3 == upstream_total(publishers@, publishers@.len() as int),
        !r.1 ==> issue_views(final(issues)@).len() > 0,
        r.1 ==> r.0@.len() == publishers@.len() && forall|m: int|
            0 <= m < publishers@.len() ==> #[trigger] r.0@[m].0@ == publishers@[m].0@ && summary_is(
                r.0@[m].1,
                publishers@[m].1.config,
            ),
{
    let ghost s2 = issue_views(issues@);
    let mut summaries: Vec<(String, PublisherSummary)> = Vec::new();
    let mut all_valid = true;
    let mut route_count: usize = 0;
    let mut upstream_count: usize = 0;
    let mut k: usize = 0;
    while k < publishers.len()
        invariant
            k <= publishers@.len(),
            route_total(publishers@, publishers@.len() as int) <= usize::MAX,
            upstream_total(publishers@, publishers@.len() as int) <= usize::MAX,
            route_count == route_total(publishers@, k as int),
            upstream_count == upstream_total(publishers@, k as int),
            issue_views(issues@) == s2 + publishers_issues(providers@, publishers@, k as int),
            all_valid ==> summaries@.len() == k,
            all_valid ==> forall|m: int|
                0 <= m < k ==> #[trigger] summaries@[m].0@ == publishers@[m].0@ && summary_is(
                    summaries@[m].1,
                    publishers@[m].1.config,
                ),
            !all_valid ==> issue_views(issues@).len() > 0,
        decreases publishers.len() - k,
    {
        let key = &publishers[k].0;
        let p = &publishers[k].1;
        let got = publisher_check(providers, key, p, issues);
        proof {
            lemma_prefix_totals(publishers@, k + 1, publishers@.len() as int);
        }
        match got {
            Some(s) => {
                let ghost old = summaries@;
                let entry_key = key.clone();
                assert(entry_key@ == publishers@[k as int].0@);
                assert(summary_is(s, publishers@[k as int].1.config));
                summaries.push((entry_key, s));
                assert(summaries@ == old.push((entry_key, s)));
                assert forall|m: int| all_valid && 0 <= m < k + 1 implies #[trigger] summaries@[m].0@
                    == publishers@[m].0@ && summary_is(summaries@[m].1, publishers@[m].1.config) by {
                    if m < k {
                        assert(summaries@[m] == old[m]);
                    } else {
                        assert(summaries@[m] == (entry_key, s));
                    }
                }
            },
            None => {
                all_valid = false;
            },
        }
        route_count = route_count + p.routes.len();
        upstream_count = upstream_count + route_upstream_count(&p.routes);
        assert(issue_views(issues@) =~= s2 + publishers_issues(providers@, publishers@, k + 1));
        k = k + 1;
    }
    (summaries, all_valid, route_count, upstream_count)
}

/// The issues that compiling the configuration reports, in order.
pub(crate) fn runtime_issue_list(c: &RuntimeConfig) -> (r: Vec<ValidationIssue>)
    requires
        route_total(c.publishers@, c.publishers@.len() as int) <= usize::MAX,
        upstream_total(c.publishers@, c.publishers@.len() as int) <= usize::MAX,
    ensures
        issue_views(r@) == runtime_issues(*c),
{
    let mut issues: Vec<ValidationIssue> = Vec::new();
    assert(issue_views(issues@) =~= seq![]);
    push_if(&mut issues, c.schema_version != SCHEMA_VERSION, text::owned("schema_version"), "UNSUPPORTED_SCHEMA", "Runtime Schema 版本不受支持");
    push_if(&mut issues, text::is_blank_str(c.id.as_str()), text::owned("id"), "REQUIRED", "Runtime ID 不能为空");
    let _ = providers_check(&c.providers, &mut issues);
    let _ = publishers_check(&c.providers, &c.publishers, &mut issues);
    assert(issue_views(issues@) =~= runtime_issues(*c));
    issues
}

impl RuntimeConfig {
    /// Compiles and checks a whole runtime configuration without any network
    /// access. Every issue found is reported, in the order of the
    /// configuration; with none, the runtime is summarised.
    pub fn compile(self) -> (r: Result<CompiledRuntime, CoreError>)
        requires
            route_total(self.publishers@, self.publishers@.len() as int) <= usize::MAX,
            upstream_total(self.publishers@, self.publishers@.len() as int) <= usize::MAX,
        ensures
            match r {
                Ok(c) => runtime_issues(self).len() == 0 && c.config_view() == self && runtime_summary_is(c.summary_view(), self),
                Err(e) => runtime_issues(self).len() > 0 && e.code == ErrorCode::RuntimeConfigInvalid
                    && e.message@ == "Runtime 配置编译失败"@ && e@.issues == runtime_issues(self),
            },
    {
        let ghost cfg = self;
        let mut issues: Vec<ValidationIssue> = Vec::new();
        assert(issue_views(issues@) =~= seq![]);
        push_if(&mut issues, self.schema_version != SCHEMA_VERSION, text::owned("schema_version"), "UNSUPPORTED_SCHEMA", "Runtime Schema 版本不受支持");
        push_if(&mut issues, text::is_blank_str(self.id.as_str()), text::owned("id"), "REQUIRED", "Runtime ID 不能为空");
        let ghost s1 = issue_views(issues@);
        let enabled = providers_check(&self.providers, &mut issues);
        let ghost s2 = issue_views(issues@);
        let (summaries, all_valid, route_count, upstream_count) = publishers_check(&self.providers, &self.publishers, &mut issues);
        assert(issue_views(issues@) =~= runtime_issues(self));
        if issues.len() > 0 {
            return Err(CoreError::validation(ErrorCode::RuntimeConfigInvalid, "Runtime 配置编译失败", issues));
        }
        let summary = RuntimeSummary {
            runtime_id: self.id.clone(),
            provider_count: self.providers.len(),
            enabled_provider_count: enabled,
            publisher_count: self.publishers.len(),
            route_count,
            upstream_count,
            publishers: summaries,
        };
        assert(runtime_summary_is(summary, cfg));
        assert(runtime_issues(cfg).len() == 0);
        let compiled = CompiledRuntime { config: self, summary };
        assert(compiled.config_view() == cfg);
        assert(compiled.summary_view() == summary);
        Ok(compiled)
    }
}

impl CompiledRuntime {
    #[verifier::type_invariant]
    closed spec fn wf(self) -> bool {
        runtime_issues(self.config).len() == 0
    }

    /// The configuration that compiled.
    pub closed spec fn config_view(&self) -> RuntimeConfig {
        self.config
    }

    /// The summary computed when it compiled.
    pub closed spec fn summary_view(&self) -> RuntimeSummary {
        self.summary
    }

    /// The summary computed when the configuration compiled.
    pub fn summary(&self) -> (r: &RuntimeSummary)
        ensures
            *r == self.summary_view(),
    {
        &self.summary
    }

    /// The configuration of the publisher stored under an id.
    pub fn publisher_config(&self, publisher_id: &str) -> (r: Option<&PublisherConfig>)
        ensures
            match r {
                Some(c) => exists|i: int|
                    0 <= i < self.config_view().publishers@.len() && self.config_view().publishers@[i].0@ == publisher_id@
                        && *c == self.config_view().publishers@[i].1.config && forall|m: int|
                        0 <= m < i ==> self.config_view().publishers@[m].0@ != publisher_id@,
                None => forall|i: int|
                    0 <= i < self.config_view().publishers@.len() ==> self.config_view().publishers@[i].0@ != publisher_id@,
            },
    {
        let ps = &self.config.publishers;
        let mut i: usize = 0;
        while i < ps.len()
            invariant
                i <= ps@.len(),
                ps == &self.config.publishers,
                forall|m: int| 0 <= m < i ==> ps@[m].0@ != publisher_id@,
            decreases ps.len() - i,
        {
            if text::str_eq(ps[i].0.as_str(), publisher_id) {
                assert(self.config_view().publishers@[i as int].0@ == publisher_id@);
                return Some(&ps[i].1.config);
            }
            i = i + 1;
        }
        None
    }
}

/// Where a request for a public model of a publisher should go: the request
/// metadata that route conditions read, the health known of each upstream,
/// the upstreams to leave out, and the error of the previous attempt.
#[derive(Debug, Clone, PartialEq, Eq)]
pub struct RouteQuery {
    pub publisher_id: String,
    pub model: String,
    /// Request metadata, in key order.
    pub metadata: Vec<(String, String)>,
    /// Known health by upstream id, in key order.
    pub health: Vec<(String, HealthStatus)>,
    pub excluded_upstreams: Vec<String>,
    pub previous_error: Option<StandardError>,
}

/// The upstream a request was routed to, and the decision that chose it.
#[derive(Debug, Clone, PartialEq, Eq)]
pub struct RoutedUpstream {
    pub runtime_id: String,
    pub publisher_id: String,
    pub public_model: String,
    pub upstream_model: String,
    pub provider_instance: String,
    pub route: RouteDecision,
}

/// The index of the first publisher stored under a key.
pub open spec fn publisher_index(pubs: Seq<(String, RuntimePublisher)>, key: Seq<char>) -> Option<int> {
    if exists|k: int| 0 <= k < pubs.len() && pubs[k].0@ == key {
        Some(choose|k: int| 0 <= k < pubs.len() && pubs[k].0@ == key && forall|m: int| 0 <= m < k ==> pubs[m].0@ != key)
    } else {
        None
    }
}

/// The index of the first route of a public model.
pub open spec fn route_index(rs: Seq<ModelRoute>, model: Seq<char>) -> Option<int> {
    if exists|k: int| 0 <= k < rs.len() && rs[k].public_model@ == model {
        Some(choose|k: int| 0 <= k < rs.len() && rs[k].public_model@ == model && forall|m: int| 0 <= m < k ==> rs[m].public_model@ != model)
    } else {
        None
    }
}

/// The index of the first upstream with an id.
pub open spec fn upstream_index(us: Seq<UpstreamRoute>, id: Seq<char>) -> Option<int> {
    if exists|k: int| 0 <= k < us.len() && us[k].id@ == id {
        Some(choose|k: int| 0 <= k < us.len() && us[k].id@ == id && forall|m: int| 0 <= m < k ==> us[m].id@ != id)
    } else {
        None
    }
}

/// The health known of an upstream; `Unknown` when none is.
pub open spec fn health_of(h: Seq<(String, HealthStatus)>, id: Seq<char>) -> HealthStatus
    decreases h.len(),
{
    if h.len() == 0 {
        HealthStatus::Unknown
    } else if h[0].0@ == id {
        h[0].1
    } else {
        health_of(h.drop_first(), id)
    }
}

/// Whether every condition of an upstream holds of the metadata.
pub open spec fn conditions_hold(cs: Seq<RouteCondition>, md: Seq<(Seq<char>, Seq<char>)>) -> bool {
    forall|i: int| 0 <= i < cs.len() ==> condition_matches(#[trigger] cs[i], md)
}

/// The routing candidate an upstream stands for: enabled only when all of
/// its conditions hold, with the known health and the route's public model.
pub open spec fn candidate_of(u: UpstreamRoute, model: Seq<char>, q: RouteQuery) -> CandidateView {
    CandidateView {
        id: u.id@,
        priority: u.priority,
        weight: 1,
        enabled: u.enabled && conditions_hold(u.conditions@, pair_views(q.metadata@)),
        health: health_of(q.health@, u.id@),
        latency_ms: None,
        models: seq![model],
    }
}

pub open spec fn candidates_of(r: ModelRoute, q: RouteQuery) -> Seq<CandidateView> {
    Seq::new(r.upstreams@.len(), |i: int| candidate_of(r.upstreams@[i], r.public_model@, q))
}

pub open spec fn route_request_of(r: ModelRoute, q: RouteQuery) -> RequestView {
    RequestView { model: r.public_model@, excluded: strings(q.excluded_upstreams@), previous_error: q.previous_error }
}

/// What planning a route gives for a compiled configuration and a query.
pub open spec fn route_plan_is(c: RuntimeConfig, q: RouteQuery, r: Result<RoutedUpstream, CoreError>) -> bool {
    match publisher_index(c.publishers@, q.publisher_id@) {
        None => r matches Err(e) && e.code == ErrorCode::RouteUnavailable && e.message@ == "Publisher "@
            + q.publisher_id@ + " 不存在"@ && e.issues@.len() == 0,
        Some(k) => {
            let p = c.publishers@[k].1;
            match route_index(p.routes@, q.model@) {
                None => r matches Err(e) && e.code == ErrorCode::RouteUnavailable && e.message@
                    == "公开模型 "@ + q.model@ + " 没有路由"@ && e.issues@.len() == 0,
                Some(i) => {
                    let route = p.routes@[i];
                    let cs = candidates_of(route, q);
                    let req = route_request_of(route, q);
                    match r {
                        Err(e) => decision_spec(route.policy@, req, cs, Err(e)),
                        Ok(plan) => {
                            &&& decision_spec(route.policy@, req, cs, Ok(plan.route))
                            &&& exists|j: int| stateless_choice(route.policy@, req, cs, j) && decision_is(route.policy@, req, #[trigger] cs[j], plan.route)
                            &&& upstream_index(route.upstreams@, plan.route.candidate_id@) matches Some(j)
                                && plan.upstream_model@ == route.upstreams@[j].upstream_model@
                                && plan.provider_instance@ == route.upstreams@[j].provider_instance@
                            &&& plan.runtime_id@ == c.id@
                            &&& plan.publisher_id@ == q.publisher_id@
                            &&& plan.public_model@ == route.public_model@
                        },
                    }
                },
            }
        },
    }
}

proof fn lemma_publishers_clean(ps: Seq<(String, ProviderInstance)>, pubs: Seq<(String, RuntimePublisher)>, n: int, k: int)
    requires
        0 <= k < n,
        publishers_issues(ps, pubs, n).len() == 0,
    ensures
        publisher_entry_issues(ps, pubs[k].0@, pubs[k].1).len() == 0,
    decreases n,
{
    if k < n - 1 {
        lemma_publishers_clean(ps, pubs, n - 1, k);
    }
}

proof fn lemma_routes_clean(ps: Seq<(String, ProviderInstance)>, path: Seq<char>, rs: Seq<ModelRoute>, n: int, k: int)
    requires
        0 <= k < n,
        routes_issues(ps, path, rs, n).len() == 0,
    ensures
        route_issues(ps, path, rs, k).len() == 0,
    decreases n,
{
    if k < n - 1 {
        lemma_routes_clean(ps, path, rs, n - 1, k);
    }
}

proof fn lemma_upstreams_clean(ps: Seq<(String, ProviderInstance)>, path: Seq<char>, us: Seq<UpstreamRoute>, n: int, k: int)
    requires
        0 <= k < n,
        upstreams_issues(ps, path, us, n).len() == 0,
    ensures
        upstream_issues(ps, path, us, k).len() == 0,
    decreases n,
{
    if k < n - 1 {
        lemma_upstreams_clean(ps, path, us, n - 1, k);
    }
}

/// In a configuration that compiled, every upstream names an existing
/// provider instance.
proof fn lemma_compiled_provider_exists(c: RuntimeConfig, k: int, i: int, j: int)
    requires
        runtime_issues(c).len() == 0,
        0 <= k < c.publishers@.len(),
        0 <= i < c.publishers@[k].1.routes@.len(),
        0 <= j < c.publishers@[k].1.routes@[i].upstreams@.len(),
    ensures
        provider_at(c.providers@, c.publishers@[k].1.routes@[i].upstreams@[j].provider_instance@) is Some,
{
    reveal(publisher_entry_issues);
    reveal(route_issues);
    reveal(upstream_issues);
    let pubs = c.publishers@;
    lemma_publishers_clean(c.providers@, pubs, pubs.len() as int, k);
    let p = pubs[k].1;
    let path = "publishers."@ + pubs[k].0@;
    lemma_routes_clean(c.providers@, path, p.routes@, p.routes@.len() as int, i);
    let rp = path + ".routes["@ + decimal(i as nat) + "]"@;
    let route = p.routes@[i];
    lemma_upstreams_clean(c.providers@, rp, route.upstreams@, route.upstreams@.len() as int, j);
}

fn health_lookup(h: &Vec<(String, HealthStatus)>, id: &String) -> (r: HealthStatus)
    ensures
        r == health_of(h@, id@),
{
    assert(h@.subrange(0, h@.len() as int) =~= h@);
    let mut i: usize = 0;
    while i < h.len()
        invariant
            i <= h@.len(),
            health_of(h@, id@) == health_of(h@.subrange(i as int, h@.len() as int), id@),
        decreases h.len() - i,
    {
        let ghost rest = h@.subrange(i as int, h@.len() as int);
        assert(rest[0] == h@[i as int]);
        if h[i].0 == *id {
            return h[i].1;
        }
        assert(rest.drop_first() =~= h@.subrange(i + 1, h@.len() as int));
        i = i + 1;
    }
    HealthStatus::Unknown
}

fn all_conditions_hold(cs: &Vec<RouteCondition>, md: &Vec<(String, String)>) -> (r: bool)
    ensures
        r == conditions_hold(cs@, pair_views(md@)),
{
    let mut i: usize = 0;
    while i < cs.len()
        invariant
            i <= cs@.len(),
            forall|k: int| 0 <= k < i ==> condition_matches(#[trigger] cs@[k], pair_views(md@)),
        decreases cs.len() - i,
    {
        if !cs[i].matches(md) {
            return false;
        }
        i = i + 1;
    }
    true
}

fn route_candidates(route: &ModelRoute, q: &RouteQuery) -> (r: Vec<RouteCandidate>)
    ensures
        candidate_views(r@) == candidates_of(*route, *q),
{
    let mut r: Vec<RouteCandidate> = Vec::new();
    let mut i: usize = 0;
    while i < route.upstreams.len()
        invariant
            i <= route.upstreams@.len(),
            candidate_views(r@) == candidates_of(*route, *q).take(i as int),
        decreases route.upstreams.len() - i,
    {
        let u = &route.upstreams[i];
        let enabled = u.enabled && all_conditions_hold(&u.conditions, &q.metadata);
        let health = health_lookup(&q.health, &u.id);
        let mut models: Vec<String> = Vec::new();
        models.push(route.public_model.clone());
        let c = RouteCandidate {
            id: u.id.clone(),
            priority: u.priority,
            weight: 1,
            enabled,
            health,
            latency_ms: None,
            models,
        };
        let ghost prev = r@;
        r.push(c);
        assert(strings(models@) =~= seq![route.public_model@]);
        assert(candidate_views(r@) =~= candidate_views(prev).push(candidate_of(*u, route.public_model@, *q)));
        assert(candidates_of(*route, *q).take(i + 1) =~= candidates_of(*route, *q).take(i as int).push(
            candidate_of(*u, route.public_model@, *q),
        ));
        i = i + 1;
    }
    assert(candidates_of(*route, *q).take(route.upstreams@.len() as int) =~= candidates_of(*route, *q));
    r
}

/// The route policy's decision among a route's candidates, and the index of
/// the first upstream with the chosen id.
fn decide_on_route(route: &ModelRoute, query: &RouteQuery) -> (r: Result<(RouteDecision, usize), CoreError>)
    ensures
        match r {
            Err(e) => decision_spec(route.policy@, route_request_of(*route, *query), candidates_of(*route, *query), Err(e)),
            Ok((d, j)) => {
                &&& decision_spec(route.policy@, route_request_of(*route, *query), candidates_of(*route, *query), Ok(d))
                &&& exists|k: int| stateless_choice(route.policy@, route_request_of(*route, *query), candidates_of(*route, *query), k)
                    && decision_is(route.policy@, route_request_of(*route, *query), #[trigger] candidates_of(*route, *query)[k], d)
                &&& upstream_index(route.upstreams@, d.candidate_id@) == Some(j as int)
                &&& j < route.upstreams@.len()
            },
        },
{
    let candidates = route_candidates(route, query);
    let request = RouteRequest {
        model: route.public_model.clone(),
        excluded_candidates: query.excluded_upstreams.clone(),
        previous_error: query.previous_error,
    };
    assert(request@ == route_request_of(*route, *query));
    let decision = match route.policy.decide(&request, &candidates) {
        Ok(d) => d,
        Err(e) => {
            return Err(e);
        },
    };
    let ghost cs = candidates_of(*route, *query);
    let ghost chosen = choose|k: int| stateless_choice(route.policy@, request@, candidate_views(candidates@), k)
        && decision_is(route.policy@, request@, #[trigger] candidate_views(candidates@)[k], decision);
    let us = &route.upstreams;
    proof {
        assert(0 <= chosen < cs.len());
        assert(cs[chosen].id == us@[chosen].id@);
    }
    match find_upstream(us, &decision.candidate_id) {
        Some(j) => Ok((decision, j)),
        None => Err(CoreError::new(ErrorCode::InternalRuntimeError, "路由决策引用了不存在的上游")),
    }
}

fn find_publisher(pubs: &Vec<(String, RuntimePublisher)>, key: &String) -> (r: Option<usize>)
    ensures
        match r {
            Some(k) => publisher_index(pubs@, key@) == Some(k as int) && k < pubs@.len(),
            None => publisher_index(pubs@, key@) is None,
        },
{
    let mut k: usize = 0;
    while k < pubs.len()
        invariant
            k <= pubs@.len(),
            forall|m: int| 0 <= m < k ==> pubs@[m].0@ != key@,
        decreases pubs.len() - k,
    {
        if pubs[k].0 == *key {
            assert(publisher_index(pubs@, key@) == Some(k as int)) by {
                let w = choose|w: int| 0 <= w < pubs@.len() && pubs@[w].0@ == key@ && forall|m: int| 0 <= m < w ==> pubs@[m].0@ != key@;
                if w > k {
                    assert(pubs@[k as int].0@ == key@);
                }
            }
            return Some(k);
        }
        k = k + 1;
    }
    None
}

fn find_route(rs: &Vec<ModelRoute>, model: &String) -> (r: Option<usize>)
    ensures
        match r {
            Some(k) => route_index(rs@, model@) == Some(k as int) && k < rs@.len(),
            None => route_index(rs@, model@) is None,
        },
{
    let mut k: usize = 0;
    while k < rs.len()
        invariant
            k <= rs@.len(),
            forall|m: int| 0 <= m < k ==> rs@[m].public_model@ != model@,
        decreases rs.len() - k,
    {
        if rs[k].public_model == *model {
            assert(route_index(rs@, model@) == Some(k as int)) by {
                let w = choose|w: int| 0 <= w < rs@.len() && rs@[w].public_model@ == model@ && forall|m: int| 0 <= m < w ==> rs@[m].public_model@ != model@;
                if w > k {
                    assert(rs@[k as int].public_model@ == model@);
                }
            }
            return Some(k);
        }
        k = k + 1;
    }
    None
}

fn find_upstream(us: &Vec<UpstreamRoute>, id: &String) -> (r: Option<usize>)
    ensures
        match r {
            Some(k) => upstream_index(us@, id@) == Some(k as int) && k < us@.len(),
            None => upstream_index(us@, id@) is None,
        },
{
    let mut k: usize = 0;
    while k < us.len()
        invariant
            k <= us@.len(),
            forall|m: int| 0 <= m < k ==> us@[m].id@ != id@,
        decreases us.len() - k,
    {
        if us[k].id == *id {
            assert(upstream_index(us@, id@) == Some(k as int)) by {
                let w = choose|w: int| 0 <= w < us@.len() && us@[w].id@ == id@ && forall|m: int| 0 <= m < w ==> us@[m].id@ != id@;
                if w > k {
                    assert(us@[k as int].id@ == id@);
                }
            }
            return Some(k);
        }
        k = k + 1;
    }
    None
}

impl CompiledRuntime {
    /// Plans where a request goes: the publisher, its route for the public
    /// model, and the upstream the route policy chooses among candidates
    /// whose conditions hold of the request metadata. No secret is read.
    pub fn plan_route(&self, query: &RouteQuery) -> (r: Result<RoutedUpstream, CoreError>)
        ensures
            route_plan_is(self.config_view(), *query, r),
    {
        proof {
            use_type_invariant(self);
        }
        let pubs = &self.config.publishers;
        let k = match find_publisher(pubs, &query.publisher_id) {
            Some(k) => k,
            None => {
                let mut message = text::owned("Publisher ");
                text::push_str(&mut message, query.publisher_id.as_str());
                text::push_str(&mut message, " 不存在");
                return Err(CoreError::new(ErrorCode::RouteUnavailable, message.as_str()));
            },
        };
        let publisher = &pubs[k].1;
        let rs = &publisher.routes;
        let i = match find_route(rs, &query.model) {
            Some(i) => i,
            None => {
                let mut message = text::owned("公开模型 ");
                text::push_str(&mut message, query.model.as_str());
                text::push_str(&mut message, " 没有路由");
                return Err(CoreError::new(ErrorCode::RouteUnavailable, message.as_str()));
            },
        };
        let route = &rs[i];
        let (decision, j) = match decide_on_route(route, query) {
            Ok(found) => found,
            Err(e) => {
                return Err(e);
            },
        };
        let us = &route.upstreams;
        let upstream = &us[j];
        proof {
            lemma_compiled_provider_exists(self.config, k as int, i as int, j as int);
        }
        match provider_lookup(&self.config.providers, &upstream.provider_instance) {
            None => {
                return Err(CoreError::new(ErrorCode::InternalRuntimeError, "上游引用的 Provider 在编译后丢失"));
            },
            Some(_) => {},
        }
        Ok(RoutedUpstream {
            runtime_id: self.config.id.clone(),
            publisher_id: query.publisher_id.clone(),
            public_model: route.public_model.clone(),
            upstream_model: upstream.upstream_model.clone(),
            provider_instance: upstream.provider_instance.clone(),
            route: decision,
        })
    }

    /// The provider instance stored under an id.
    pub fn provider_instance(&self, id: &str) -> (r: Option<&ProviderInstance>)
        ensures
            match r {
                Some(p) => provider_at(self.config_view().providers@, id@) == Some(*p),
                None => provider_at(self.config_view().providers@, id@) is None,
            },
    {
        let key = text::owned(id);
        match provider_lookup(&self.config.providers, &key) {
            Some(k) => Some(&self.config.providers[k].1),
            None => None,
        }
    }
}

/// A request to dispatch through a publisher: the canonical request, the
/// health known of each upstream, the upstreams to leave out, and the error
/// of the previous attempt.
#[derive(Debug, Clone, PartialEq, Eq)]
pub struct DispatchRequest {
    pub publisher_id: String,
    pub request: CanonicalRequest,
    /// Known health by upstream id, in key order.
    pub health: Vec<(String, HealthStatus)>,
    pub excluded_upstreams: Vec<String>,
    pub previous_error: Option<StandardError>,
}

/// Where a request goes and the HTTP plan that sends it there.
#[derive(Debug, PartialEq, Eq)]
pub struct DispatchPlan {
    pub runtime_id: String,
    pub publisher_id: String,
    pub public_model: String,
    pub upstream_model: String,
    pub provider_instance: String,
    pub route: RouteDecision,
    pub transport: TransportPlan,
}

/// The route query a dispatch request asks: its public model is the
/// request's model and its metadata the request's metadata.
pub open spec fn dispatch_query(d: DispatchRequest) -> RouteQuery {
    RouteQuery {
        publisher_id: d.publisher_id,
        model: d.request.model,
        metadata: d.request.metadata,
        health: d.health,
        excluded_upstreams: d.excluded_upstreams,
        previous_error: d.previous_error,
    }
}

pub open spec fn routed_of(p: DispatchPlan) -> RoutedUpstream {
    RoutedUpstream {
        runtime_id: p.runtime_id,
        publisher_id: p.publisher_id,
        public_model: p.public_model,
        upstream_model: p.upstream_model,
        provider_instance: p.provider_instance,
        route: p.route,
    }
}

/// The base URL a provider instance is reached at: its override, if any.
pub open spec fn instance_base(p: ProviderInstance) -> Seq<char> {
    match p.endpoint_override {
        Some(e) => e@,
        None => p.manifest.endpoint.default_base_url@,
    }
}

/// The HTTP plan for a routed request: the request, under the upstream's
/// model, to the routed provider instance at its base URL.
pub open spec fn dispatch_transport(c: RuntimeConfig, u: RoutedUpstream, r: CanonicalRequest, temperature: Option<Seq<char>>) -> Result<PlanView, ErrorView> {
    match provider_at(c.providers@, u.provider_instance@) {
        None => Err(plain_error(ErrorCode::InternalRuntimeError, "上游引用的 Provider 在编译后丢失"@)),
        Some(p) => transport_spec(p.manifest, instance_base(p), p.secret_refs@, r, u.upstream_model@, temperature),
    }
}

/// What dispatching gives: a request that fails validation is refused;
/// otherwise the route is planned as `route_plan_is` says and the routed
/// request is sent as `dispatch_transport` says.
pub open spec fn dispatch_is(c: RuntimeConfig, d: DispatchRequest, temperature: Option<Seq<char>>, r: Result<DispatchPlan, CoreError>) -> bool {
    if request_issues(d.request).len() > 0 {
        r matches Err(e) && e@ == ErrorView {
            code: ErrorCode::RequestInvalid,
            message: "统一请求校验失败"@,
            issues: request_issues(d.request),
        }
    } else {
        match r {
            Ok(plan) => route_plan_is(c, dispatch_query(d), Ok(routed_of(plan))) && dispatch_transport(c, routed_of(plan), d.request, temperature)
                == Ok::<PlanView, ErrorView>(plan_view(plan.transport)),
            Err(e) => route_plan_is(c, dispatch_query(d), Err(e)) || exists|u: RoutedUpstream|
                route_plan_is(c, dispatch_query(d), Ok(u)) && #[trigger] dispatch_transport(c, u, d.request, temperature)
                    == Err::<PlanView, ErrorView>(e@),
        }
    }
}

/// Two queries that read the same give the same route plans.
proof fn lemma_route_plan_same_query(c: RuntimeConfig, q1: RouteQuery, q2: RouteQuery, r: Result<RoutedUpstream, CoreError>)
    requires
        q1.publisher_id@ == q2.publisher_id@,
        q1.model@ == q2.model@,
        q1.metadata@ == q2.metadata@,
        q1.health@ == q2.health@,
        q1.excluded_upstreams@ == q2.excluded_upstreams@,
        q1.previous_error == q2.previous_error,
    ensures
        route_plan_is(c, q1, r) == route_plan_is(c, q2, r),
{
    match publisher_index(c.publishers@, q1.publisher_id@) {
        None => {},
        Some(k) => {
            let p = c.publishers@[k].1;
            match route_index(p.routes@, q1.model@) {
                None => {},
                Some(i) => {
                    let route = p.routes@[i];
                    assert(candidates_of(route, q1) =~= candidates_of(route, q2));
                    assert(route_request_of(route, q1) == route_request_of(route, q2));
                },
            }
        },
    }
}

fn copy_text_pairs(v: &Vec<(String, String)>) -> (r: Vec<(String, String)>)
    ensures
        r@ == v@,
{
    let mut r: Vec<(String, String)> = Vec::new();
    let mut i: usize = 0;
    while i < v.len()
        invariant
            i <= v@.len(),
            r@ == v@.take(i as int),
        decreases v.len() - i,
    {
        r.push((v[i].0.clone(), v[i].1.clone()));
        assert(r@ =~= v@.take(i + 1));
        i = i + 1;
    }
    assert(v@.take(v@.len() as int) =~= v@);
    r
}

fn copy_health(v: &Vec<(String, HealthStatus)>) -> (r: Vec<(String, HealthStatus)>)
    ensures
        r@ == v@,
{
    let mut r: Vec<(String, HealthStatus)> = Vec::new();
    let mut i: usize = 0;
    while i < v.len()
        invariant
            i <= v@.len(),
            r@ == v@.take(i as int),
        decreases v.len() - i,
    {
        r.push((v[i].0.clone(), v[i].1));
        assert(r@ =~= v@.take(i + 1));
        i = i + 1;
    }
    assert(v@.take(v@.len() as int) =~= v@);
    r
}

fn copy_text_list(v: &Vec<String>) -> (r: Vec<String>)
    ensures
        r@ == v@,
{
    let mut r: Vec<String> = Vec::new();
    let mut i: usize = 0;
    while i < v.len()
        invariant
            i <= v@.len(),
            r@ == v@.take(i as int),
        decreases v.len() - i,
    {
        r.push(v[i].clone());
        assert(r@ =~= v@.take(i + 1));
        i = i + 1;
    }
    assert(v@.take(v@.len() as int) =~= v@);
    r
}

impl CompiledRuntime {
    /// Plans a dispatch: the request is validated, routed through the
    /// publisher's route for its model, and planned for the chosen upstream's
    /// provider instance under the upstream model, at the instance's endpoint
    /// override when it has one. `temperature` is the request's temperature
    /// written as a JSON number, when it has one.
    pub fn plan_dispatch(&self, dispatch: &DispatchRequest, temperature: Option<&str>) -> (r: Result<DispatchPlan, CoreError>)
        ensures
            dispatch_is(self.config_view(), *dispatch, opt_view(temperature), r),
    {
        match dispatch.request.validate() {
            Err(e) => {
                return Err(e);
            },
            Ok(()) => {},
        }
        let query = RouteQuery {
            publisher_id: dispatch.publisher_id.clone(),
            model: dispatch.request.model.clone(),
            metadata: copy_text_pairs(&dispatch.request.metadata),
            health: copy_health(&dispatch.health),
            excluded_upstreams: copy_text_list(&dispatch.excluded_upstreams),
            previous_error: dispatch.previous_error,
        };
        let ghost dq = dispatch_query(*dispatch);
        let routed = match self.plan_route(&query) {
            Ok(u) => {
                proof {
                    lemma_route_plan_same_query(self.config_view(), query, dq, Ok(u));
                }
                u
            },
            Err(e) => {
                proof {
                    lemma_route_plan_same_query(self.config_view(), query, dq, Err(e));
                }
                return Err(e);
            },
        };
        let provider = match self.provider_instance(routed.provider_instance.as_str()) {
            Some(p) => p,
            None => {
                let e = CoreError::new(ErrorCode::InternalRuntimeError, "上游引用的 Provider 在编译后丢失");
                assert(dispatch_transport(self.config_view(), routed, dispatch.request, opt_view(temperature)) == Err::<PlanView, ErrorView>(e@));
                return Err(e);
            },
        };
        let base: &str = match &provider.endpoint_override {
            Some(e) => e.as_str(),
            None => provider.manifest.endpoint.default_base_url.as_str(),
        };
        let transport = match transport_plan_for(
            &provider.manifest,
            base,
            &provider.secret_refs,
            &dispatch.request,
            routed.upstream_model.as_str(),
            temperature,
        ) {
            Ok(t) => t,
            Err(e) => {
                assert(dispatch_transport(self.config_view(), routed, dispatch.request, opt_view(temperature)) == Err::<PlanView, ErrorView>(e@));
                return Err(e);
            },
        };
        let plan = DispatchPlan {
            runtime_id: routed.runtime_id,
            publisher_id: routed.publisher_id,
            public_model: routed.public_model,
            upstream_model: routed.upstream_model,
            provider_instance: routed.provider_instance,
            route: routed.route,
            transport,
        };
        assert(routed_of(plan) == routed);
        Ok(plan)
    }
}

} // verus!
