//! Provider manifests: the declaration of an upstream API (endpoint,
//! authentication fields, discovery and probes) and its safety checks.
use crate::error::{finish, iv, issue_views, CoreError, ErrorCode, IssueView, ValidationIssue};
use crate::routing::{contains_string, opt_issue, strings};
use crate::text::{self, decimal, first_occurrence, is_ascii_digit, is_ascii_lower, is_blank, lower};
use crate::SCHEMA_VERSION;
use vstd::prelude::*;

verus! {

#[derive(Debug, Clone, PartialEq, Eq)]
pub struct ProviderManifest {
    pub schema_version: u32,
    pub provider: ProviderIdentity,
    pub adapter: AdapterBinding,
    pub endpoint: EndpointDefinition,
    pub authentication: AuthenticationDefinition,
    pub headers: Vec<StaticHeader>,
    pub discovery: DiscoveryDefinition,
    pub probes: Vec<ProbeDefinition>,
    pub ui: ProviderUi,
}

#[derive(Debug, Clone, PartialEq, Eq)]
pub struct ProviderIdentity {
    pub id: String,
    pub name: String,
    pub category: String,
    pub homepage: Option<String>,
    pub docs: Option<String>,
}

#[derive(Debug, Clone, PartialEq, Eq)]
pub struct AdapterBinding {
    pub id: String,
    pub min_version: u32,
}

#[derive(Debug, Clone, PartialEq, Eq)]
pub struct EndpointDefinition {
    pub default_base_url: String,
    pub editable: bool,
    pub allowed_schemes: Vec<String>,
}

#[derive(Debug, Clone, Copy, PartialEq, Eq, Structural)]
pub enum AuthenticationType {
    HeaderSecret,
    QuerySecret,
    NoAuth,
}

#[derive(Debug, Clone, PartialEq, Eq)]
pub struct AuthenticationDefinition {
    pub kind: AuthenticationType,
    pub fields: Vec<AuthenticationField>,
}

#[derive(Debug, Clone, PartialEq, Eq)]
pub struct AuthenticationField {
    pub id: String,
    pub label: String,
    pub secret: bool,
    pub required: bool,
    pub header: Option<String>,
    pub query: Option<String>,
    pub prefix: Option<String>,
}

#[derive(Debug, Clone, PartialEq, Eq)]
pub struct StaticHeader {
    pub name: String,
    pub value: String,
}

#[derive(Debug, Clone, PartialEq, Eq)]
pub struct DiscoveryDefinition {
    pub models: DiscoveryStrategy,
    pub balance: DiscoveryStrategy,
}

#[derive(Debug, Clone, PartialEq, Eq)]
pub struct DiscoveryStrategy {
    pub strategy: DiscoveryKind,
    pub path: Option<String>,
}

#[derive(Debug, Clone, Copy, PartialEq, Eq, Structural)]
pub enum DiscoveryKind {
    Endpoint,
    Adapter,
    Static,
    Unsupported,
}

#[derive(Debug, Clone, PartialEq, Eq)]
pub struct ProbeDefinition {
    pub id: String,
    pub kind: String,
    pub side_effect: ProbeSideEffect,
    pub default_enabled: bool,
}

#[derive(Debug, Clone, Copy, PartialEq, Eq, Structural)]
pub enum ProbeSideEffect {
    NoSideEffect,
    Billable,
    Mutating,
}

#[derive(Debug, Clone, PartialEq, Eq)]
pub struct ProviderUi {
    pub setup_help: Option<String>,
}

impl Default for DiscoveryStrategy {
    fn default() -> (r: Self)
        ensures
            r.strategy == DiscoveryKind::Unsupported,
            r.path is None,
    {
        DiscoveryStrategy { strategy: DiscoveryKind::Unsupported, path: None }
    }
}

impl Default for DiscoveryDefinition {
    fn default() -> (r: Self)
        ensures
            r.models.strategy == DiscoveryKind::Unsupported && r.models.path is None,
            r.balance.strategy == DiscoveryKind::Unsupported && r.balance.path is None,
    {
        DiscoveryDefinition { models: DiscoveryStrategy::default(), balance: DiscoveryStrategy::default() }
    }
}

impl Default for ProviderUi {
    fn default() -> (r: Self)
        ensures
            r.setup_help is None,
    {
        ProviderUi { setup_help: None }
    }
}

impl Default for ProbeSideEffect {
    fn default() -> (r: Self)
        ensures
            r == ProbeSideEffect::NoSideEffect,
    {
        ProbeSideEffect::NoSideEffect
    }
}

/// The schemes an endpoint allows when the manifest names none.
pub fn default_allowed_schemes() -> (r: Vec<String>)
    ensures
        strings(r@) == seq!["https"@],
{
    let mut r: Vec<String> = Vec::new();
    r.push("https".to_owned());
    assert(strings(r@) =~= seq!["https"@]);
    r
}

pub open spec fn identifier_char(c: char) -> bool {
    is_ascii_lower(c) || is_ascii_digit(c) || c == '-' || c == '_' || c == '.'
}

/// Lower-case letters, digits, `.`, `-` and `_`, and not empty.
pub open spec fn identifier_valid(v: Seq<char>) -> bool {
    v.len() > 0 && forall|i: int| 0 <= i < v.len() ==> identifier_char(#[trigger] v[i])
}

pub open spec fn identifier_issue(path: Seq<char>, v: Seq<char>) -> Seq<IssueView> {
    opt_issue(
        !identifier_valid(v),
        iv(path, "INVALID_IDENTIFIER"@, "标识符只能包含小写字母、数字、点、短横线和下划线"@),
    )
}

pub fn identifier_valid_exec(value: &str) -> (r: bool)
    ensures
        r == identifier_valid(value@),
{
    let v = text::chars_of(value);
    if v.len() == 0 {
        return false;
    }
    let mut i: usize = 0;
    while i < v.len()
        invariant
            v@ == value@,
            i <= v@.len(),
            forall|j: int| 0 <= j < i ==> identifier_char(#[trigger] value@[j]),
        decreases v.len() - i,
    {
        let c = v[i];
        if !((c >= 'a' && c <= 'z') || (c >= '0' && c <= '9') || c == '-' || c == '_' || c == '.') {
            return false;
        }
        i = i + 1;
    }
    true
}

fn validate_identifier(path: &str, value: &str, issues: &mut Vec<ValidationIssue>)
    ensures
        issue_views(final(issues)@) == issue_views(old(issues)@) + identifier_issue(path@, value@),
{
    let ghost before = issues@;
    if !identifier_valid_exec(value) {
        issues.push(ValidationIssue::new(path, "INVALID_IDENTIFIER", "标识符只能包含小写字母、数字、点、短横线和下划线"));
    }
    assert(issue_views(issues@) =~= issue_views(before) + identifier_issue(path@, value@));
}

/// `"{prefix}[{index}]{suffix}"`.
pub fn indexed_path(prefix: &str, index: usize, suffix: &str) -> (r: String)
    ensures
        r@ == prefix@ + seq!['['] + decimal(index as nat) + seq![']'] + suffix@,
{
    let mut r = String::new();
    text::push_str(&mut r, prefix);
    text::push_char(&mut r, '[');
    let d = text::decimal_string(index as u64);
    text::push_str(&mut r, d.as_str());
    text::push_char(&mut r, ']');
    text::push_str(&mut r, suffix);
    r
}

pub open spec fn indexed(prefix: Seq<char>, index: int, suffix: Seq<char>) -> Seq<char> {
    prefix + seq!['['] + decimal(index as nat) + seq![']'] + suffix
}

pub open spec fn scheme_sep() -> Seq<char> {
    seq![':', '/', '/']
}

/// The lower-cased text before the first `://`, when there is one.
pub open spec fn url_scheme(url: Seq<char>) -> Option<Seq<char>> {
    if exists|i: int| first_occurrence(url, scheme_sep(), i) {
        let i = choose|i: int| first_occurrence(url, scheme_sep(), i);
        Some(lower(url.subrange(0, i)))
    } else {
        None
    }
}

proof fn lemma_first_occurrence_unique(s: Seq<char>, p: Seq<char>, i: int, j: int)
    requires
        first_occurrence(s, p, i),
        first_occurrence(s, p, j),
    ensures
        i == j,
{
    if i < j {
        assert(!text::occurs_at(s, p, i));
    }
    if j < i {
        assert(!text::occurs_at(s, p, j));
    }
}

/// The URL scheme of `url`, lower-cased.
pub fn url_scheme_exec(url: &str) -> (r: Option<String>)
    ensures
        match r {
            Some(s) => url_scheme(url@) == Some(s@),
            None => url_scheme(url@) is None,
        },
{
    let v = text::chars_of(url);
    let mut sep: Vec<char> = Vec::new();
    sep.push(':');
    sep.push('/');
    sep.push('/');
    assert(sep@ =~= scheme_sep());
    match text::find_from(v.as_slice(), sep.as_slice(), 0) {
        Some(i) => {
            let head = text::string_from(v.as_slice(), 0, i);
            let r = text::to_lower(head.as_str());
            proof {
                assert(first_occurrence(url@, scheme_sep(), i as int));
                let k = choose|k: int| first_occurrence(url@, scheme_sep(), k);
                lemma_first_occurrence_unique(url@, scheme_sep(), i as int, k);
            }
            Some(r)
        },
        None => {
            assert(!exists|k: int| first_occurrence(url@, scheme_sep(), k));
            None
        },
    }
}

pub open spec fn scheme_issues(url: Seq<char>, allowed: Seq<Seq<char>>) -> Seq<IssueView> {
    match url_scheme(url) {
        Some(s) => opt_issue(
            !allowed.contains(s),
            iv(
                "endpoint.default_base_url"@,
                "SCHEME_NOT_ALLOWED"@,
                "URL Scheme "@ + s + " 不在允许列表中"@,
            ),
        ),
        None => seq![iv("endpoint.default_base_url"@, "INVALID_URL"@, "Base URL 必须包含明确的 URL Scheme"@)],
    }
}

pub open spec fn only_http_schemes(allowed: Seq<Seq<char>>) -> bool {
    forall|i: int| 0 <= i < allowed.len() ==> #[trigger] allowed[i] == "https"@ || allowed[i] == "http"@
}

pub struct FieldView {
    pub id: Seq<char>,
    pub secret: bool,
    pub required: bool,
    pub has_header: bool,
    pub has_query: bool,
}

pub open spec fn field_view(f: AuthenticationField) -> FieldView {
    FieldView {
        id: f.id@,
        secret: f.secret,
        required: f.required,
        has_header: f.header is Some,
        has_query: f.query is Some,
    }
}

pub open spec fn field_views(v: Seq<AuthenticationField>) -> Seq<FieldView> {
    v.map_values(|f: AuthenticationField| field_view(f))
}

/// Whether the id of field `i` already occurs among the fields before it.
pub open spec fn field_id_repeats(fs: Seq<FieldView>, i: int) -> bool {
    exists|j: int| 0 <= j < i && #[trigger] fs[j].id == fs[i].id
}

pub open spec fn one_field_issues(fs: Seq<FieldView>, kind: AuthenticationType, i: int) -> Seq<IssueView> {
    let prefix = "authentication.fields"@;
    let f = fs[i];
    identifier_issue(indexed(prefix, i, ".id"@), f.id) + opt_issue(
        field_id_repeats(fs, i),
        iv(indexed(prefix, i, ".id"@), "DUPLICATE"@, "鉴权字段 ID 必须唯一"@),
    ) + opt_issue(
        f.secret && !f.required,
        iv(indexed(prefix, i, ".required"@), "UNSAFE_OPTIONAL_SECRET"@, "首版 Secret 鉴权字段必须明确标记为必填"@),
    ) + opt_issue(
        kind == AuthenticationType::HeaderSecret && f.secret && !f.has_header,
        iv(indexed(prefix, i, ".header"@), "REQUIRED"@, "Header Secret 必须声明 Header 名称"@),
    ) + opt_issue(
        kind == AuthenticationType::QuerySecret && f.secret && !f.has_query,
        iv(indexed(prefix, i, ".query"@), "REQUIRED"@, "Query Secret 必须声明 Query 参数名称"@),
    )
}

pub open spec fn field_issues_upto(fs: Seq<FieldView>, kind: AuthenticationType, n: int) -> Seq<IssueView>
    decreases n,
{
    if n <= 0 {
        seq![]
    } else {
        field_issues_upto(fs, kind, n - 1) + one_field_issues(fs, kind, n - 1)
    }
}

pub struct ProbeView {
    pub id: Seq<char>,
    pub side_effect: ProbeSideEffect,
    pub default_enabled: bool,
}

pub open spec fn probe_views(v: Seq<ProbeDefinition>) -> Seq<ProbeView> {
    v.map_values(|p: ProbeDefinition| ProbeView { id: p.id@, side_effect: p.side_effect, default_enabled: p.default_enabled })
}

pub open spec fn one_probe_issues(ps: Seq<ProbeView>, i: int) -> Seq<IssueView> {
    opt_issue(
        exists|j: int| 0 <= j < i && #[trigger] ps[j].id == ps[i].id,
        iv(indexed("probes"@, i, ".id"@), "DUPLICATE"@, "探测 ID 必须唯一"@),
    ) + opt_issue(
        ps[i].default_enabled && ps[i].side_effect != ProbeSideEffect::NoSideEffect,
        iv(indexed("probes"@, i, ".default_enabled"@), "UNSAFE_DEFAULT"@, "有费用或副作用的探测不能默认启用"@),
    )
}

pub open spec fn probe_issues_upto(ps: Seq<ProbeView>, n: int) -> Seq<IssueView>
    decreases n,
{
    if n <= 0 {
        seq![]
    } else {
        probe_issues_upto(ps, n - 1) + one_probe_issues(ps, n - 1)
    }
}

/// Every issue that manifest validation reports, in order.
pub open spec fn manifest_issues(m: ProviderManifest) -> Seq<IssueView> {
    manifest_issues_at(m, m.endpoint.default_base_url@)
}

/// The issues of the manifest once its base URL is replaced by `base`.
pub open spec fn manifest_issues_at(m: ProviderManifest, base: Seq<char>) -> Seq<IssueView> {
    let fs = field_views(m.authentication.fields@);
    let ps = probe_views(m.probes@);
    opt_issue(
        m.schema_version != SCHEMA_VERSION,
        iv("schema_version"@, "UNSUPPORTED_SCHEMA"@, "只支持 Schema 1，收到 "@ + decimal(m.schema_version as nat)),
    ) + identifier_issue("provider.id"@, m.provider.id@) + identifier_issue("adapter.id"@, m.adapter.id@)
        + opt_issue(is_blank(m.provider.name@), iv("provider.name"@, "REQUIRED"@, "Provider 名称不能为空"@))
        + opt_issue(
        m.adapter.min_version == 0,
        iv("adapter.min_version"@, "OUT_OF_RANGE"@, "Adapter 最低版本必须大于 0"@),
    ) + scheme_issues(base, strings(m.endpoint.allowed_schemes@)) + opt_issue(
        !only_http_schemes(strings(m.endpoint.allowed_schemes@)),
        iv("endpoint.allowed_schemes"@, "UNSUPPORTED_SCHEME"@, "首版只允许 http 或 https"@),
    ) + field_issues_upto(fs, m.authentication.kind, fs.len() as int) + probe_issues_upto(ps, ps.len() as int)
}

pub open spec fn manifest_valid(m: ProviderManifest) -> bool {
    manifest_issues(m).len() == 0
}

fn field_id_seen(fields: &Vec<AuthenticationField>, i: usize) -> (r: bool)
    requires
        i < fields@.len(),
    ensures
        r == field_id_repeats(field_views(fields@), i as int),
{
    let ghost fs = field_views(fields@);
    let mut j: usize = 0;
    while j < i
        invariant
            i < fields@.len(),
            fs == field_views(fields@),
            j <= i,
            forall|k: int| 0 <= k < j ==> fs[k].id != fs[i as int].id,
        decreases i - j,
    {
        assert(fs[j as int].id == fields@[j as int].id@);
        if fields[j].id == fields[i].id {
            return true;
        }
        j = j + 1;
    }
    false
}

fn probe_id_seen(probes: &Vec<ProbeDefinition>, i: usize) -> (r: bool)
    requires
        i < probes@.len(),
    ensures
        r == exists|j: int| 0 <= j < i && #[trigger] probe_views(probes@)[j].id == probe_views(probes@)[i as int].id,
{
    let ghost ps = probe_views(probes@);
    let mut j: usize = 0;
    while j < i
        invariant
            i < probes@.len(),
            ps == probe_views(probes@),
            j <= i,
            forall|k: int| 0 <= k < j ==> ps[k].id != ps[i as int].id,
        decreases i - j,
    {
        assert(ps[j as int].id == probes@[j as int].id@);
        if probes[j].id == probes[i].id {
            return true;
        }
        j = j + 1;
    }
    false
}

fn check_field(fields: &Vec<AuthenticationField>, kind: AuthenticationType, i: usize, issues: &mut Vec<ValidationIssue>)
    requires
        i < fields@.len(),
    ensures
        issue_views(final(issues)@) == issue_views(old(issues)@) + one_field_issues(field_views(fields@), kind, i as int),
{
    let ghost fs = field_views(fields@);
    let ghost before = issue_views(issues@);
        let field = &fields[i];
        assert(fs[i as int] == field_view(*field));
        let id_path = indexed_path("authentication.fields", i, ".id");
        validate_identifier(id_path.as_str(), field.id.as_str(), issues);
        let ghost s1 = issue_views(issues@);
        let ghost pre = "authentication.fields"@;
        assert(s1 == before + identifier_issue(indexed(pre, i as int, ".id"@), fs[i as int].id));
        if field_id_seen(fields, i) {
            issues.push(ValidationIssue::at(indexed_path("authentication.fields", i, ".id"), "DUPLICATE", "鉴权字段 ID 必须唯一"));
        }
        let ghost s2 = issue_views(issues@);
        assert(s2 =~= s1 + opt_issue(
            field_id_repeats(fs, i as int),
            iv(indexed(pre, i as int, ".id"@), "DUPLICATE"@, "鉴权字段 ID 必须唯一"@),
        ));
        if field.secret && !field.required {
            issues.push(ValidationIssue::at(indexed_path("authentication.fields", i, ".required"), "UNSAFE_OPTIONAL_SECRET", "首版 Secret 鉴权字段必须明确标记为必填"));
        }
        let ghost s3 = issue_views(issues@);
        assert(s3 =~= s2 + opt_issue(
            fs[i as int].secret && !fs[i as int].required,
            iv(indexed(pre, i as int, ".required"@), "UNSAFE_OPTIONAL_SECRET"@, "首版 Secret 鉴权字段必须明确标记为必填"@),
        ));
        if kind == AuthenticationType::HeaderSecret && field.secret && field.header.is_none() {
            issues.push(ValidationIssue::at(indexed_path("authentication.fields", i, ".header"), "REQUIRED", "Header Secret 必须声明 Header 名称"));
        }
        let ghost s4 = issue_views(issues@);
        assert(s4 =~= s3 + opt_issue(
            kind == AuthenticationType::HeaderSecret && fs[i as int].secret && !fs[i as int].has_header,
            iv(indexed(pre, i as int, ".header"@), "REQUIRED"@, "Header Secret 必须声明 Header 名称"@),
        ));
        if kind == AuthenticationType::QuerySecret && field.secret && field.query.is_none() {
            issues.push(ValidationIssue::at(indexed_path("authentication.fields", i, ".query"), "REQUIRED", "Query Secret 必须声明 Query 参数名称"));
        }
        let ghost s5 = issue_views(issues@);
        assert(s5 =~= s4 + opt_issue(
            kind == AuthenticationType::QuerySecret && fs[i as int].secret && !fs[i as int].has_query,
            iv(indexed(pre, i as int, ".query"@), "REQUIRED"@, "Query Secret 必须声明 Query 参数名称"@),
        ));
    assert(issue_views(issues@) =~= before + one_field_issues(fs, kind, i as int));
}

impl ProviderManifest {
    /// Accepts what reading a provider YAML gave: a reader's message is
    /// refused as an unreadable manifest, and a manifest read must validate.
    pub fn from_parsed_yaml(parsed: Result<ProviderManifest, String>) -> (r: Result<ProviderManifest, CoreError>)
        ensures
            match parsed {
                Err(m) => r matches Err(e) && e.code == ErrorCode::ProviderInvalid && e.message@ == "Provider YAML 无法解析: "@
                    + m@ && e@.issues.len() == 0,
                Ok(m) => if manifest_valid(m) {
                    r == Ok::<ProviderManifest, CoreError>(m)
                } else {
                    r matches Err(e) && e.code == ErrorCode::ProviderInvalid && e.message@ == "Provider 配置校验失败"@
                        && e@.issues == manifest_issues(m)
                },
            },
    {
        match parsed {
            Err(m) => {
                let mut message = text::owned("Provider YAML 无法解析: ");
                text::push_str(&mut message, m.as_str());
                Err(CoreError::new(ErrorCode::ProviderInvalid, message.as_str()))
            },
            Ok(manifest) => match manifest.validate() {
                Err(e) => Err(e),
                Ok(()) => Ok(manifest),
            },
        }
    }

    /// Checks the schema, identifiers, endpoint scheme, authentication fields
    /// and probe safety, collecting every issue found.
    pub fn validate(&self) -> (r: Result<(), CoreError>)
        ensures
            r is Ok <==> manifest_valid(*self),
            r matches Err(e) ==> e.code == ErrorCode::ProviderInvalid && e.message@ == "Provider 配置校验失败"@
                && e@.issues == manifest_issues(*self),
    {
        self.validate_at(self.endpoint.default_base_url.as_str())
    }

    /// Validation of the manifest as it is used with the base URL `base`.
    #[verifier::rlimit(50)]
    pub(crate) fn validate_at(&self, base: &str) -> (r: Result<(), CoreError>)
        ensures
            r is Ok <==> manifest_issues_at(*self, base@).len() == 0,
            r matches Err(e) ==> e.code == ErrorCode::ProviderInvalid && e.message@ == "Provider 配置校验失败"@
                && e@.issues == manifest_issues_at(*self, base@),
    {
        let ghost m = *self;
        let mut issues: Vec<ValidationIssue> = Vec::new();
        if self.schema_version != SCHEMA_VERSION {
            let mut message = String::new();
            text::push_str(&mut message, "只支持 Schema 1，收到 ");
            let d = text::decimal_string(self.schema_version as u64);
            text::push_str(&mut message, d.as_str());
            issues.push(ValidationIssue::new("schema_version", "UNSUPPORTED_SCHEMA", message.as_str()));
        }
        let ghost g1 = issue_views(issues@);
        assert(g1 =~= opt_issue(
            m.schema_version != SCHEMA_VERSION,
            iv("schema_version"@, "UNSUPPORTED_SCHEMA"@, "只支持 Schema 1，收到 "@ + decimal(m.schema_version as nat)),
        ));
        validate_identifier("provider.id", self.provider.id.as_str(), &mut issues);
        validate_identifier("adapter.id", self.adapter.id.as_str(), &mut issues);
        if text::is_blank_str(self.provider.name.as_str()) {
            issues.push(ValidationIssue::new("provider.name", "REQUIRED", "Provider 名称不能为空"));
        }
        if self.adapter.min_version == 0 {
            issues.push(ValidationIssue::new("adapter.min_version", "OUT_OF_RANGE", "Adapter 最低版本必须大于 0"));
        }
        let ghost g2 = issue_views(issues@);
        assert(g2 =~= g1 + identifier_issue("provider.id"@, m.provider.id@) + identifier_issue("adapter.id"@, m.adapter.id@)
            + opt_issue(is_blank(m.provider.name@), iv("provider.name"@, "REQUIRED"@, "Provider 名称不能为空"@))
            + opt_issue(
            m.adapter.min_version == 0,
            iv("adapter.min_version"@, "OUT_OF_RANGE"@, "Adapter 最低版本必须大于 0"@),
        ));
        match url_scheme_exec(base) {
            Some(scheme) => {
                if !contains_string(&self.endpoint.allowed_schemes, &scheme) {
                    let mut message = String::new();
                    text::push_str(&mut message, "URL Scheme ");
                    text::push_str(&mut message, scheme.as_str());
                    text::push_str(&mut message, " 不在允许列表中");
                    issues.push(ValidationIssue::new("endpoint.default_base_url", "SCHEME_NOT_ALLOWED", message.as_str()));
                }
            },
            None => {
                issues.push(ValidationIssue::new("endpoint.default_base_url", "INVALID_URL", "Base URL 必须包含明确的 URL Scheme"));
            },
        }
        let ghost g3 = issue_views(issues@);
        assert(g3 =~= g2 + scheme_issues(base@, strings(m.endpoint.allowed_schemes@)));
        let mut only_http = true;
        let mut k: usize = 0;
        let ghost allowed = strings(self.endpoint.allowed_schemes@);
        while k < self.endpoint.allowed_schemes.len()
            invariant
                allowed == strings(self.endpoint.allowed_schemes@),
                k <= allowed.len(),
                only_http == forall|j: int| 0 <= j < k ==> #[trigger] allowed[j] == "https"@ || allowed[j] == "http"@,
            decreases self.endpoint.allowed_schemes.len() - k,
        {
            assert(allowed[k as int] == self.endpoint.allowed_schemes@[k as int]@);
            let s = self.endpoint.allowed_schemes[k].as_str();
            if !text::str_eq(s, "https") && !text::str_eq(s, "http") {
                only_http = false;
            }
            k = k + 1;
        }
        if !only_http {
            issues.push(ValidationIssue::new("endpoint.allowed_schemes", "UNSUPPORTED_SCHEME", "首版只允许 http 或 https"));
        }
        let ghost g4 = issue_views(issues@);
        assert(g4 =~= g3 + opt_issue(
            !only_http_schemes(strings(m.endpoint.allowed_schemes@)),
            iv("endpoint.allowed_schemes"@, "UNSUPPORTED_SCHEME"@, "首版只允许 http 或 https"@),
        ));
        let ghost fs = field_views(self.authentication.fields@);
        let kind = self.authentication.kind;
        let mut i: usize = 0;
        while i < self.authentication.fields.len()
            invariant
                fs == field_views(self.authentication.fields@),
                kind == self.authentication.kind,
                i <= fs.len(),
                issue_views(issues@) == g4 + field_issues_upto(fs, kind, i as int),
            decreases self.authentication.fields.len() - i,
        {
            let ghost before = issue_views(issues@);
            check_field(&self.authentication.fields, kind, i, &mut issues);
            assert(issue_views(issues@) =~= before + one_field_issues(fs, kind, i as int));
            i = i + 1;
        }
        let ghost g5 = issue_views(issues@);
        let ghost ps = probe_views(self.probes@);
        let mut i: usize = 0;
        while i < self.probes.len()
            invariant
                ps == probe_views(self.probes@),
                i <= ps.len(),
                issue_views(issues@) == g5 + probe_issues_upto(ps, i as int),
            decreases self.probes.len() - i,
        {
            let ghost before = issue_views(issues@);
            let probe = &self.probes[i];
            if probe_id_seen(&self.probes, i) {
                issues.push(ValidationIssue::at(indexed_path("probes", i, ".id"), "DUPLICATE", "探测 ID 必须唯一"));
            }
            if probe.default_enabled && probe.side_effect != ProbeSideEffect::NoSideEffect {
                issues.push(ValidationIssue::at(indexed_path("probes", i, ".default_enabled"), "UNSAFE_DEFAULT", "有费用或副作用的探测不能默认启用"));
            }
            assert(issue_views(issues@) =~= before + one_probe_issues(ps, i as int));
            i = i + 1;
        }
        assert(issue_views(issues@) =~= manifest_issues_at(m, base@));
        finish(issues, ErrorCode::ProviderInvalid, "Provider 配置校验失败")
    }
}

} // verus!
