//! Upstream adapters: which wire protocol a provider speaks, the HTTP headers
//! and query parameters that carry its credentials (always as references),
//! and the normalisation of upstream errors and finish reasons.
use crate::canonical::{request_issues_as, CanonicalRequest, CanonicalResponse, ContentPart, FinishReason, ImageDetail, Role, Usage};
use crate::error::{CoreError, ErrorCode, ErrorView};
use crate::json::{self, json_array_len_at, json_compact_of, json_has, json_render_at, json_str_at, json_u64_at};
use crate::provider::{manifest_issues_at, AuthenticationField, AuthenticationType, ProviderManifest, StaticHeader};
use crate::routing::StandardError;
use crate::secret::{mentions_credentials, redact_diagnostic, SecretRef};
use crate::text::{self, contains, decimal, lower};
use crate::SCHEMA_VERSION;
use crate::translate::{anthropic_body, anthropic_request, gemini_body, gemini_request, openai_body, openai_request, opt_view};
use vstd::prelude::*;

verus! {

#[derive(Debug, Clone, Copy, PartialEq, Eq, Structural)]
pub enum AdapterKind {
    OpenaiCompatible,
    AnthropicMessages,
    GoogleGemini,
}

#[derive(Debug, Clone, Copy, PartialEq, Eq, Structural)]
pub enum HttpMethod {
    Get,
    Post,
}

#[derive(Debug, PartialEq, Eq)]
pub struct HeaderPlan {
    pub name: String,
    pub value: HeaderValue,
}

#[derive(Debug, PartialEq, Eq)]
pub struct QueryPlan {
    pub name: String,
    pub value: HeaderValue,
}

/// A header or query value: either literal text or a reference to a secret
/// that the runtime resolves at send time.
#[derive(Debug, PartialEq, Eq)]
pub enum HeaderValue {
    Static { value: String },
    SecretRef { reference: SecretRef, prefix: String },
}

#[derive(Debug, Clone, Copy, PartialEq, Eq, Structural)]
pub enum StreamProtocol {
    NoStream,
    OpenaiSse,
    AnthropicSse,
    GeminiSse,
}

#[derive(Debug, Clone, PartialEq, Eq)]
pub struct NormalizedHttpError {
    pub code: StandardError,
    pub retryable: bool,
    pub failover_recommended: bool,
    pub safe_message: String,
}

pub open spec fn adapter_of(id: Seq<char>) -> Option<AdapterKind> {
    if id == "openai-compatible"@ {
        Some(AdapterKind::OpenaiCompatible)
    } else if id == "anthropic-messages"@ {
        Some(AdapterKind::AnthropicMessages)
    } else if id == "google-gemini"@ {
        Some(AdapterKind::GoogleGemini)
    } else {
        None
    }
}

impl AdapterKind {
    /// Maps the stable adapter id of a provider manifest to its adapter.
    pub fn parse(id: &str) -> (r: Result<AdapterKind, CoreError>)
        ensures
            match adapter_of(id@) {
                Some(k) => r == Ok::<AdapterKind, CoreError>(k),
                None => r matches Err(e) && e.code == ErrorCode::AdapterUnsupported && e.message@
                    == "尚未实现 Adapter: "@ + id@ && e.issues@.len() == 0,
            },
    {
        if text::str_eq(id, "openai-compatible") {
            Ok(AdapterKind::OpenaiCompatible)
        } else if text::str_eq(id, "anthropic-messages") {
            Ok(AdapterKind::AnthropicMessages)
        } else if text::str_eq(id, "google-gemini") {
            Ok(AdapterKind::GoogleGemini)
        } else {
            let mut message = String::new();
            text::push_str(&mut message, "尚未实现 Adapter: ");
            text::push_str(&mut message, id);
            Err(CoreError::new(ErrorCode::AdapterUnsupported, message.as_str()))
        }
    }
}

pub open spec fn role_text(role: Role) -> Seq<char> {
    match role {
        Role::System => "system"@,
        Role::User => "user"@,
        Role::Assistant => "assistant"@,
        Role::Tool => "tool"@,
    }
}

/// The wire name of a role.
pub fn role_name(role: Role) -> (r: &'static str)
    ensures
        r@ == role_text(role),
{
    match role {
        Role::System => "system",
        Role::User => "user",
        Role::Assistant => "assistant",
        Role::Tool => "tool",
    }
}

pub open spec fn detail_text(detail: ImageDetail) -> Seq<char> {
    match detail {
        ImageDetail::Low => "low"@,
        ImageDetail::High => "high"@,
        ImageDetail::Auto => "auto"@,
    }
}

/// The wire name of an image detail level.
pub fn image_detail(detail: ImageDetail) -> (r: &'static str)
    ensures
        r@ == detail_text(detail),
{
    match detail {
        ImageDetail::Low => "low",
        ImageDetail::High => "high",
        ImageDetail::Auto => "auto",
    }
}

/// `s` without its trailing `/` characters.
pub open spec fn trim_slashes_end(s: Seq<char>) -> Seq<char>
    decreases s.len(),
{
    if s.len() > 0 && s.last() == '/' {
        trim_slashes_end(s.drop_last())
    } else {
        s
    }
}

/// The base URL without trailing slashes, followed by the path.
pub fn join_url(base: &str, path: &str) -> (r: String)
    ensures
        r@ == trim_slashes_end(base@) + path@,
{
    let v = text::chars_of(base);
    let mut end = v.len();
    assert(base@.take(end as int) == base@);
    while end > 0 && v[end - 1] == '/'
        invariant
            v@ == base@,
            end <= v@.len(),
            trim_slashes_end(base@) == trim_slashes_end(base@.take(end as int)),
        decreases end,
    {
        assert(base@.take(end as int).drop_last() == base@.take(end - 1));
        end = end - 1;
    }
    assert(base@.take(end as int) == base@.subrange(0, end as int));
    let mut r = text::string_from(v.as_slice(), 0, end);
    text::push_str(&mut r, path);
    r
}

pub open spec fn finish_reason_of(reason: Option<Seq<char>>, adapter_words: bool) -> FinishReason {
    match reason {
        None => FinishReason::Unknown,
        Some(r) => {
            let l = lower(r);
            if l == "stop"@ || l == "end_turn"@ {
                FinishReason::Stop
            } else if l == "length"@ || l == "max_tokens"@ || (adapter_words && l == "max_tokens_reached"@) {
                FinishReason::Length
            } else if l == "tool_calls"@ || l == "tool_use"@ {
                FinishReason::ToolCall
            } else if l == "content_filter"@ || l == "safety"@ {
                FinishReason::ContentFilter
            } else if adapter_words && l == "error"@ {
                FinishReason::Error
            } else {
                FinishReason::Unknown
            }
        },
    }
}

fn finish_reason_inner(reason: Option<&str>, adapter_words: bool) -> (r: FinishReason)
    ensures
        r == finish_reason_of(
            match reason {
                Some(s) => Some(s@),
                None => None,
            },
            adapter_words,
        ),
{
    match reason {
        None => FinishReason::Unknown,
        Some(r) => {
            let l = text::to_lower(r);
            let s = l.as_str();
            if text::str_eq(s, "stop") || text::str_eq(s, "end_turn") {
                FinishReason::Stop
            } else if text::str_eq(s, "length") || text::str_eq(s, "max_tokens") || (adapter_words
                && text::str_eq(s, "max_tokens_reached")) {
                FinishReason::Length
            } else if text::str_eq(s, "tool_calls") || text::str_eq(s, "tool_use") {
                FinishReason::ToolCall
            } else if text::str_eq(s, "content_filter") || text::str_eq(s, "safety") {
                FinishReason::ContentFilter
            } else if adapter_words && text::str_eq(s, "error") {
                FinishReason::Error
            } else {
                FinishReason::Unknown
            }
        },
    }
}

/// The finish reason of a complete (non-streaming) response.
pub fn finish_reason(reason: Option<&str>) -> (r: FinishReason)
    ensures
        r == finish_reason_of(
            match reason {
                Some(s) => Some(s@),
                None => None,
            },
            true,
        ),
{
    finish_reason_inner(reason, true)
}

/// The finish reason carried by a stream frame.
pub fn map_finish_reason(reason: Option<&str>) -> (r: FinishReason)
    ensures
        r == finish_reason_of(
            match reason {
                Some(s) => Some(s@),
                None => None,
            },
            false,
        ),
{
    finish_reason_inner(reason, false)
}

pub open spec fn truncated(m: Seq<char>) -> Seq<char> {
    if m.len() <= 240 {
        m
    } else {
        m.take(240) + "…"@
    }
}

/// At most 240 characters of a message, with an ellipsis when it was longer.
pub fn truncate_message(message: &str) -> (r: String)
    ensures
        r@ == truncated(message@),
{
    let mut r = text::take_chars(message, 240);
    if message.unicode_len() > 240 {
        text::push_str(&mut r, "…");
    }
    r
}

/// An error for an upstream response that lacks what its protocol requires.
pub fn invalid_response(message: &str) -> (r: CoreError)
    ensures
        r.code == ErrorCode::ResponseInvalid,
        r.message@ == message@,
        r.issues@.len() == 0,
{
    CoreError::new(ErrorCode::ResponseInvalid, message)
}

pub enum HeaderValueView {
    Static(Seq<char>),
    Secret(Seq<char>, Seq<char>),
}

pub open spec fn header_value_view(v: HeaderValue) -> HeaderValueView {
    match v {
        HeaderValue::Static { value } => HeaderValueView::Static(value@),
        HeaderValue::SecretRef { reference, prefix } => HeaderValueView::Secret(reference@, prefix@),
    }
}

pub open spec fn header_views(v: Seq<HeaderPlan>) -> Seq<(Seq<char>, HeaderValueView)> {
    v.map_values(|h: HeaderPlan| (h.name@, header_value_view(h.value)))
}

pub open spec fn query_views(v: Seq<QueryPlan>) -> Seq<(Seq<char>, HeaderValueView)> {
    v.map_values(|h: QueryPlan| (h.name@, header_value_view(h.value)))
}

/// The reference stored under `key`: the first entry with that key.
pub open spec fn ref_lookup(refs: Seq<(String, SecretRef)>, key: Seq<char>) -> Option<Seq<char>>
    decreases refs.len(),
{
    if refs.len() == 0 {
        None
    } else if refs[0].0@ == key {
        Some(refs[0].1@)
    } else {
        ref_lookup(refs.drop_first(), key)
    }
}

fn lookup_ref<'a>(refs: &'a Vec<(String, SecretRef)>, key: &String) -> (r: Option<&'a SecretRef>)
    ensures
        match r {
            Some(x) => ref_lookup(refs@, key@) == Some(x@),
            None => ref_lookup(refs@, key@) is None,
        },
{
    let mut i: usize = 0;
    assert(refs@.skip(0) == refs@);
    while i < refs.len()
        invariant
            i <= refs@.len(),
            ref_lookup(refs@, key@) == ref_lookup(refs@.skip(i as int), key@),
        decreases refs.len() - i,
    {
        assert(refs@.skip(i as int).drop_first() == refs@.skip(i + 1));
        if refs[i].0 == *key {
            return Some(&refs[i].1);
        }
        i = i + 1;
    }
    None
}

pub open spec fn static_headers(hs: Seq<StaticHeader>) -> Seq<(Seq<char>, HeaderValueView)> {
    hs.map_values(|h: StaticHeader| (h.name@, HeaderValueView::Static(h.value@)))
}

pub open spec fn prefix_of(f: AuthenticationField) -> Seq<char> {
    match f.prefix {
        Some(p) => p@,
        None => seq![],
    }
}

pub open spec fn missing_ref_message(id: Seq<char>) -> Seq<char> {
    "缺少鉴权字段 "@ + id + " 的 Secret 引用"@
}

/// The header plans for the secret fields among `fs[..n]`, or the id of the
/// first secret field without a reference.
pub open spec fn secret_headers(fs: Seq<AuthenticationField>, refs: Seq<(String, SecretRef)>, n: int) -> Result<Seq<(Seq<char>, HeaderValueView)>, Seq<char>>
    decreases n,
{
    if n <= 0 {
        Ok(seq![])
    } else {
        match secret_headers(fs, refs, n - 1) {
            Err(id) => Err(id),
            Ok(hs) => {
                let f = fs[n - 1];
                if !f.secret {
                    Ok(hs)
                } else {
                    match ref_lookup(refs, f.id@) {
                        None => Err(f.id@),
                        Some(r) => match f.header {
                            Some(name) => Ok(hs.push((name@, HeaderValueView::Secret(r, prefix_of(f))))),
                            None => Ok(hs),
                        },
                    }
                }
            },
        }
    }
}

pub open spec fn headers_spec(p: ProviderManifest, refs: Seq<(String, SecretRef)>) -> Result<Seq<(Seq<char>, HeaderValueView)>, Seq<char>> {
    let statics = static_headers(p.headers@);
    if p.authentication.kind == AuthenticationType::NoAuth {
        Ok(statics)
    } else {
        match secret_headers(p.authentication.fields@, refs, p.authentication.fields@.len() as int) {
            Ok(hs) => Ok(statics + hs),
            Err(id) => Err(id),
        }
    }
}

fn copy_prefix(f: &AuthenticationField) -> (r: String)
    ensures
        r@ == prefix_of(*f),
{
    match &f.prefix {
        Some(p) => p.clone(),
        None => String::new(),
    }
}

/// The headers of an upstream request: the provider's static headers, then
/// one secret-reference header per secret authentication field that names a
/// header. No secret value is resolved here.
pub fn build_headers(provider: &ProviderManifest, secret_refs: &Vec<(String, SecretRef)>) -> (r: Result<Vec<HeaderPlan>, CoreError>)
    ensures
        match headers_spec(*provider, secret_refs@) {
            Ok(hs) => r matches Ok(v) && header_views(v@) == hs,
            Err(id) => r matches Err(e) && e.code == ErrorCode::SecretInvalid && e.message@
                == missing_ref_message(id) && e.issues@.len() == 0,
        },
{
    let mut headers: Vec<HeaderPlan> = Vec::new();
    let mut i: usize = 0;
    while i < provider.headers.len()
        invariant
            i <= provider.headers@.len(),
            header_views(headers@) == static_headers(provider.headers@).take(i as int),
        decreases provider.headers.len() - i,
    {
        let h = &provider.headers[i];
        let ghost before = header_views(headers@);
        headers.push(HeaderPlan { name: h.name.clone(), value: HeaderValue::Static { value: h.value.clone() } });
        assert(header_views(headers@) =~= before.push((h.name@, HeaderValueView::Static(h.value@))));
        assert(static_headers(provider.headers@).take(i + 1) =~= static_headers(provider.headers@).take(i as int).push((h.name@, HeaderValueView::Static(h.value@))));
        i = i + 1;
    }
    assert(static_headers(provider.headers@).take(provider.headers@.len() as int) == static_headers(provider.headers@));
    if provider.authentication.kind == AuthenticationType::NoAuth {
        return Ok(headers);
    }
    let ghost statics = header_views(headers@);
    let fields = &provider.authentication.fields;
    let mut k: usize = 0;
    while k < fields.len()
        invariant
            k <= fields@.len(),
            *fields == provider.authentication.fields,
            provider.authentication.kind != AuthenticationType::NoAuth,
            statics == static_headers(provider.headers@),
            secret_headers(fields@, secret_refs@, k as int) matches Ok(hs) && header_views(headers@) == statics + hs,
        decreases fields.len() - k,
    {
        let field = &fields[k];
        if field.secret {
            match lookup_ref(secret_refs, &field.id) {
                None => {
                    proof {
                        lemma_secret_headers_err(fields@, secret_refs@, k as int + 1, fields@.len() as int);
                    }
                    let mut message = String::new();
                    text::push_str(&mut message, "缺少鉴权字段 ");
                    text::push_str(&mut message, field.id.as_str());
                    text::push_str(&mut message, " 的 Secret 引用");
                    return Err(CoreError::new(ErrorCode::SecretInvalid, message.as_str()));
                },
                Some(reference) => {
                    match &field.header {
                        Some(name) => {
                            let ghost before = header_views(headers@);
                            headers.push(HeaderPlan { name: name.clone(), value: HeaderValue::SecretRef { reference: reference.duplicate(), prefix: copy_prefix(field) } });
                            assert(header_views(headers@) =~= before.push((name@, HeaderValueView::Secret(reference@, prefix_of(*field)))));
                        },
                        None => {},
                    }
                },
            }
        }
        k = k + 1;
    }
    Ok(headers)
}

proof fn lemma_secret_headers_err(fs: Seq<AuthenticationField>, refs: Seq<(String, SecretRef)>, k: int, n: int)
    requires
        1 <= k <= n <= fs.len(),
        secret_headers(fs, refs, k) is Err,
    ensures
        secret_headers(fs, refs, n) == secret_headers(fs, refs, k),
    decreases n - k,
{
    if n > k {
        lemma_secret_headers_err(fs, refs, k, n - 1);
    }
}

pub open spec fn missing_query_message(id: Seq<char>) -> Seq<char> {
    "Query Secret "@ + id + " 缺少参数名称"@
}

/// The query plans for the secret fields among `fs[..n]`, or the error of the
/// first secret field without a reference (code `false`) or a parameter
/// name (code `true`).
pub open spec fn secret_queries(fs: Seq<AuthenticationField>, refs: Seq<(String, SecretRef)>, n: int) -> Result<Seq<(Seq<char>, HeaderValueView)>, (bool, Seq<char>)>
    decreases n,
{
    if n <= 0 {
        Ok(seq![])
    } else {
        match secret_queries(fs, refs, n - 1) {
            Err(e) => Err(e),
            Ok(qs) => {
                let f = fs[n - 1];
                if !f.secret {
                    Ok(qs)
                } else {
                    match ref_lookup(refs, f.id@) {
                        None => Err((false, f.id@)),
                        Some(r) => match f.query {
                            Some(name) => Ok(qs.push((name@, HeaderValueView::Secret(r, prefix_of(f))))),
                            None => Err((true, f.id@)),
                        },
                    }
                }
            },
        }
    }
}

proof fn lemma_secret_queries_err(fs: Seq<AuthenticationField>, refs: Seq<(String, SecretRef)>, k: int, n: int)
    requires
        1 <= k <= n <= fs.len(),
        secret_queries(fs, refs, k) is Err,
    ensures
        secret_queries(fs, refs, n) == secret_queries(fs, refs, k),
    decreases n - k,
{
    if n > k {
        lemma_secret_queries_err(fs, refs, k, n - 1);
    }
}

/// The query parameters of an upstream request: for a query-secret provider,
/// one secret-reference parameter per secret field; otherwise none.
pub fn build_query(provider: &ProviderManifest, secret_refs: &Vec<(String, SecretRef)>) -> (r: Result<Vec<QueryPlan>, CoreError>)
    ensures
        provider.authentication.kind != AuthenticationType::QuerySecret ==> (r matches Ok(v) && v@.len() == 0),
        provider.authentication.kind == AuthenticationType::QuerySecret ==> match secret_queries(provider.authentication.fields@, secret_refs@, provider.authentication.fields@.len() as int) {
            Ok(qs) => r matches Ok(v) && query_views(v@) == qs,
            Err((false, id)) => r matches Err(e) && e.code == ErrorCode::SecretInvalid && e.message@
                == missing_ref_message(id) && e.issues@.len() == 0,
            Err((true, id)) => r matches Err(e) && e.code == ErrorCode::ProviderInvalid && e.message@
                == missing_query_message(id) && e.issues@.len() == 0,
        },
{
    let mut queries: Vec<QueryPlan> = Vec::new();
    if provider.authentication.kind != AuthenticationType::QuerySecret {
        return Ok(queries);
    }
    let fields = &provider.authentication.fields;
    let mut k: usize = 0;
    assert(query_views(queries@) =~= seq![]);
    while k < fields.len()
        invariant
            k <= fields@.len(),
            *fields == provider.authentication.fields,
            provider.authentication.kind == AuthenticationType::QuerySecret,
            secret_queries(fields@, secret_refs@, k as int) matches Ok(qs) && query_views(queries@) == qs,
        decreases fields.len() - k,
    {
        let field = &fields[k];
        if field.secret {
            match lookup_ref(secret_refs, &field.id) {
                None => {
                    proof {
                        lemma_secret_queries_err(fields@, secret_refs@, k as int + 1, fields@.len() as int);
                    }
                    let mut message = String::new();
                    text::push_str(&mut message, "缺少鉴权字段 ");
                    text::push_str(&mut message, field.id.as_str());
                    text::push_str(&mut message, " 的 Secret 引用");
                    return Err(CoreError::new(ErrorCode::SecretInvalid, message.as_str()));
                },
                Some(reference) => {
                    match &field.query {
                        Some(name) => {
                            let ghost before = query_views(queries@);
                            queries.push(QueryPlan { name: name.clone(), value: HeaderValue::SecretRef { reference: reference.duplicate(), prefix: copy_prefix(field) } });
                            assert(query_views(queries@) =~= before.push((name@, HeaderValueView::Secret(reference@, prefix_of(*field)))));
                        },
                        None => {
                            proof {
                                lemma_secret_queries_err(fields@, secret_refs@, k as int + 1, fields@.len() as int);
                            }
                            let mut message = String::new();
                            text::push_str(&mut message, "Query Secret ");
                            text::push_str(&mut message, field.id.as_str());
                            text::push_str(&mut message, " 缺少参数名称");
                            return Err(CoreError::new(ErrorCode::ProviderInvalid, message.as_str()));
                        },
                    }
                },
            }
        }
        k = k + 1;
    }
    Ok(queries)
}

/// The first error message found in an upstream error body.
pub open spec fn error_message_of(body: Seq<char>) -> Seq<char> {
    if json::json_str_at(body, "/error/message"@) is Some {
        json::json_str_at(body, "/error/message"@).unwrap()
    } else if json::json_str_at(body, "/error/status"@) is Some {
        json::json_str_at(body, "/error/status"@).unwrap()
    } else if json::json_str_at(body, "/message"@) is Some {
        json::json_str_at(body, "/message"@).unwrap()
    } else if json::json_str_at(body, "/detail"@) is Some {
        json::json_str_at(body, "/detail"@).unwrap()
    } else {
        "上游返回未识别错误"@
    }
}

fn find_error_message(body: &str) -> (r: String)
    ensures
        r@ == error_message_of(body@),
{
    match json::json_str(body, "/error/message") {
        Some(m) => { return m; },
        None => {},
    }
    match json::json_str(body, "/error/status") {
        Some(m) => { return m; },
        None => {},
    }
    match json::json_str(body, "/message") {
        Some(m) => { return m; },
        None => {},
    }
    match json::json_str(body, "/detail") {
        Some(m) => { return m; },
        None => {},
    }
    "上游返回未识别错误".to_owned()
}

/// The standard error for an upstream HTTP status and error message.
pub open spec fn status_error(status: u16, message: Seq<char>) -> StandardError {
    let l = lower(message);
    if status == 401 || status == 403 {
        StandardError::AuthFailed
    } else if status == 402 {
        StandardError::BalanceExhausted
    } else if status == 408 || status == 504 {
        StandardError::ProviderTimeout
    } else if status == 429 && (contains(l, "balance"@) || contains(l, "quota"@)) {
        StandardError::BalanceExhausted
    } else if status == 429 {
        StandardError::RateLimited
    } else if status == 404 && contains(l, "model"@) {
        StandardError::ModelUnavailable
    } else if status == 400 || status == 404 || status == 405 || status == 409 || status == 413
        || status == 422 {
        StandardError::InvalidRequest
    } else {
        StandardError::InvalidResponse
    }
}

pub open spec fn retryable(e: StandardError) -> bool {
    e == StandardError::RateLimited || e == StandardError::ProviderTimeout || e
        == StandardError::NetworkUnreachable || e == StandardError::InvalidResponse
}

pub open spec fn failover_recommended(e: StandardError) -> bool {
    e == StandardError::RateLimited || e == StandardError::BalanceExhausted || e
        == StandardError::ModelUnavailable || e == StandardError::ProviderTimeout || e
        == StandardError::InvalidResponse
}

/// Normalises an upstream HTTP error: its standard error, whether a retry
/// or a failover makes sense, and a truncated, redacted message. `body` is
/// the JSON text of the response body.
pub fn classify_http_error(status: u16, body: &str) -> (r: NormalizedHttpError)
    ensures
        r.code == status_error(status, error_message_of(body@)),
        r.retryable == retryable(r.code),
        r.failover_recommended == failover_recommended(r.code),
        r.safe_message@ == (if mentions_credentials(truncated(error_message_of(body@))) {
            "[REDACTED]"@
        } else {
            truncated(error_message_of(body@))
        }),
{
    let message = find_error_message(body);
    let l = text::to_lower(message.as_str());
    let ls = l.as_str();
    let code = if status == 401 || status == 403 {
        StandardError::AuthFailed
    } else if status == 402 {
        StandardError::BalanceExhausted
    } else if status == 408 || status == 504 {
        StandardError::ProviderTimeout
    } else if status == 429 && (text::contains_exec(ls, "balance") || text::contains_exec(ls, "quota")) {
        StandardError::BalanceExhausted
    } else if status == 429 {
        StandardError::RateLimited
    } else if status == 404 && text::contains_exec(ls, "model") {
        StandardError::ModelUnavailable
    } else if status == 400 || status == 404 || status == 405 || status == 409 || status == 413
        || status == 422 {
        StandardError::InvalidRequest
    } else {
        StandardError::InvalidResponse
    };
    let retry = code == StandardError::RateLimited || code == StandardError::ProviderTimeout
        || code == StandardError::NetworkUnreachable || code == StandardError::InvalidResponse;
    let failover = code == StandardError::RateLimited || code == StandardError::BalanceExhausted
        || code == StandardError::ModelUnavailable || code == StandardError::ProviderTimeout
        || code == StandardError::InvalidResponse;
    let shortened = truncate_message(message.as_str());
    let safe_message = redact_diagnostic(shortened.as_str());
    NormalizedHttpError { code, retryable: retry, failover_recommended: failover, safe_message }
}

/// The HTTP request to send upstream; credentials appear only as references.
#[derive(Debug, PartialEq, Eq)]
pub struct TransportPlan {
    pub adapter: AdapterKind,
    pub method: HttpMethod,
    pub url: String,
    pub headers: Vec<HeaderPlan>,
    pub query: Vec<QueryPlan>,
    /// The request body, as JSON text.
    pub body: String,
    pub stream_protocol: StreamProtocol,
}

pub struct PlanView {
    pub adapter: AdapterKind,
    pub method: HttpMethod,
    pub url: Seq<char>,
    pub headers: Seq<(Seq<char>, HeaderValueView)>,
    pub query: Seq<(Seq<char>, HeaderValueView)>,
    pub body: Seq<char>,
    pub stream_protocol: StreamProtocol,
}

pub open spec fn plan_view(p: TransportPlan) -> PlanView {
    PlanView {
        adapter: p.adapter,
        method: p.method,
        url: p.url@,
        headers: header_views(p.headers@),
        query: query_views(p.query@),
        body: p.body@,
        stream_protocol: p.stream_protocol,
    }
}

/// An error with a message and no issues.
pub open spec fn plain_error(code: ErrorCode, message: Seq<char>) -> ErrorView {
    ErrorView { code, message, issues: seq![] }
}

/// The query parameters of a provider, or the error that stops them.
pub open spec fn query_spec(p: ProviderManifest, refs: Seq<(String, SecretRef)>) -> Result<Seq<(Seq<char>, HeaderValueView)>, ErrorView> {
    if p.authentication.kind != AuthenticationType::QuerySecret {
        Ok(seq![])
    } else {
        match secret_queries(p.authentication.fields@, refs, p.authentication.fields@.len() as int) {
            Ok(qs) => Ok(qs),
            Err((false, id)) => Err(plain_error(ErrorCode::SecretInvalid, missing_ref_message(id))),
            Err((true, id)) => Err(plain_error(ErrorCode::ProviderInvalid, missing_query_message(id))),
        }
    }
}

/// The path of the upstream endpoint, after the base URL.
pub open spec fn plan_path(k: AdapterKind, model: Seq<char>, stream: bool) -> Seq<char> {
    match k {
        AdapterKind::OpenaiCompatible => "/chat/completions"@,
        AdapterKind::AnthropicMessages => "/v1/messages"@,
        AdapterKind::GoogleGemini => "/v1beta/models/"@ + model + ":"@ + if stream {
            "streamGenerateContent?alt=sse"@
        } else {
            "generateContent"@
        },
    }
}

pub open spec fn plan_protocol(k: AdapterKind, stream: bool) -> StreamProtocol {
    if !stream {
        StreamProtocol::NoStream
    } else {
        match k {
            AdapterKind::OpenaiCompatible => StreamProtocol::OpenaiSse,
            AdapterKind::AnthropicMessages => StreamProtocol::AnthropicSse,
            AdapterKind::GoogleGemini => StreamProtocol::GeminiSse,
        }
    }
}

/// The body in the adapter's wire format; `None` when the request has no
/// form there.
pub open spec fn plan_body(k: AdapterKind, r: CanonicalRequest, model: Seq<char>, temperature: Option<Seq<char>>) -> Option<Seq<char>> {
    match k {
        AdapterKind::OpenaiCompatible => openai_body(r, model, temperature),
        AdapterKind::AnthropicMessages => Some(anthropic_body(r, model, temperature)),
        AdapterKind::GoogleGemini => Some(gemini_body(r, temperature)),
    }
}

/// The plan for sending `r` under `model` to provider `p` at base URL
/// `base`, or the first error met: the manifest, the request, the adapter,
/// the secret references of headers and query, then the body.
pub open spec fn transport_spec(
    p: ProviderManifest,
    base: Seq<char>,
    refs: Seq<(String, SecretRef)>,
    r: CanonicalRequest,
    model: Seq<char>,
    temperature: Option<Seq<char>>,
) -> Result<PlanView, ErrorView> {
    if manifest_issues_at(p, base).len() > 0 {
        Err(ErrorView { code: ErrorCode::ProviderInvalid, message: "Provider 配置校验失败"@, issues: manifest_issues_at(p, base) })
    } else if request_issues_as(r, model).len() > 0 {
        Err(ErrorView { code: ErrorCode::RequestInvalid, message: "统一请求校验失败"@, issues: request_issues_as(r, model) })
    } else {
        match adapter_of(p.adapter.id@) {
            None => Err(plain_error(ErrorCode::AdapterUnsupported, "尚未实现 Adapter: "@ + p.adapter.id@)),
            Some(k) => match headers_spec(p, refs) {
                Err(id) => Err(plain_error(ErrorCode::SecretInvalid, missing_ref_message(id))),
                Ok(hs) => match query_spec(p, refs) {
                    Err(e) => Err(e),
                    Ok(qs) => match plan_body(k, r, model, temperature) {
                        None => Err(plain_error(ErrorCode::RequestInvalid, "OpenAI ToolResult 必须使用 Tool 角色消息"@)),
                        Some(body) => Ok(
                            PlanView {
                                adapter: k,
                                method: HttpMethod::Post,
                                url: trim_slashes_end(base) + plan_path(k, model, r.stream),
                                headers: hs.push(("content-type"@, HeaderValueView::Static("application/json"@))),
                                query: qs,
                                body,
                                stream_protocol: plan_protocol(k, r.stream),
                            },
                        ),
                    },
                },
            },
        }
    }
}

/// The plan for sending `request` under `model` to `provider` at `base`;
/// `temperature` is the request's temperature written as a JSON number.
pub(crate) fn transport_plan_for(
    provider: &ProviderManifest,
    base: &str,
    secret_refs: &Vec<(String, SecretRef)>,
    request: &CanonicalRequest,
    model: &str,
    temperature: Option<&str>,
) -> (r: Result<TransportPlan, CoreError>)
    ensures
        match transport_spec(*provider, base@, secret_refs@, *request, model@, opt_view(temperature)) {
            Ok(v) => r matches Ok(plan) && plan_view(plan) == v,
            Err(ev) => r matches Err(e) && e@ == ev,
        },
{
    match provider.validate_at(base) {
        Err(e) => {
            assert(e@.message == "Provider 配置校验失败"@);
            assert(e@.issues == manifest_issues_at(*provider, base@));
            assert(e@ == ErrorView { code: ErrorCode::ProviderInvalid, message: "Provider 配置校验失败"@, issues: manifest_issues_at(*provider, base@) });
            return Err(e);
        },
        Ok(()) => {},
    }
    match request.validate_as(model) {
        Err(e) => {
            assert(e@ == ErrorView { code: ErrorCode::RequestInvalid, message: "统一请求校验失败"@, issues: request_issues_as(*request, model@) });
            return Err(e);
        },
        Ok(()) => {},
    }
    let adapter = match AdapterKind::parse(provider.adapter.id.as_str()) {
        Err(e) => {
            assert(e@.issues =~= seq![]);
            return Err(e);
        },
        Ok(k) => k,
    };
    let mut headers = match build_headers(provider, secret_refs) {
        Err(e) => {
            assert(e@.issues =~= seq![]);
            return Err(e);
        },
        Ok(h) => h,
    };
    let query = match build_query(provider, secret_refs) {
        Err(e) => {
            assert(e@.issues =~= seq![]);
            return Err(e);
        },
        Ok(q) => q,
    };
    assert(query_spec(*provider, secret_refs@) == Ok::<Seq<(Seq<char>, HeaderValueView)>, ErrorView>(query_views(query@))) by {
        if provider.authentication.kind != AuthenticationType::QuerySecret {
            assert(query_views(query@) =~= seq![]);
        }
    }
    let ghost hs = header_views(headers@);
    headers.push(
        HeaderPlan { name: text::owned("content-type"), value: HeaderValue::Static { value: text::owned("application/json") } },
    );
    assert(header_views(headers@) =~= hs.push(("content-type"@, HeaderValueView::Static("application/json"@))));
    let (path, body) = match adapter {
        AdapterKind::OpenaiCompatible => match openai_request(request, model, temperature) {
            Some(b) => (text::owned("/chat/completions"), b),
            None => {
                return Err(CoreError::new(ErrorCode::RequestInvalid, "OpenAI ToolResult 必须使用 Tool 角色消息"));
            },
        },
        AdapterKind::AnthropicMessages => (text::owned("/v1/messages"), anthropic_request(request, model, temperature)),
        AdapterKind::GoogleGemini => {
            let mut path = text::owned("/v1beta/models/");
            text::push_str(&mut path, model);
            text::push_str(&mut path, ":");
            if request.stream {
                text::push_str(&mut path, "streamGenerateContent?alt=sse");
            } else {
                text::push_str(&mut path, "generateContent");
            }
            (path, gemini_request(request, temperature))
        },
    };
    let stream_protocol = if !request.stream {
        StreamProtocol::NoStream
    } else {
        match adapter {
            AdapterKind::OpenaiCompatible => StreamProtocol::OpenaiSse,
            AdapterKind::AnthropicMessages => StreamProtocol::AnthropicSse,
            AdapterKind::GoogleGemini => StreamProtocol::GeminiSse,
        }
    };
    let url = join_url(base, path.as_str());
    let plan = TransportPlan { adapter, method: HttpMethod::Post, url, headers, query, body, stream_protocol };
    proof {
        let k = adapter;
        assert(path@ == plan_path(k, model@, request.stream));
        assert(plan_body(k, *request, model@, opt_view(temperature)) == Some(body@));
    }
    Ok(plan)
}

/// Builds the HTTP plan for a request to a provider: the provider and the
/// request are validated, the adapter chosen by its id, credentials carried
/// as references, and the body written in the adapter's format.
/// `temperature` is the request's temperature written as a JSON number.
pub fn build_transport_plan(
    provider: &ProviderManifest,
    secret_refs: &Vec<(String, SecretRef)>,
    request: &CanonicalRequest,
    temperature: Option<&str>,
) -> (r: Result<TransportPlan, CoreError>)
    ensures
        match transport_spec(
            *provider,
            provider.endpoint.default_base_url@,
            secret_refs@,
            *request,
            request.model@,
            opt_view(temperature),
        ) {
            Ok(v) => r matches Ok(plan) && plan_view(plan) == v,
            Err(ev) => r matches Err(e) && e@ == ev,
        },
{
    transport_plan_for(
        provider,
        provider.endpoint.default_base_url.as_str(),
        secret_refs,
        request,
        request.model.as_str(),
        temperature,
    )
}

/// A header or query value that, when it is a secret, is one of the given
/// references.
pub open spec fn only_given_refs(vs: Seq<(Seq<char>, HeaderValueView)>, refs: Seq<(String, SecretRef)>) -> bool {
    forall|i: int|
        0 <= i < vs.len() ==> match #[trigger] vs[i].1 {
            HeaderValueView::Secret(r, _) => exists|k: int| 0 <= k < refs.len() && refs[k].1@ == r,
            HeaderValueView::Static(_) => true,
        }
}

proof fn lemma_ref_lookup_given(refs: Seq<(String, SecretRef)>, key: Seq<char>)
    requires
        ref_lookup(refs, key) is Some,
    ensures
        exists|k: int| 0 <= k < refs.len() && refs[k].1@ == ref_lookup(refs, key)->Some_0,
    decreases refs.len(),
{
    if refs[0].0@ == key {
        assert(refs[0].1@ == ref_lookup(refs, key)->Some_0);
    } else {
        lemma_ref_lookup_given(refs.drop_first(), key);
        let k = choose|k: int| 0 <= k < refs.drop_first().len() && refs.drop_first()[k].1@ == ref_lookup(refs, key)->Some_0;
        assert(refs[k + 1].1@ == ref_lookup(refs, key)->Some_0);
    }
}

proof fn lemma_secret_headers_given(fs: Seq<AuthenticationField>, refs: Seq<(String, SecretRef)>, n: int)
    requires
        secret_headers(fs, refs, n) is Ok,
    ensures
        only_given_refs(secret_headers(fs, refs, n)->Ok_0, refs),
        forall|i: int| 0 <= i < secret_headers(fs, refs, n)->Ok_0.len() ==> (#[trigger] secret_headers(fs, refs, n)->Ok_0[i]).1 is Secret,
    decreases n,
{
    if n > 0 {
        lemma_secret_headers_given(fs, refs, n - 1);
        let f = fs[n - 1];
        if f.secret {
            lemma_ref_lookup_given(refs, f.id@);
        }
    }
}

proof fn lemma_secret_queries_given(fs: Seq<AuthenticationField>, refs: Seq<(String, SecretRef)>, n: int)
    requires
        secret_queries(fs, refs, n) is Ok,
    ensures
        only_given_refs(secret_queries(fs, refs, n)->Ok_0, refs),
    decreases n,
{
    if n > 0 {
        lemma_secret_queries_given(fs, refs, n - 1);
        let f = fs[n - 1];
        if f.secret {
            lemma_ref_lookup_given(refs, f.id@);
        }
    }
}

/// A transport plan carries credentials only as references, and only as the
/// references it was given: every secret header or query value of a plan
/// is one of the caller's references, and the other headers are the
/// manifest's static headers and the content type.
pub proof fn law_plan_credentials_are_given_references(
    p: ProviderManifest,
    base: Seq<char>,
    refs: Seq<(String, SecretRef)>,
    r: CanonicalRequest,
    model: Seq<char>,
    temperature: Option<Seq<char>>,
)
    requires
        transport_spec(p, base, refs, r, model, temperature) is Ok,
    ensures
        ({
            let v = transport_spec(p, base, refs, r, model, temperature)->Ok_0;
            &&& only_given_refs(v.headers, refs)
            &&& only_given_refs(v.query, refs)
            &&& forall|i: int|
                0 <= i < v.headers.len() ==> (#[trigger] v.headers[i]).1 is Static ==> (v.headers[i] == (
                    "content-type"@,
                    HeaderValueView::Static("application/json"@),
                ) || exists|j: int| 0 <= j < p.headers@.len() && v.headers[i] == (p.headers@[j].name@, HeaderValueView::Static(p.headers@[j].value@)))
        }),
{
    let v = transport_spec(p, base, refs, r, model, temperature)->Ok_0;
    let statics = static_headers(p.headers@);
    let hs = headers_spec(p, refs)->Ok_0;
    if p.authentication.kind != AuthenticationType::NoAuth {
        lemma_secret_headers_given(p.authentication.fields@, refs, p.authentication.fields@.len() as int);
    }
    if p.authentication.kind == AuthenticationType::QuerySecret {
        lemma_secret_queries_given(p.authentication.fields@, refs, p.authentication.fields@.len() as int);
    }
    let extra = if p.authentication.kind == AuthenticationType::NoAuth {
        seq![]
    } else {
        secret_headers(p.authentication.fields@, refs, p.authentication.fields@.len() as int)->Ok_0
    };
    assert(hs == statics + extra);
    assert(v.headers == hs.push(("content-type"@, HeaderValueView::Static("application/json"@))));
    assert forall|i: int| 0 <= i < v.headers.len() implies match #[trigger] v.headers[i].1 {
        HeaderValueView::Secret(x, _) => exists|k: int| 0 <= k < refs.len() && refs[k].1@ == x,
        HeaderValueView::Static(_) => true,
    } by {
        if statics.len() <= i < hs.len() {
            assert(v.headers[i] == extra[i - statics.len()]);
        }
    }
    assert forall|i: int| 0 <= i < v.headers.len() implies (#[trigger] v.headers[i]).1 is Static ==> (v.headers[i] == (
        "content-type"@,
        HeaderValueView::Static("application/json"@),
    ) || exists|j: int| 0 <= j < p.headers@.len() && v.headers[i] == (p.headers@[j].name@, HeaderValueView::Static(p.headers@[j].value@))) by {
        if i < statics.len() {
            assert(v.headers[i] == statics[i]);
            assert(statics[i] == (p.headers@[i].name@, HeaderValueView::Static(p.headers@[i].value@)));
        } else if i < hs.len() {
            assert(v.headers[i] == extra[i - statics.len()]);
        } else {
            assert(v.headers[i] == ("content-type"@, HeaderValueView::Static("application/json"@)));
        }
    }
    if p.authentication.kind != AuthenticationType::QuerySecret {
        assert(v.query.len() == 0);
    }
}

// ---- Upstream responses ----
/// A content part as plain values.
pub enum PartView {
    Text(Seq<char>),
    Image(Seq<char>, ImageDetail),
    Call(Seq<char>, Seq<char>, Seq<char>),
    Result(Seq<char>, Seq<char>, bool),
}

pub open spec fn part_view(p: ContentPart) -> PartView {
    match p {
        ContentPart::Text { text } => PartView::Text(text@),
        ContentPart::ImageUrl { url, detail } => PartView::Image(url@, detail),
        ContentPart::ToolCall { id, name, arguments } => PartView::Call(id@, name@, arguments@),
        ContentPart::ToolResult { tool_call_id, content, is_error } => PartView::Result(tool_call_id@, content@, is_error),
    }
}

pub open spec fn part_views(ps: Seq<ContentPart>) -> Seq<PartView> {
    ps.map_values(|p: ContentPart| part_view(p))
}

/// A normalised response as plain values.
pub struct ResponseView {
    pub provider_response_id: Option<Seq<char>>,
    pub model: Option<Seq<char>>,
    pub content: Seq<PartView>,
    pub finish_reason: FinishReason,
    pub usage: Usage,
}

pub open spec fn response_view(r: CanonicalResponse) -> ResponseView {
    ResponseView {
        provider_response_id: match r.provider_response_id {
            Some(s) => Some(s@),
            None => None,
        },
        model: match r.model {
            Some(s) => Some(s@),
            None => None,
        },
        content: part_views(r.content@),
        finish_reason: r.finish_reason,
        usage: r.usage,
    }
}

/// The string at `full`, or the error naming the field by `rel`.
pub open spec fn field_text(t: Seq<char>, full: Seq<char>, rel: Seq<char>) -> Result<Seq<char>, ErrorView> {
    match json_str_at(t, full) {
        Some(s) => Ok(s),
        None => Err(plain_error(ErrorCode::ResponseInvalid, "响应缺少字符串字段 "@ + rel)),
    }
}

/// The unsigned number at a pointer, 0 when there is none.
pub open spec fn count_at(t: Seq<char>, p: Seq<char>) -> u64 {
    match json_u64_at(t, p) {
        Some(n) => n,
        None => 0,
    }
}

/// The compact rendering of the value at a pointer, `{}` when there is none.
pub open spec fn rendered_or_empty(t: Seq<char>, p: Seq<char>) -> Seq<char> {
    match json_render_at(t, p) {
        Some(s) => s,
        None => "{}"@,
    }
}

/// The parts read from the first `n` items, each read by `step`, or the
/// first error met.
pub open spec fn collect_parts(n: int, step: spec_fn(int) -> Result<Seq<PartView>, ErrorView>) -> Result<Seq<PartView>, ErrorView>
    decreases n,
{
    if n <= 0 {
        Ok(seq![])
    } else {
        match collect_parts(n - 1, step) {
            Err(e) => Err(e),
            Ok(ps) => match step(n - 1) {
                Err(e) => Err(e),
                Ok(more) => Ok(ps + more),
            },
        }
    }
}

proof fn lemma_collect_err(k: int, n: int, step: spec_fn(int) -> Result<Seq<PartView>, ErrorView>)
    requires
        k <= n,
        collect_parts(k, step) is Err,
    ensures
        collect_parts(n, step) == collect_parts(k, step),
    decreases n - k,
{
    if n > k {
        lemma_collect_err(k, n - 1, step);
    }
}

pub open spec fn openai_call_path(i: int) -> Seq<char> {
    "/choices/0/message/tool_calls/"@ + decimal(i as nat)
}

/// The tool call at index `i` of the OpenAI message: its arguments string
/// parsed and written compactly (`{}` when absent), its id and its name.
pub open spec fn openai_call_at(t: Seq<char>, i: int) -> Result<Seq<PartView>, ErrorView> {
    let base = openai_call_path(i);
    let args: Result<Seq<char>, ErrorView> = match json_str_at(t, base + "/function/arguments"@) {
        None => Ok("{}"@),
        Some(a) => match json_compact_of(a) {
            Ok(c) => Ok(c),
            Err(m) => Err(plain_error(ErrorCode::SerializationFailed, "JSON 序列化失败: "@ + m)),
        },
    };
    match args {
        Err(e) => Err(e),
        Ok(a) => match field_text(t, base + "/id"@, "/id"@) {
            Err(e) => Err(e),
            Ok(id) => match field_text(t, base + "/function/name"@, "/function/name"@) {
                Err(e) => Err(e),
                Ok(name) => Ok(seq![PartView::Call(id, name, a)]),
            },
        },
    }
}

pub open spec fn openai_call_step(t: Seq<char>) -> spec_fn(int) -> Result<Seq<PartView>, ErrorView> {
    |i: int| openai_call_at(t, i)
}

pub open spec fn anthropic_block_path(i: int) -> Seq<char> {
    "/content/"@ + decimal(i as nat)
}

/// The content block at index `i`: text, a tool use, or nothing.
pub open spec fn anthropic_block_at(t: Seq<char>, i: int) -> Result<Seq<PartView>, ErrorView> {
    let base = anthropic_block_path(i);
    let kind = json_str_at(t, base + "/type"@);
    if kind == Some("text"@) {
        match field_text(t, base + "/text"@, "/text"@) {
            Err(e) => Err(e),
            Ok(s) => Ok(seq![PartView::Text(s)]),
        }
    } else if kind == Some("tool_use"@) {
        match field_text(t, base + "/id"@, "/id"@) {
            Err(e) => Err(e),
            Ok(id) => match field_text(t, base + "/name"@, "/name"@) {
                Err(e) => Err(e),
                Ok(name) => Ok(seq![PartView::Call(id, name, rendered_or_empty(t, base + "/input"@))]),
            },
        }
    } else {
        Ok(seq![])
    }
}

pub open spec fn anthropic_block_step(t: Seq<char>) -> spec_fn(int) -> Result<Seq<PartView>, ErrorView> {
    |i: int| anthropic_block_at(t, i)
}

pub open spec fn gemini_part_path(i: int) -> Seq<char> {
    "/candidates/0/content/parts/"@ + decimal(i as nat)
}

/// The part at index `i`: its text, then its function call, each when
/// present; a call is named `gemini-call-{i}`.
pub open spec fn gemini_part_at(t: Seq<char>, i: int) -> Result<Seq<PartView>, ErrorView> {
    let base = gemini_part_path(i);
    let text_part = match json_str_at(t, base + "/text"@) {
        Some(s) => seq![PartView::Text(s)],
        None => seq![],
    };
    if json_has(t, base + "/functionCall"@) {
        match field_text(t, base + "/functionCall/name"@, "/name"@) {
            Err(e) => Err(e),
            Ok(name) => Ok(
                text_part.push(PartView::Call("gemini-call-"@ + decimal(i as nat), name, rendered_or_empty(t, base + "/functionCall/args"@))),
            ),
        }
    } else {
        Ok(text_part)
    }
}

pub open spec fn gemini_part_step(t: Seq<char>) -> spec_fn(int) -> Result<Seq<PartView>, ErrorView> {
    |i: int| gemini_part_at(t, i)
}

/// What normalising an upstream response of the given adapter gives.
pub open spec fn response_spec(k: AdapterKind, t: Seq<char>) -> Result<ResponseView, ErrorView> {
    match k {
        AdapterKind::OpenaiCompatible => if !json_has(t, "/choices/0/message"@) {
            Err(plain_error(ErrorCode::ResponseInvalid, "OpenAI 响应缺少 choices[0].message"@))
        } else {
            let text_part = match json_str_at(t, "/choices/0/message/content"@) {
                Some(s) => seq![PartView::Text(s)],
                None => seq![],
            };
            let calls = match json_array_len_at(t, "/choices/0/message/tool_calls"@) {
                Some(n) => collect_parts(n as int, openai_call_step(t)),
                None => Ok(seq![]),
            };
            match calls {
                Err(e) => Err(e),
                Ok(cs) => Ok(
                    ResponseView {
                        provider_response_id: json_str_at(t, "/id"@),
                        model: json_str_at(t, "/model"@),
                        content: text_part + cs,
                        finish_reason: finish_reason_of(json_str_at(t, "/choices/0/finish_reason"@), true),
                        usage: Usage {
                            input_tokens: count_at(t, "/usage/prompt_tokens"@),
                            output_tokens: count_at(t, "/usage/completion_tokens"@),
                            cached_input_tokens: json_u64_at(t, "/usage/prompt_tokens_details/cached_tokens"@),
                        },
                    },
                ),
            }
        },
        AdapterKind::AnthropicMessages => match json_array_len_at(t, "/content"@) {
            None => Err(plain_error(ErrorCode::ResponseInvalid, "Anthropic 响应缺少 content"@)),
            Some(n) => match collect_parts(n as int, anthropic_block_step(t)) {
                Err(e) => Err(e),
                Ok(cs) => Ok(
                    ResponseView {
                        provider_response_id: json_str_at(t, "/id"@),
                        model: json_str_at(t, "/model"@),
                        content: cs,
                        finish_reason: finish_reason_of(json_str_at(t, "/stop_reason"@), true),
                        usage: Usage {
                            input_tokens: count_at(t, "/usage/input_tokens"@),
                            output_tokens: count_at(t, "/usage/output_tokens"@),
                            cached_input_tokens: json_u64_at(t, "/usage/cache_read_input_tokens"@),
                        },
                    },
                ),
            },
        },
        AdapterKind::GoogleGemini => match json_array_len_at(t, "/candidates/0/content/parts"@) {
            None => Err(plain_error(ErrorCode::ResponseInvalid, "Gemini 响应缺少 candidates[0].content.parts"@)),
            Some(n) => match collect_parts(n as int, gemini_part_step(t)) {
                Err(e) => Err(e),
                Ok(cs) => Ok(
                    ResponseView {
                        provider_response_id: json_str_at(t, "/responseId"@),
                        model: json_str_at(t, "/modelVersion"@),
                        content: cs,
                        finish_reason: finish_reason_of(json_str_at(t, "/candidates/0/finishReason"@), true),
                        usage: Usage {
                            input_tokens: count_at(t, "/usageMetadata/promptTokenCount"@),
                            output_tokens: count_at(t, "/usageMetadata/candidatesTokenCount"@),
                            cached_input_tokens: json_u64_at(t, "/usageMetadata/cachedContentTokenCount"@),
                        },
                    },
                ),
            },
        },
    }
}

fn field_string(t: &str, full: &str, rel: &str) -> (r: Result<String, CoreError>)
    ensures
        match field_text(t@, full@, rel@) {
            Ok(s) => r matches Ok(x) && x@ == s,
            Err(ev) => r matches Err(e) && e@ == ev,
        },
{
    match json::json_str(t, full) {
        Some(s) => Ok(s),
        None => {
            let mut message = text::owned("响应缺少字符串字段 ");
            text::push_str(&mut message, rel);
            let e = CoreError::new(ErrorCode::ResponseInvalid, message.as_str());
            assert(e@.issues =~= seq![]);
            Err(e)
        },
    }
}

fn count_exec(t: &str, p: &str) -> (r: u64)
    ensures
        r == count_at(t@, p@),
{
    match json::json_u64(t, p) {
        Some(n) => n,
        None => 0,
    }
}

fn rendered_exec(t: &str, p: &str) -> (r: String)
    ensures
        r@ == rendered_or_empty(t@, p@),
{
    match json::json_render(t, p) {
        Some(s) => s,
        None => text::owned("{}"),
    }
}

fn indexed_pointer(prefix: &str, i: usize, suffix: &str) -> (r: String)
    ensures
        r@ == prefix@ + decimal(i as nat) + suffix@,
{
    let mut r = text::owned(prefix);
    let d = text::decimal_string(i as u64);
    text::push_str(&mut r, d.as_str());
    text::push_str(&mut r, suffix);
    r
}

fn push_part(content: &mut Vec<ContentPart>, p: ContentPart)
    ensures
        part_views(final(content)@) == part_views(old(content)@).push(part_view(p)),
{
    content.push(p);
    assert(part_views(final(content)@) =~= part_views(old(content)@).push(part_view(p)));
}

fn optional_text(t: &str, p: &str) -> (r: Option<String>)
    ensures
        match r {
            Some(s) => json_str_at(t@, p@) == Some(s@),
            None => json_str_at(t@, p@) is None,
        },
{
    json::json_str(t, p)
}

/// The tool call whose pointer is `base`.
fn openai_call_exec(t: &str, base: &str) -> (r: Result<ContentPart, CoreError>)
    ensures
        forall|i: int| #![trigger openai_call_at(t@, i)] base@ == openai_call_path(i) ==> match openai_call_at(t@, i) {
            Ok(ps) => r matches Ok(p) && ps == seq![part_view(p)],
            Err(ev) => r matches Err(e) && e@ == ev,
        },
{
    let mut args_path = text::owned(base);
    text::push_str(&mut args_path, "/function/arguments");
    let arguments = match json::json_str(t, args_path.as_str()) {
        None => text::owned("{}"),
        Some(a) => match json::json_compact(a.as_str()) {
            Ok(c) => c,
            Err(m) => {
                let mut message = text::owned("JSON 序列化失败: ");
                text::push_str(&mut message, m.as_str());
                let e = CoreError::new(ErrorCode::SerializationFailed, message.as_str());
                assert(e@.issues =~= seq![]);
                return Err(e);
            },
        },
    };
    let mut id_path = text::owned(base);
    text::push_str(&mut id_path, "/id");
    let id = match field_string(t, id_path.as_str(), "/id") {
        Ok(s) => s,
        Err(e) => return Err(e),
    };
    let mut name_path = text::owned(base);
    text::push_str(&mut name_path, "/function/name");
    let name = match field_string(t, name_path.as_str(), "/function/name") {
        Ok(s) => s,
        Err(e) => return Err(e),
    };
    Ok(ContentPart::ToolCall { id, name, arguments })
}

fn parse_openai_response(t: &str) -> (r: Result<CanonicalResponse, CoreError>)
    ensures
        match response_spec(AdapterKind::OpenaiCompatible, t@) {
            Ok(v) => r matches Ok(c) && c.schema_version == SCHEMA_VERSION && response_view(c) == v,
            Err(ev) => r matches Err(e) && e@ == ev,
        },
{
    if !json::json_has_at(t, "/choices/0/message") {
        let e = invalid_response("OpenAI 响应缺少 choices[0].message");
        assert(e@.issues =~= seq![]);
        return Err(e);
    }
    let mut content: Vec<ContentPart> = Vec::new();
    match optional_text(t, "/choices/0/message/content") {
        Some(s) => push_part(&mut content, ContentPart::Text { text: s }),
        None => {},
    }
    let ghost text_part = part_views(content@);
    assert(text_part =~= match json_str_at(t@, "/choices/0/message/content"@) {
        Some(s) => seq![PartView::Text(s)],
        None => seq![],
    });
    let ghost step = openai_call_step(t@);
    match json::json_array_len(t, "/choices/0/message/tool_calls") {
        None => {
            assert(part_views(content@) =~= text_part + seq![]);
        },
        Some(n) => {
            let mut i: usize = 0;
            while i < n
                invariant
                    i <= n,
                    step == openai_call_step(t@),
                    json_has(t@, "/choices/0/message"@),
                    json_array_len_at(t@, "/choices/0/message/tool_calls"@) == Some(n),
                    collect_parts(i as int, step) matches Ok(cs) && part_views(content@) == text_part + cs,
                decreases n - i,
            {
                let base = indexed_pointer("/choices/0/message/tool_calls/", i, "");
                proof {
                    reveal_strlit("");
                    assert(base@ =~= openai_call_path(i as int));
                }
                let step_result = openai_call_exec(t, base.as_str());
                let ghost prev = collect_parts(i as int, step);
                let part = match step_result {
                    Ok(p) => p,
                    Err(e) => {
                        proof {
                            assert(collect_parts(i + 1, step) == Err::<Seq<PartView>, ErrorView>(e@));
                            lemma_collect_err(i + 1, n as int, step);
                        }
                        return Err(e);
                    },
                };
                let ghost pv = part_view(part);
                push_part(&mut content, part);
                proof {
                    let cs = prev->Ok_0;
                    assert(part_views(content@) =~= text_part + (cs + seq![pv]));
                }
                i = i + 1;
            }
        },
    }
    let id = optional_text(t, "/id");
    let model = optional_text(t, "/model");
    let reason = optional_text(t, "/choices/0/finish_reason");
    let finish = match &reason {
        Some(s) => finish_reason(Some(s.as_str())),
        None => finish_reason(None),
    };
    let usage = Usage {
        input_tokens: count_exec(t, "/usage/prompt_tokens"),
        output_tokens: count_exec(t, "/usage/completion_tokens"),
        cached_input_tokens: json::json_u64(t, "/usage/prompt_tokens_details/cached_tokens"),
    };
    let c = CanonicalResponse { schema_version: SCHEMA_VERSION, provider_response_id: id, model, content, finish_reason: finish, usage };
    proof {
        let calls = match json_array_len_at(t@, "/choices/0/message/tool_calls"@) {
            Some(n) => collect_parts(n as int, openai_call_step(t@)),
            None => Ok(seq![]),
        };
        assert(calls is Ok);
        assert(response_view(c).content == text_part + calls->Ok_0);
        assert(response_view(c).provider_response_id == json_str_at(t@, "/id"@));
        assert(response_view(c).model == json_str_at(t@, "/model"@));
        assert(response_view(c).finish_reason == finish_reason_of(json_str_at(t@, "/choices/0/finish_reason"@), true));
    }
    Ok(c)
}

/// Reads the content block whose pointer is `base` into `content`.
fn anthropic_block_exec(t: &str, base: &str, content: &mut Vec<ContentPart>) -> (r: Result<(), CoreError>)
    ensures
        forall|i: int| #![trigger anthropic_block_at(t@, i)] base@ == anthropic_block_path(i) ==> match anthropic_block_at(t@, i) {
            Ok(ps) => r is Ok && part_views(final(content)@) == part_views(old(content)@) + ps,
            Err(ev) => r matches Err(e) && e@ == ev,
        },
{
    let ghost before = part_views(content@);
    let mut type_path = text::owned(base);
    text::push_str(&mut type_path, "/type");
    let kind = json::json_str(t, type_path.as_str());
    let is_text = match &kind {
        Some(k) => text::str_eq(k.as_str(), "text"),
        None => false,
    };
    let is_tool = match &kind {
        Some(k) => text::str_eq(k.as_str(), "tool_use"),
        None => false,
    };
    if is_text {
        let mut text_path = text::owned(base);
        text::push_str(&mut text_path, "/text");
        let s = match field_string(t, text_path.as_str(), "/text") {
            Ok(s) => s,
            Err(e) => return Err(e),
        };
        push_part(content, ContentPart::Text { text: s });
        assert(part_views(content@) =~= before + seq![part_views(content@).last()]);
    } else if is_tool {
        let mut id_path = text::owned(base);
        text::push_str(&mut id_path, "/id");
        let id = match field_string(t, id_path.as_str(), "/id") {
            Ok(s) => s,
            Err(e) => return Err(e),
        };
        let mut name_path = text::owned(base);
        text::push_str(&mut name_path, "/name");
        let name = match field_string(t, name_path.as_str(), "/name") {
            Ok(s) => s,
            Err(e) => return Err(e),
        };
        let mut input_path = text::owned(base);
        text::push_str(&mut input_path, "/input");
        let arguments = rendered_exec(t, input_path.as_str());
        push_part(content, ContentPart::ToolCall { id, name, arguments });
        assert(part_views(content@) =~= before + seq![part_views(content@).last()]);
    } else {
        assert(part_views(content@) =~= before + seq![]);
    }
    Ok(())
}

fn parse_anthropic_response(t: &str) -> (r: Result<CanonicalResponse, CoreError>)
    ensures
        match response_spec(AdapterKind::AnthropicMessages, t@) {
            Ok(v) => r matches Ok(c) && c.schema_version == SCHEMA_VERSION && response_view(c) == v,
            Err(ev) => r matches Err(e) && e@ == ev,
        },
{
    let n = match json::json_array_len(t, "/content") {
        Some(n) => n,
        None => {
            let e = invalid_response("Anthropic 响应缺少 content");
            assert(e@.issues =~= seq![]);
            return Err(e);
        },
    };
    let mut content: Vec<ContentPart> = Vec::new();
    let ghost step = anthropic_block_step(t@);
    let mut i: usize = 0;
    assert(part_views(content@) =~= seq![]);
    while i < n
        invariant
            i <= n,
            step == anthropic_block_step(t@),
            json_array_len_at(t@, "/content"@) == Some(n),
            collect_parts(i as int, step) matches Ok(cs) && part_views(content@) == cs,
        decreases n - i,
    {
        let base = indexed_pointer("/content/", i, "");
        proof {
            reveal_strlit("");
            assert(base@ =~= anthropic_block_path(i as int));
        }
        let ghost prev = collect_parts(i as int, step);
        match anthropic_block_exec(t, base.as_str(), &mut content) {
            Ok(()) => {},
            Err(e) => {
                proof {
                    assert(collect_parts(i + 1, step) == Err::<Seq<PartView>, ErrorView>(e@));
                    lemma_collect_err(i + 1, n as int, step);
                }
                return Err(e);
            },
        }
        i = i + 1;
    }
    let id = optional_text(t, "/id");
    let model = optional_text(t, "/model");
    let reason = optional_text(t, "/stop_reason");
    let finish = match &reason {
        Some(s) => finish_reason(Some(s.as_str())),
        None => finish_reason(None),
    };
    let usage = Usage {
        input_tokens: count_exec(t, "/usage/input_tokens"),
        output_tokens: count_exec(t, "/usage/output_tokens"),
        cached_input_tokens: json::json_u64(t, "/usage/cache_read_input_tokens"),
    };
    Ok(CanonicalResponse { schema_version: SCHEMA_VERSION, provider_response_id: id, model, content, finish_reason: finish, usage })
}

/// Reads the part whose pointer is `base`, the part at `index`, into
/// `content`.
fn gemini_part_read(t: &str, base: &str, index: usize, content: &mut Vec<ContentPart>) -> (r: Result<(), CoreError>)
    ensures
        base@ == gemini_part_path(index as int) ==> match gemini_part_at(t@, index as int) {
            Ok(ps) => r is Ok && part_views(final(content)@) == part_views(old(content)@) + ps,
            Err(ev) => r matches Err(e) && e@ == ev,
        },
{
    let ghost before = part_views(content@);
    let mut text_path = text::owned(base);
    text::push_str(&mut text_path, "/text");
    match json::json_str(t, text_path.as_str()) {
        Some(s) => push_part(content, ContentPart::Text { text: s }),
        None => {},
    }
    let ghost with_text = part_views(content@);
    assert(with_text =~= before + match json_str_at(t@, base@ + "/text"@) {
        Some(s) => seq![PartView::Text(s)],
        None => seq![],
    });
    let mut call_path = text::owned(base);
    text::push_str(&mut call_path, "/functionCall");
    if json::json_has_at(t, call_path.as_str()) {
        let mut name_path = text::owned(base);
        text::push_str(&mut name_path, "/functionCall/name");
        let name = match field_string(t, name_path.as_str(), "/name") {
            Ok(s) => s,
            Err(e) => return Err(e),
        };
        let mut args_path = text::owned(base);
        text::push_str(&mut args_path, "/functionCall/args");
        let arguments = rendered_exec(t, args_path.as_str());
        let id = indexed_pointer("gemini-call-", index, "");
        proof {
            reveal_strlit("");
            assert(id@ =~= "gemini-call-"@ + decimal(index as nat));
        }
        push_part(content, ContentPart::ToolCall { id, name, arguments });
        assert(part_views(content@) =~= with_text.push(part_views(content@).last()));
    }
    proof {
        if base@ == gemini_part_path(index as int) {
            if gemini_part_at(t@, index as int) is Ok {
                assert(part_views(content@) =~= before + gemini_part_at(t@, index as int)->Ok_0);
            }
        }
    }
    Ok(())
}

fn parse_gemini_response(t: &str) -> (r: Result<CanonicalResponse, CoreError>)
    ensures
        match response_spec(AdapterKind::GoogleGemini, t@) {
            Ok(v) => r matches Ok(c) && c.schema_version == SCHEMA_VERSION && response_view(c) == v,
            Err(ev) => r matches Err(e) && e@ == ev,
        },
{
    let n = match json::json_array_len(t, "/candidates/0/content/parts") {
        Some(n) => n,
        None => {
            let e = invalid_response("Gemini 响应缺少 candidates[0].content.parts");
            assert(e@.issues =~= seq![]);
            return Err(e);
        },
    };
    let mut content: Vec<ContentPart> = Vec::new();
    let ghost step = gemini_part_step(t@);
    let mut i: usize = 0;
    assert(part_views(content@) =~= seq![]);
    while i < n
        invariant
            i <= n,
            step == gemini_part_step(t@),
            json_array_len_at(t@, "/candidates/0/content/parts"@) == Some(n),
            collect_parts(i as int, step) matches Ok(cs) && part_views(content@) == cs,
        decreases n - i,
    {
        let base = indexed_pointer("/candidates/0/content/parts/", i, "");
        proof {
            reveal_strlit("");
            assert(base@ =~= gemini_part_path(i as int));
        }
        match gemini_part_read(t, base.as_str(), i, &mut content) {
            Ok(()) => {},
            Err(e) => {
                proof {
                    assert(collect_parts(i + 1, step) == Err::<Seq<PartView>, ErrorView>(e@));
                    lemma_collect_err(i + 1, n as int, step);
                }
                return Err(e);
            },
        }
        i = i + 1;
    }
    let id = optional_text(t, "/responseId");
    let model = optional_text(t, "/modelVersion");
    let reason = optional_text(t, "/candidates/0/finishReason");
    let finish = match &reason {
        Some(s) => finish_reason(Some(s.as_str())),
        None => finish_reason(None),
    };
    let usage = Usage {
        input_tokens: count_exec(t, "/usageMetadata/promptTokenCount"),
        output_tokens: count_exec(t, "/usageMetadata/candidatesTokenCount"),
        cached_input_tokens: json::json_u64(t, "/usageMetadata/cachedContentTokenCount"),
    };
    Ok(CanonicalResponse { schema_version: SCHEMA_VERSION, provider_response_id: id, model, content, finish_reason: finish, usage })
}

/// Normalises a complete (non-streaming) upstream response, given as JSON
/// text, of the given adapter.
pub fn parse_response(adapter: AdapterKind, response: &str) -> (r: Result<CanonicalResponse, CoreError>)
    ensures
        match response_spec(adapter, response@) {
            Ok(v) => r matches Ok(c) && c.schema_version == SCHEMA_VERSION && response_view(c) == v,
            Err(ev) => r matches Err(e) && e@ == ev,
        },
{
    match adapter {
        AdapterKind::OpenaiCompatible => parse_openai_response(response),
        AdapterKind::AnthropicMessages => parse_anthropic_response(response),
        AdapterKind::GoogleGemini => parse_gemini_response(response),
    }
}

/// How an upstream HTTP error is classified, whatever its message: an
/// authentication status fails authentication; 402, and 429 with a message
/// that mentions balance or quota in any ASCII case, mean the balance is
/// exhausted, which a retry cannot mend but a failover can; any other 429 is
/// a rate limit, worth a retry and a failover; a timeout status is a
/// timeout; a 404 about a model is an unavailable model; the other client
/// statuses are invalid requests, which neither a retry nor a failover
/// mends.
pub proof fn law_http_error_classes(status: u16, message: Seq<char>)
    ensures
        (status == 401 || status == 403) ==> status_error(status, message) == StandardError::AuthFailed,
        status == 402 ==> status_error(status, message) == StandardError::BalanceExhausted,
        status == 429 && (contains(lower(message), "quota"@) || contains(lower(message), "balance"@)) ==> {
            &&& status_error(status, message) == StandardError::BalanceExhausted
            &&& !retryable(status_error(status, message))
            &&& failover_recommended(status_error(status, message))
        },
        status == 429 && !contains(lower(message), "quota"@) && !contains(lower(message), "balance"@) ==> {
            &&& status_error(status, message) == StandardError::RateLimited
            &&& retryable(status_error(status, message))
            &&& failover_recommended(status_error(status, message))
        },
        (status == 408 || status == 504) ==> status_error(status, message) == StandardError::ProviderTimeout && retryable(
            status_error(status, message),
        ),
        status == 404 && contains(lower(message), "model"@) ==> status_error(status, message)
            == StandardError::ModelUnavailable && !retryable(status_error(status, message)),
        ((status == 404 && !contains(lower(message), "model"@)) || status == 400 || status == 405 || status == 409
            || status == 413 || status == 422) ==> {
            &&& status_error(status, message) == StandardError::InvalidRequest
            &&& !retryable(status_error(status, message))
            &&& !failover_recommended(status_error(status, message))
        },
        !(400 <= status <= 429) && status != 504 ==> status_error(status, message) == StandardError::InvalidResponse,
{
}

} // verus!
