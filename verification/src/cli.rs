//! The versioned command interface: one request names a core operation and
//! its input, and one response carries its result or a machine-readable
//! error.
use crate::capability::{first_invalid, merged_is, CapabilityManifest};
use crate::error::{issue_views, CoreError, ErrorCode, ErrorView, ValidationIssue};
use crate::graph::{graph_issues, graph_summary_is, GraphSummary, WorkflowGraph};
use crate::provider::{manifest_issues, manifest_valid, ProviderManifest};
use crate::publisher::{publisher_base_url, publisher_issues, PublisherConfig, PublisherSummary};
use crate::routing::{candidate_views, decision_spec, RouteCandidate, RouteDecision, RoutePolicy, RouteRequest};
use crate::secret::{mentions_credentials, redact_diagnostic};
use crate::text::{self, decimal, is_blank};
use crate::SCHEMA_VERSION;
use vstd::prelude::*;

verus! {

pub struct CliRequest {
    pub schema_version: u32,
    pub command: CliCommand,
}

/// An operation and its input. A provider is given as what reading its
/// YAML gave: the manifest, or the reader's message.
pub enum CliCommand {
    ValidateProvider { manifest: Result<ProviderManifest, String> },
    ValidateGraph { graph: WorkflowGraph },
    DecideRoute { policy: RoutePolicy, request: RouteRequest, candidates: Vec<RouteCandidate> },
    MergeCapabilities { source_id: String, manifests: Vec<CapabilityManifest> },
    ValidatePublisher { publisher: PublisherConfig },
    RedactDiagnostic { value: String },
}

/// The result of an operation.
pub enum CliResult {
    Provider { provider_id: String, provider_name: String, adapter_id: String, probe_count: usize },
    Graph(GraphSummary),
    Route(RouteDecision),
    Capabilities(CapabilityManifest),
    Publisher(PublisherSummary),
    Redacted { redacted: String },
}

pub struct CliError {
    pub code: ErrorCode,
    pub message: String,
    pub issues: Vec<ValidationIssue>,
}

pub struct CliResponse {
    pub schema_version: u32,
    pub ok: bool,
    pub result: Option<CliResult>,
    pub error: Option<CliError>,
}

impl CliResponse {
    pub fn success(result: CliResult) -> (r: Self)
        ensures
            r.schema_version == SCHEMA_VERSION,
            r.ok,
            r.result == Some(result),
            r.error is None,
    {
        CliResponse { schema_version: SCHEMA_VERSION, ok: true, result: Some(result), error: None }
    }

    pub fn failure(error: CoreError) -> (r: Self)
        ensures
            r.schema_version == SCHEMA_VERSION,
            !r.ok,
            r.result is None,
            r.error matches Some(e) && e.code == error.code && e.message == error.message && e.issues == error.issues,
    {
        CliResponse {
            schema_version: SCHEMA_VERSION,
            ok: false,
            result: None,
            error: Some(CliError { code: error.code, message: error.message, issues: error.issues }),
        }
    }
}

/// A successful response whose result satisfies `holds`.
pub open spec fn success_with(r: Result<CliResponse, CoreError>, holds: spec_fn(CliResult) -> bool) -> bool {
    match r {
        Ok(resp) => resp.ok && resp.error is None && match resp.result {
            Some(x) => holds(x),
            None => false,
        },
        Err(_) => false,
    }
}

pub open spec fn provider_result_is(x: CliResult, m: ProviderManifest) -> bool {
    match x {
        CliResult::Provider { provider_id, provider_name, adapter_id, probe_count } => provider_id@ == m.provider.id@
            && provider_name@ == m.provider.name@ && adapter_id@ == m.adapter.id@ && probe_count == m.probes@.len(),
        _ => false,
    }
}

pub open spec fn publisher_result_is(x: CliResult, p: PublisherConfig) -> bool {
    match x {
        CliResult::Publisher(s) => s.id@ == p.id@ && s.base_url@ == publisher_base_url(p) && s.loopback_only
            && s.authentication_enabled == p.require_token,
        _ => false,
    }
}

/// What a successful response for the command holds, and an error the
/// command's operation gives.
pub open spec fn command_outcome(c: CliCommand, r: Result<CliResponse, CoreError>) -> bool {
    match c {
        CliCommand::ValidateProvider { manifest } => match manifest {
            Err(m) => r matches Err(e) && e.code == ErrorCode::ProviderInvalid && e.message@ == "Provider YAML 无法解析: "@ + m@
                && e@.issues.len() == 0,
            Ok(manifest) => if manifest_valid(manifest) {
                success_with(r, |x: CliResult| provider_result_is(x, manifest))
            } else {
                r matches Err(e) && e.code == ErrorCode::ProviderInvalid && e.message@ == "Provider 配置校验失败"@ && e@.issues
                    == manifest_issues(manifest)
            },
        },
        CliCommand::ValidateGraph { graph } => if graph_issues(graph).len() == 0 {
            success_with(r, |x: CliResult| x matches CliResult::Graph(s) && graph_summary_is(s, graph))
        } else {
            r matches Err(e) && e.code == ErrorCode::GraphInvalid && e@.issues == graph_issues(graph)
        },
        CliCommand::DecideRoute { policy, request, candidates } => match r {
            Ok(_) => success_with(
                r,
                |x: CliResult| x matches CliResult::Route(d) && decision_spec(policy@, request@, candidate_views(candidates@), Ok(d)),
            ),
            Err(e) => decision_spec(policy@, request@, candidate_views(candidates@), Err(e)),
        },
        CliCommand::MergeCapabilities { source_id, manifests } => if manifests@.len() > 0 && first_invalid(manifests@) is None
            && !is_blank(source_id@) {
            success_with(r, |x: CliResult| x matches CliResult::Capabilities(m) && merged_is(m, source_id@, manifests@))
        } else {
            r matches Err(e) && e.code == ErrorCode::InvalidInput
        },
        CliCommand::ValidatePublisher { publisher } => if publisher_issues(publisher).len() == 0 {
            success_with(r, |x: CliResult| publisher_result_is(x, publisher))
        } else {
            r matches Err(e) && e.code == ErrorCode::PublisherInvalid && e@.issues == publisher_issues(publisher)
        },
        CliCommand::RedactDiagnostic { value } => success_with(
            r,
            |x: CliResult| x matches CliResult::Redacted { redacted } && redacted@ == (if mentions_credentials(value@) {
                "[REDACTED]"@
            } else {
                value@
            }),
        ),
    }
}

/// Runs a parsed request: an unsupported schema is refused, otherwise the
/// named operation runs and its result is wrapped in a response.
pub fn dispatch(request: CliRequest) -> (r: Result<CliResponse, CoreError>)
    ensures
        request.schema_version != SCHEMA_VERSION ==> (r matches Err(e) && e.code == ErrorCode::UnsupportedSchema && e.message@
            == "CLI 只支持 Schema 1，收到 "@ + decimal(request.schema_version as nat) && e@.issues.len() == 0),
        request.schema_version == SCHEMA_VERSION ==> command_outcome(request.command, r),
{
    if request.schema_version != SCHEMA_VERSION {
        let mut message = text::owned("CLI 只支持 Schema 1，收到 ");
        let n = text::decimal_string(request.schema_version as u64);
        text::push_str(&mut message, n.as_str());
        return Err(CoreError::new(ErrorCode::UnsupportedSchema, message.as_str()));
    }
    let result = match request.command {
        CliCommand::ValidateProvider { manifest } => {
            let manifest = match ProviderManifest::from_parsed_yaml(manifest) {
                Err(e) => {
                    return Err(e);
                },
                Ok(m) => m,
            };
            CliResult::Provider {
                provider_id: manifest.provider.id.clone(),
                provider_name: manifest.provider.name.clone(),
                adapter_id: manifest.adapter.id.clone(),
                probe_count: manifest.probes.len(),
            }
        },
        CliCommand::ValidateGraph { graph } => match graph.validate() {
            Err(e) => {
                return Err(e);
            },
            Ok(s) => CliResult::Graph(s),
        },
        CliCommand::DecideRoute { policy, request, candidates } => match policy.decide(&request, &candidates) {
            Err(e) => {
                return Err(e);
            },
            Ok(d) => CliResult::Route(d),
        },
        CliCommand::MergeCapabilities { source_id, manifests } => match CapabilityManifest::merge(
            source_id.as_str(),
            manifests.as_slice(),
        ) {
            Err(e) => {
                return Err(e);
            },
            Ok(m) => CliResult::Capabilities(m),
        },
        CliCommand::ValidatePublisher { publisher } => match publisher.validate() {
            Err(e) => {
                return Err(e);
            },
            Ok(s) => CliResult::Publisher(s),
        },
        CliCommand::RedactDiagnostic { value } => CliResult::Redacted { redacted: redact_diagnostic(value.as_str()) },
    };
    Ok(CliResponse::success(result))
}

/// What dispatching a request gives: its schema is refused unless it is the
/// supported one, otherwise the command's outcome.
pub open spec fn dispatch_is(request: CliRequest, r: Result<CliResponse, CoreError>) -> bool {
    &&& request.schema_version != SCHEMA_VERSION ==> (r matches Err(e) && e.code == ErrorCode::UnsupportedSchema && e.message@
        == "CLI 只支持 Schema 1，收到 "@ + decimal(request.schema_version as nat) && e@.issues.len() == 0)
    &&& request.schema_version == SCHEMA_VERSION ==> command_outcome(request.command, r)
}

/// The response that answers a dispatch: its response, or the failure that
/// carries its error.
pub open spec fn answers(d: Result<CliResponse, CoreError>, r: CliResponse) -> bool {
    match d {
        Ok(resp) => r == resp,
        Err(e) => r.schema_version == SCHEMA_VERSION && !r.ok && r.result is None && (r.error matches Some(x) && x.code == e.code
            && x.message == e.message && x.issues == e.issues),
    }
}

/// Answers one request line once it has been read: a line that could not be
/// read as a request is refused as invalid input, with the reader's message;
/// a request is dispatched, and an error becomes a failure response.
pub fn respond(parsed: Result<CliRequest, String>) -> (r: CliResponse)
    ensures
        match parsed {
            Err(m) => r.schema_version == SCHEMA_VERSION && !r.ok && r.result is None && (r.error matches Some(x) && x.code
                == ErrorCode::InvalidInput && x.message@ == "CLI JSON 无法解析: "@ + m@ && x.issues@.len() == 0),
            Ok(request) => exists|d: Result<CliResponse, CoreError>| #[trigger] dispatch_is(request, d) && answers(d, r),
        },
{
    match parsed {
        Err(m) => {
            let mut message = text::owned("CLI JSON 无法解析: ");
            text::push_str(&mut message, m.as_str());
            CliResponse::failure(CoreError::new(ErrorCode::InvalidInput, message.as_str()))
        },
        Ok(request) => {
            let ghost req = request;
            let d = dispatch(request);
            assert(dispatch_is(req, d));
            match d {
                Ok(resp) => resp,
                Err(e) => CliResponse::failure(e),
            }
        },
    }
}

} // verus!
