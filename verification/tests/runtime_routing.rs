use apiarray::adapter::join_url;
use apiarray::provider::{
    AdapterBinding, AuthenticationDefinition, AuthenticationField, AuthenticationType,
    DiscoveryDefinition, EndpointDefinition, ProbeDefinition, ProbeSideEffect, ProviderIdentity,
    ProviderManifest, ProviderUi,
};
use apiarray::publisher::{ListenAddress, PublisherConfig};
use apiarray::routing::{HealthStatus, RoutePolicy, SelectionStrategy, StandardError};
use apiarray::canonical::{CanonicalRequest, Message, ResponseFormat, Role, ToolChoice};
use apiarray::runtime::{
    DispatchRequest, ModelRoute, ProviderInstance, RouteCondition, RouteQuery, RuntimeConfig,
    RuntimePublisher, UpstreamRoute,
};
use apiarray::secret::SecretRef;
use apiarray::{CoreError, ErrorCode};

fn openai_manifest() -> ProviderManifest {
    ProviderManifest {
        schema_version: 1,
        provider: ProviderIdentity {
            id: "openai-official".to_owned(),
            name: "OpenAI".to_owned(),
            category: "ai-model".to_owned(),
            homepage: None,
            docs: None,
        },
        adapter: AdapterBinding {
            id: "openai-compatible".to_owned(),
            min_version: 1,
        },
        endpoint: EndpointDefinition {
            default_base_url: "https://api.openai.com/v1".to_owned(),
            editable: true,
            allowed_schemes: vec!["https".to_owned()],
        },
        authentication: AuthenticationDefinition {
            kind: AuthenticationType::HeaderSecret,
            fields: vec![AuthenticationField {
                id: "api_key".to_owned(),
                label: "API Key".to_owned(),
                secret: true,
                required: true,
                header: Some("Authorization".to_owned()),
                query: None,
                prefix: Some("Bearer ".to_owned()),
            }],
        },
        headers: Vec::new(),
        discovery: DiscoveryDefinition::default(),
        probes: vec![ProbeDefinition {
            id: "models".to_owned(),
            kind: "metadata".to_owned(),
            side_effect: ProbeSideEffect::NoSideEffect,
            default_enabled: true,
        }],
        ui: ProviderUi::default(),
    }
}

fn provider_instance(id: &str, endpoint: &str) -> ProviderInstance {
    ProviderInstance {
        id: id.to_owned(),
        manifest: openai_manifest(),
        endpoint_override: Some(endpoint.to_owned()),
        secret_refs: vec![(
            "api_key".to_owned(),
            SecretRef::parse(&format!("secret://workspace/{id}/api-key")).expect("valid secret ref"),
        )],
        enabled: true,
    }
}

fn upstream(id: &str, provider: &str, model: &str, priority: u32) -> UpstreamRoute {
    UpstreamRoute {
        id: id.to_owned(),
        provider_instance: provider.to_owned(),
        upstream_model: model.to_owned(),
        priority,
        enabled: true,
        conditions: Vec::new(),
    }
}

fn runtime_config() -> RuntimeConfig {
    RuntimeConfig {
        schema_version: 1,
        id: "desktop-runtime".to_owned(),
        providers: vec![
            (
                "backup".to_owned(),
                provider_instance("backup", "https://backup.invalid/v1"),
            ),
            (
                "primary".to_owned(),
                provider_instance("primary", "https://primary.invalid/v1"),
            ),
        ],
        publishers: vec![(
            "local-ai".to_owned(),
            RuntimePublisher {
                config: PublisherConfig {
                    schema_version: 1,
                    id: "local-ai".to_owned(),
                    name: "Local AI".to_owned(),
                    listen_address: ListenAddress::V4([127, 0, 0, 1]),
                    port: 6188,
                    base_path: "/v1".to_owned(),
                    require_token: true,
                    token_ref: Some("secret://publisher/local-ai".to_owned()),
                },
                routes: vec![ModelRoute {
                    public_model: "smart".to_owned(),
                    policy: RoutePolicy {
                        schema_version: 1,
                        id: "smart-ha".to_owned(),
                        timeout_ms: 30_000,
                        max_retries: 2,
                        failover_on: vec![StandardError::ProviderTimeout, StandardError::RateLimited],
                        selection_strategy: SelectionStrategy::PriorityFailover,
                        latency_hysteresis_ms: 25,
                    },
                    upstreams: vec![
                        upstream("primary-route", "primary", "primary-model", 0),
                        upstream("backup-route", "backup", "backup-model", 10),
                    ],
                }],
            },
        )],
    }
}

fn query(health: Vec<(String, HealthStatus)>) -> RouteQuery {
    RouteQuery {
        publisher_id: "local-ai".to_owned(),
        model: "smart".to_owned(),
        metadata: Vec::new(),
        health,
        excluded_upstreams: Vec::new(),
        previous_error: None,
    }
}

#[test]
fn compiles_and_summarises_the_runtime() -> Result<(), CoreError> {
    let runtime = runtime_config().compile()?;
    let summary = runtime.summary();
    assert_eq!(summary.runtime_id, "desktop-runtime");
    assert_eq!(summary.provider_count, 2);
    assert_eq!(summary.enabled_provider_count, 2);
    assert_eq!(summary.publisher_count, 1);
    assert_eq!(summary.route_count, 1);
    assert_eq!(summary.upstream_count, 2);
    assert_eq!(summary.publishers[0].0, "local-ai");
    assert_eq!(summary.publishers[0].1.base_url, "http://127.0.0.1:6188/v1");
    assert!(runtime.publisher_config("local-ai").is_some());
    assert!(runtime.publisher_config("other").is_none());
    Ok(())
}

fn request() -> CanonicalRequest {
    CanonicalRequest {
        schema_version: 1,
        model: "smart".to_owned(),
        messages: vec![Message::text(Role::User, "hello")],
        max_output_tokens: 128,
        temperature: None,
        stream: true,
        tools: Vec::new(),
        tool_choice: ToolChoice::Auto,
        response_format: ResponseFormat::Text,
        metadata: Vec::new(),
    }
}

fn dispatch(request: CanonicalRequest, health: Vec<(String, HealthStatus)>) -> DispatchRequest {
    DispatchRequest {
        publisher_id: "local-ai".to_owned(),
        request,
        health,
        excluded_upstreams: Vec::new(),
        previous_error: None,
    }
}

fn body_of(text: &str) -> serde_json::Value {
    serde_json::from_str(text).expect("the body is JSON")
}

#[test]
fn unhealthy_primary_routes_to_healthy_backup() -> Result<(), CoreError> {
    let runtime = runtime_config().compile()?;
    let plan = runtime.plan_dispatch(
        &dispatch(
            request(),
            vec![
                ("backup-route".to_owned(), HealthStatus::Healthy),
                ("primary-route".to_owned(), HealthStatus::Unhealthy),
            ],
        ),
        None,
    )?;
    assert_eq!(plan.route.candidate_id, "backup-route");
    assert_eq!(plan.provider_instance, "backup");
    assert_eq!(plan.upstream_model, "backup-model");
    assert_eq!(body_of(&plan.transport.body)["model"], "backup-model");
    assert_eq!(
        plan.transport.url,
        "https://backup.invalid/v1/chat/completions"
    );
    Ok(())
}

#[test]
fn previous_timeout_and_exclusion_produce_explicit_failover() -> Result<(), CoreError> {
    let runtime = runtime_config().compile()?;
    let mut d = dispatch(
        request(),
        vec![
            ("backup-route".to_owned(), HealthStatus::Healthy),
            ("primary-route".to_owned(), HealthStatus::Healthy),
        ],
    );
    d.excluded_upstreams = vec!["primary-route".to_owned()];
    d.previous_error = Some(StandardError::ProviderTimeout);
    let plan = runtime.plan_dispatch(&d, None)?;
    assert_eq!(plan.route.candidate_id, "backup-route");
    assert_eq!(format!("{:?}", plan.route.reason), "FailoverAfterError");
    Ok(())
}

#[test]
fn compiles_and_plans_dispatch_without_secret_value() -> Result<(), CoreError> {
    let runtime = runtime_config().compile()?;
    let plan = runtime.plan_dispatch(
        &dispatch(request(), vec![("primary-route".to_owned(), HealthStatus::Healthy)]),
        None,
    )?;
    assert_eq!(plan.public_model, "smart");
    assert_eq!(plan.upstream_model, "primary-model");
    assert_eq!(body_of(&plan.transport.body)["model"], "primary-model");
    let rendered = format!("{:?}", plan);
    assert!(rendered.contains("secret://workspace/primary/api-key"));
    assert!(!rendered.contains("sk-"));
    Ok(())
}

#[test]
fn plans_a_route_for_a_query() -> Result<(), CoreError> {
    let runtime = runtime_config().compile()?;
    let plan = runtime.plan_route(&query(vec![
        ("backup-route".to_owned(), HealthStatus::Healthy),
        ("primary-route".to_owned(), HealthStatus::Unhealthy),
    ]))?;
    assert_eq!(plan.route.candidate_id, "backup-route");
    assert_eq!(plan.provider_instance, "backup");
    assert_eq!(plan.public_model, "smart");
    assert_eq!(plan.runtime_id, "desktop-runtime");
    let provider = runtime
        .provider_instance(&plan.provider_instance)
        .expect("planned provider exists");
    assert_eq!(
        join_url(provider.endpoint_override.as_deref().unwrap_or(""), "/chat/completions"),
        "https://backup.invalid/v1/chat/completions"
    );
    Ok(())
}

#[test]
fn dispatch_refuses_an_invalid_request() -> Result<(), CoreError> {
    let runtime = runtime_config().compile()?;
    let mut bad = request();
    bad.messages.clear();
    let error = runtime
        .plan_dispatch(&dispatch(bad, Vec::new()), None)
        .expect_err("a request without messages");
    assert_eq!(error.code, ErrorCode::RequestInvalid);
    assert_eq!(error.issues[0].path, "messages");
    Ok(())
}

#[test]
fn compile_rejects_missing_required_secret() {
    let mut config = runtime_config();
    config.providers[1].1.secret_refs.clear();
    let error = config.compile().expect_err("missing secret must fail");
    assert!(error
        .issues
        .iter()
        .any(|issue| issue.code == "SECRET_REFERENCE_REQUIRED"
            && issue.path == "providers.primary.secret_refs.api_key"));
}

#[test]
fn compile_collects_cross_reference_errors() {
    let mut config = runtime_config();
    config.publishers[0].1.routes[0].upstreams[0].provider_instance = "missing".to_owned();
    let error = config.compile().expect_err("missing provider must fail");
    assert_eq!(error.code, ErrorCode::RuntimeConfigInvalid);
    assert!(error.issues.iter().any(|issue| issue.code == "PROVIDER_NOT_FOUND"
        && issue.path == "publishers.local-ai.routes[0].upstreams[0].provider_instance"));
}

#[test]
fn metadata_condition_selects_only_matching_upstream() -> Result<(), CoreError> {
    let mut config = runtime_config();
    config.publishers[0].1.routes[0].upstreams[0].conditions = vec![RouteCondition::MetadataEquals {
        key: "tier".to_owned(),
        value: "premium".to_owned(),
    }];
    let runtime = config.compile()?;
    let without_metadata = runtime.plan_dispatch(&dispatch(request(), Vec::new()), None)?;
    assert_eq!(without_metadata.route.candidate_id, "backup-route");
    let mut matching = request();
    matching.metadata = vec![("tier".to_owned(), "premium".to_owned())];
    let with_metadata = runtime.plan_dispatch(&dispatch(matching, Vec::new()), None)?;
    assert_eq!(with_metadata.route.candidate_id, "primary-route");
    Ok(())
}

#[test]
fn nested_issues_are_re_rooted_and_reported_in_order() {
    let mut config = runtime_config();
    config.schema_version = 9;
    config.providers[0].0 = "renamed".to_owned();
    config.providers[0].1.manifest.adapter.id = "unknown-adapter".to_owned();
    config.providers[0].1.endpoint_override = Some("ftp://x".to_owned());
    config.publishers[0].1.config.port = 0;
    config.publishers[0].1.routes[0].upstreams[1].id = "primary-route".to_owned();
    config.publishers[0].1.routes[0].upstreams[1].conditions = vec![RouteCondition::MetadataPresent {
        key: " ".to_owned(),
    }];
    let error = config.compile().expect_err("invalid runtime");
    let found: Vec<(&str, &str)> = error
        .issues
        .iter()
        .map(|issue| (issue.path.as_str(), issue.code.as_str()))
        .collect();
    assert_eq!(
        found,
        vec![
            ("schema_version", "UNSUPPORTED_SCHEMA"),
            ("providers.renamed.id", "KEY_MISMATCH"),
            ("providers.renamed.manifest.adapter.id", "ADAPTER_UNSUPPORTED"),
            ("providers.renamed.endpoint_override", "SCHEME_NOT_ALLOWED"),
            ("publishers.local-ai.config.port", "OUT_OF_RANGE"),
            ("publishers.local-ai.routes[0].upstreams[1].id", "INVALID_OR_DUPLICATE"),
            ("publishers.local-ai.routes[0].upstreams[1].provider_instance", "PROVIDER_NOT_FOUND"),
            ("publishers.local-ai.routes[0].upstreams[1].conditions[0]", "INVALID_CONDITION"),
        ]
    );
}

#[test]
fn unknown_publisher_and_model_are_unavailable() -> Result<(), CoreError> {
    let runtime = runtime_config().compile()?;
    let mut q = query(Vec::new());
    q.publisher_id = "nope".to_owned();
    let error = runtime.plan_route(&q).expect_err("unknown publisher");
    assert_eq!(error.code, ErrorCode::RouteUnavailable);
    assert_eq!(error.message, "Publisher nope 不存在");
    let mut q = query(Vec::new());
    q.model = "dumb".to_owned();
    let error = runtime.plan_route(&q).expect_err("unknown model");
    assert_eq!(error.message, "公开模型 dumb 没有路由");
    Ok(())
}

#[test]
fn parses_valid_provider() -> Result<(), CoreError> {
    let manifest = openai_manifest();
    manifest.validate()?;
    assert_eq!(manifest.provider.id, "openai-official");
    Ok(())
}

#[test]
fn rejects_billable_probe_enabled_by_default() {
    let mut invalid = openai_manifest();
    invalid.probes[0].side_effect = ProbeSideEffect::Billable;
    let error = invalid.validate().expect_err("must reject unsafe probe");
    assert!(error
        .issues
        .iter()
        .any(|issue| issue.code == "UNSAFE_DEFAULT"));
}
