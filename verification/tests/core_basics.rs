use apiarray::capability::Evidence;
use apiarray::events::{HealthTransition, NotificationEvent};
use apiarray::health::{EndpointHealth, HealthObservation, HealthPolicy};
use apiarray::inspection::{
    authorize_probe, InspectionDimension, InspectionFinding, InspectionOverall, InspectionReport,
    InspectionStatus, ProbeAuthorization, ProbeSchedule,
};
use apiarray::provider::{ProbeDefinition, ProbeSideEffect};
use apiarray::routing::{HealthStatus, StandardError};
use apiarray::secret::{redact_diagnostic, redact_secret, SecretRef};
use apiarray::{CoreError, ErrorCode};

#[test]
fn accepts_valid_secret_reference() -> Result<(), CoreError> {
    let reference = SecretRef::parse("secret://workspace/openai/main")?;
    assert_eq!(reference.as_str(), "secret://workspace/openai/main");
    Ok(())
}

#[test]
fn rejects_plain_secret_value() {
    assert!(SecretRef::parse("sk-not-a-reference").is_err());
}

#[test]
fn redaction_never_returns_the_whole_value() {
    assert_eq!(redact_secret("sk-12345678"), "***5678");
    assert_eq!(redact_diagnostic("Authorization: Bearer abc"), "[REDACTED]");
}

#[test]
fn secret_reference_rejects_bad_identifiers() {
    for bad in ["secret://", "secret:///a", "secret://a/", "secret://a b", "secret://é"] {
        let error = SecretRef::parse(bad).expect_err("must reject");
        assert_eq!(error.code, ErrorCode::SecretInvalid);
        assert_eq!(error.message, "Secret 引用包含非法或空的标识符");
    }
    let error = SecretRef::parse("plain").expect_err("no prefix");
    assert_eq!(error.message, "Secret 引用必须以 secret:// 开头");
    assert!(SecretRef::parse("secret://a.b:c-d_e/f").is_ok());
}

#[test]
fn redaction_edge_cases() {
    assert_eq!(redact_secret(""), "***");
    assert_eq!(redact_secret("ab"), "***ab");
    assert_eq!(redact_secret("密钥一二三四五"), "***二三四五");
    assert_eq!(redact_diagnostic("x-api-key: 1"), "[REDACTED]");
    assert_eq!(redact_diagnostic("APIKEY"), "[REDACTED]");
    assert_eq!(redact_diagnostic("plain text"), "plain text");
    assert_eq!(redact_diagnostic("bearer"), "bearer");
}

#[test]
fn merges_repeated_notification_state() {
    let first = NotificationEvent {
        schema_version: 1,
        object_id: "adapter/a".to_owned(),
        transition: HealthTransition::Failed,
        occurrence_count: 2,
        summary: "failed".to_owned(),
    };
    let newer = NotificationEvent {
        occurrence_count: 3,
        ..first.clone()
    };
    assert_eq!(first.merge(newer).expect("must merge").occurrence_count, 5);
}

#[test]
fn notification_merge_refuses_other_objects_and_saturates() {
    let first = NotificationEvent {
        schema_version: 1,
        object_id: "a".to_owned(),
        transition: HealthTransition::Failed,
        occurrence_count: u32::MAX,
        summary: "old".to_owned(),
    };
    let other = NotificationEvent { object_id: "b".to_owned(), ..first.clone() };
    assert!(first.clone().merge(other).is_none());
    let newer = NotificationEvent { occurrence_count: 7, summary: "new".to_owned(), ..first.clone() };
    let merged = first.merge(newer).expect("same object");
    assert_eq!(merged.occurrence_count, u32::MAX);
    assert_eq!(merged.summary, "new");
}

fn failure() -> HealthObservation {
    HealthObservation { success: false, latency_ms: None, error: Some(StandardError::ProviderTimeout) }
}

fn success(latency: u64) -> HealthObservation {
    HealthObservation { success: true, latency_ms: Some(latency), error: None }
}

#[test]
fn transitions_through_degraded_unhealthy_and_recovery() -> Result<(), CoreError> {
    let policy = HealthPolicy { failure_threshold: 2, recovery_threshold: 2, ..HealthPolicy::default() };
    let mut health = EndpointHealth::unknown();
    health.observe(&policy, failure())?;
    assert_eq!(health.status, HealthStatus::Degraded);
    health.observe(&policy, failure())?;
    assert_eq!(health.status, HealthStatus::Unhealthy);
    health.observe(&policy, success(20))?;
    assert_eq!(health.status, HealthStatus::Degraded);
    health.observe(&policy, success(20))?;
    assert_eq!(health.status, HealthStatus::Healthy);
    Ok(())
}

#[test]
fn slow_success_is_degraded() -> Result<(), CoreError> {
    let policy = HealthPolicy::default();
    let mut health = EndpointHealth::unknown();
    health.observe(&policy, success(policy.degraded_latency_ms))?;
    assert_eq!(health.status, HealthStatus::Degraded);
    Ok(())
}

#[test]
fn health_observe_reports_changes_and_rejects_bad_input() {
    let policy = HealthPolicy::default();
    let mut health = EndpointHealth::unknown();
    let change = health.observe(&policy, success(5)).expect("valid").expect("changed");
    assert_eq!(change.previous, HealthStatus::Unknown);
    assert_eq!(change.current, HealthStatus::Healthy);
    assert_eq!(change.observation_count, 1);
    assert!(health.observe(&policy, success(5)).expect("valid").is_none());
    let error = health
        .observe(&policy, HealthObservation { success: false, latency_ms: None, error: None })
        .expect_err("failure needs an error");
    assert_eq!(error.code, ErrorCode::InvalidInput);
    assert_eq!(health.observation_count, 2);
    let bad = HealthPolicy { failure_threshold: 0, degraded_latency_ms: 700_000, ..policy };
    let error = health.observe(&bad, success(1)).expect_err("invalid policy");
    assert_eq!(error.code, ErrorCode::RuntimeConfigInvalid);
    let codes: Vec<&str> = error.issues.iter().map(|issue| issue.path.as_str()).collect();
    assert_eq!(codes, vec!["failure_threshold", "degraded_latency_ms"]);
}

fn probe(side_effect: ProbeSideEffect) -> ProbeDefinition {
    ProbeDefinition { id: "probe".to_owned(), kind: "metadata".to_owned(), side_effect, default_enabled: false }
}

#[test]
fn billable_probe_requires_explicit_authorization() {
    assert!(authorize_probe(&probe(ProbeSideEffect::Billable), ProbeAuthorization::default()).is_err());
    assert!(authorize_probe(&probe(ProbeSideEffect::Billable), ProbeAuthorization { allow_billable: true }).is_ok());
    assert!(authorize_probe(&probe(ProbeSideEffect::Mutating), ProbeAuthorization { allow_billable: true }).is_err());
    assert!(authorize_probe(&probe(ProbeSideEffect::NoSideEffect), ProbeAuthorization::default()).is_ok());
}

fn finding(dimension: InspectionDimension, status: InspectionStatus) -> InspectionFinding {
    InspectionFinding {
        dimension,
        status,
        evidence: Evidence::Verified,
        latency_ms: None,
        safe_summary: None,
        declared_value: None,
        verified_value: None,
    }
}

#[test]
fn report_separates_declared_and_verified_context() -> Result<(), CoreError> {
    let report = InspectionReport::build(
        "provider",
        100,
        vec![InspectionFinding {
            dimension: InspectionDimension::ContextWindow,
            status: InspectionStatus::Partial,
            evidence: Evidence::ProviderDeclared,
            latency_ms: None,
            safe_summary: None,
            declared_value: Some("128k".to_owned()),
            verified_value: Some("32k".to_owned()),
        }],
        None,
        0,
    )?;
    assert_eq!(report.overall, InspectionOverall::Degraded);
    let context = report.finding(InspectionDimension::ContextWindow).expect("present");
    assert_ne!(context.declared_value, context.verified_value);
    Ok(())
}

#[test]
fn report_orders_findings_and_rejects_duplicates() {
    let report = InspectionReport::build(
        "p",
        1,
        vec![
            finding(InspectionDimension::Latency, InspectionStatus::Passed),
            finding(InspectionDimension::Dns, InspectionStatus::Passed),
        ],
        Some(1),
        2,
    )
    .expect("valid");
    assert_eq!(report.findings[0].dimension, InspectionDimension::Dns);
    assert_eq!(report.findings[1].dimension, InspectionDimension::Latency);
    assert_eq!(report.overall, InspectionOverall::Healthy);
    let unavailable = InspectionReport::build("p", 1, vec![finding(InspectionDimension::Tls, InspectionStatus::Failed)], None, 0)
        .expect("valid");
    assert_eq!(unavailable.overall, InspectionOverall::Unavailable);
    let unknown = InspectionReport::build("p", 1, vec![], None, 0).expect("valid");
    assert_eq!(unknown.overall, InspectionOverall::Unknown);
    let error = InspectionReport::build(
        " ",
        1,
        vec![
            finding(InspectionDimension::Dns, InspectionStatus::Passed),
            finding(InspectionDimension::Dns, InspectionStatus::Failed),
        ],
        None,
        0,
    )
    .expect_err("duplicate");
    let paths: Vec<&str> = error.issues.iter().map(|issue| issue.path.as_str()).collect();
    assert_eq!(paths, vec!["provider_id", "findings[1].dimension"]);
    let mut long = finding(InspectionDimension::Models, InspectionStatus::Passed);
    long.safe_summary = Some("x".repeat(513));
    let error = InspectionReport::build("p", 1, vec![long], None, 0).expect_err("too long");
    assert_eq!(error.issues[0].code, "TOO_LONG");
    assert_eq!(error.issues[0].path, "findings[0].safe_summary");
}

#[test]
fn schedule_enforces_pause_and_rate_limit() {
    let active = ProbeSchedule { paused: false, minimum_interval_ms: 1_000, last_run_at_unix_ms: Some(5_000) };
    assert!(active.allow_at(5_999).is_err());
    assert!(active.allow_at(6_000).is_ok());
    assert!(ProbeSchedule { paused: true, ..active }.allow_at(7_000).is_err());
    assert!(ProbeSchedule { minimum_interval_ms: 0, ..active }.allow_at(7_000).is_err());
    assert!(ProbeSchedule { last_run_at_unix_ms: None, ..active }.allow_at(0).is_ok());
}

#[test]
fn an_invalid_policy_refuses_the_observation_with_its_own_error() {
    let policy = HealthPolicy { failure_threshold: 0, ..HealthPolicy::default() };
    let mut health = EndpointHealth::unknown();
    let error = health.observe(&policy, success(5)).expect_err("invalid policy");
    assert_eq!(error.code, ErrorCode::RuntimeConfigInvalid);
    assert_eq!(error.message, "健康策略校验失败");
    assert_eq!(health, EndpointHealth::unknown());
}

#[test]
fn json_quote_escapes_as_its_contract_states() {
    assert_eq!(
        apiarray::json::json_quote("a\"\\\n\r\t\u{8}\u{c}\u{1}\u{1f}\u{7f}é"),
        "\"a\\\"\\\\\\n\\r\\t\\b\\f\\u0001\\u001f\u{7f}é\""
    );
}
