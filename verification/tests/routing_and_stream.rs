use apiarray::routing::{
    HealthStatus, RouteCandidate, RoutePolicy, RouteReason, RouteRequest, SelectionStrategy,
    StandardError, WeightedSelectionState,
};
use apiarray::stream::{decode_sse_chunks, SseDecoder};
use apiarray::{CoreError, ErrorCode};
use std::collections::BTreeMap;

fn policy() -> RoutePolicy {
    RoutePolicy {
        schema_version: 1,
        id: "default".to_owned(),
        timeout_ms: 30_000,
        max_retries: 2,
        failover_on: vec![StandardError::ProviderTimeout],
        selection_strategy: SelectionStrategy::PriorityFailover,
        latency_hysteresis_ms: 25,
    }
}

fn candidate(id: &str, priority: u32, weight: u16, health: HealthStatus, latency: Option<u64>) -> RouteCandidate {
    RouteCandidate {
        id: id.to_owned(),
        priority,
        weight,
        enabled: true,
        health,
        latency_ms: latency,
        models: Vec::new(),
    }
}

fn request() -> RouteRequest {
    RouteRequest { model: "smart".to_owned(), excluded_candidates: Vec::new(), previous_error: None }
}

#[test]
fn selects_healthy_candidate_before_degraded() -> Result<(), CoreError> {
    let candidates = vec![
        candidate("degraded-primary", 0, 1, HealthStatus::Degraded, None),
        candidate("healthy-backup", 10, 1, HealthStatus::Healthy, None),
    ];
    let decision = policy().decide(&request(), &candidates)?;
    assert_eq!(decision.candidate_id, "healthy-backup");
    assert_eq!(decision.reason, RouteReason::PrimaryHealthy);
    Ok(())
}

#[test]
fn refuses_failover_for_non_configured_error() {
    let error = policy()
        .decide(
            &RouteRequest { previous_error: Some(StandardError::AuthFailed), ..request() },
            &vec![],
        )
        .expect_err("auth failure must not fail over by default");
    assert_eq!(error.code, ErrorCode::RouteUnavailable);
    assert_eq!(error.message, "策略不允许在错误 AuthFailed 后切换线路");
}

#[test]
fn smooth_weighted_round_robin_preserves_distribution() -> Result<(), CoreError> {
    let mut policy = policy();
    policy.selection_strategy = SelectionStrategy::WeightedRoundRobin;
    let candidates = vec![
        candidate("primary", 0, 3, HealthStatus::Healthy, None),
        candidate("secondary", 0, 1, HealthStatus::Healthy, None),
    ];
    let mut state = WeightedSelectionState::default();
    let mut counts = BTreeMap::new();
    for _ in 0..40 {
        let selected = policy.decide_with_state(&request(), &candidates, &mut state)?;
        *counts.entry(selected.candidate_id).or_insert(0_u32) += 1;
    }
    assert_eq!(counts["primary"], 30);
    assert_eq!(counts["secondary"], 10);
    Ok(())
}

#[test]
fn smooth_weighted_sequence_is_interleaved() -> Result<(), CoreError> {
    let mut policy = policy();
    policy.selection_strategy = SelectionStrategy::WeightedRoundRobin;
    let candidates = vec![
        candidate("a", 0, 5, HealthStatus::Healthy, None),
        candidate("b", 0, 1, HealthStatus::Healthy, None),
        candidate("c", 0, 1, HealthStatus::Healthy, None),
    ];
    let mut state = WeightedSelectionState::default();
    let mut order = Vec::new();
    for _ in 0..7 {
        let decision = policy.decide_with_state(&request(), &candidates, &mut state)?;
        assert_eq!(decision.reason, RouteReason::WeightedSelection);
        order.push(decision.candidate_id);
    }
    assert_eq!(order, vec!["a", "a", "b", "a", "c", "a", "a"]);
    Ok(())
}

#[test]
fn lowest_latency_uses_samples_and_priority_hysteresis() -> Result<(), CoreError> {
    let mut policy = policy();
    policy.selection_strategy = SelectionStrategy::LowestLatency;
    policy.latency_hysteresis_ms = 15;
    let mut candidates = vec![
        candidate("primary", 0, 1, HealthStatus::Healthy, Some(100)),
        candidate("fast", 10, 1, HealthStatus::Healthy, Some(90)),
    ];
    assert_eq!(policy.decide(&request(), &candidates)?.candidate_id, "primary");
    candidates[1].latency_ms = Some(70);
    let decision = policy.decide(&request(), &candidates)?;
    assert_eq!(decision.candidate_id, "fast");
    assert_eq!(decision.reason, RouteReason::LowestLatency);
    Ok(())
}

#[test]
fn lowest_latency_without_samples_falls_back_to_priority() -> Result<(), CoreError> {
    let mut policy = policy();
    policy.selection_strategy = SelectionStrategy::LowestLatency;
    let candidates = vec![
        candidate("b", 5, 1, HealthStatus::Healthy, None),
        candidate("a", 5, 1, HealthStatus::Healthy, None),
    ];
    let decision = policy.decide(&request(), &candidates)?;
    assert_eq!(decision.candidate_id, "a");
    assert_eq!(decision.reason, RouteReason::PrimaryHealthy);
    Ok(())
}

#[test]
fn routing_filters_excluded_unhealthy_and_other_models() -> Result<(), CoreError> {
    let mut only_other = candidate("other-model", 0, 1, HealthStatus::Healthy, None);
    only_other.models = vec!["other".to_owned()];
    let candidates = vec![
        only_other,
        candidate("down", 0, 1, HealthStatus::Unhealthy, None),
        candidate("excluded", 0, 1, HealthStatus::Healthy, None),
        candidate("unknown", 9, 1, HealthStatus::Unknown, None),
    ];
    let request = RouteRequest {
        excluded_candidates: vec!["excluded".to_owned()],
        previous_error: Some(StandardError::ProviderTimeout),
        ..request()
    };
    let decision = policy().decide(&request, &candidates)?;
    assert_eq!(decision.candidate_id, "unknown");
    assert_eq!(decision.reason, RouteReason::FailoverAfterError);
    assert_eq!(decision.timeout_ms, 30_000);
    assert_eq!(decision.remaining_retries, 2);
    let error = policy().decide(&request, &vec![]).expect_err("no candidate");
    assert_eq!(error.message, "没有可用于模型 smart 的候选线路");
    Ok(())
}

#[test]
fn invalid_policy_reports_every_issue() {
    let bad = RoutePolicy { schema_version: 2, id: " ".to_owned(), timeout_ms: 0, max_retries: 11, latency_hysteresis_ms: 60_001, ..policy() };
    let error = bad.validate().expect_err("invalid");
    assert_eq!(error.code, ErrorCode::InvalidInput);
    let paths: Vec<&str> = error.issues.iter().map(|issue| issue.path.as_str()).collect();
    assert_eq!(paths, vec!["schema_version", "id", "timeout_ms", "max_retries", "latency_hysteresis_ms"]);
}

#[test]
fn decoder_handles_arbitrary_chunk_boundaries() {
    let mut decoder = SseDecoder::new();
    assert!(decoder.push("event: message\r\nda").is_empty());
    let frames = decoder.push("ta: {\"value\":1}\r\n\r\n");
    assert_eq!(frames.len(), 1);
    assert_eq!(frames[0].event.as_deref(), Some("message"));
    assert_eq!(frames[0].data, "{\"value\":1}");
}

#[test]
fn decoder_joins_data_lines_and_flushes_the_tail() {
    let frames = decode_sse_chunks(&vec![
        ": comment\nid: 7\ndata: a\ndata:b\n\n".to_owned(),
        "data: tail".to_owned(),
        "\r\n".to_owned(),
    ]);
    assert_eq!(frames.len(), 2);
    assert_eq!(frames[0].data, "a\nb");
    assert_eq!(frames[0].id.as_deref(), Some("7"));
    assert_eq!(frames[0].event, None);
    assert_eq!(frames[1].data, "tail");
    let mut decoder = SseDecoder::new();
    assert!(decoder.push("event: only\n\n").is_empty());
    assert!(decoder.finish().is_none());
}

#[test]
fn chunking_does_not_change_decoded_frames() {
    let text = "event: a\ndata: 1\n\ndata: 2\ndata: 3\n\nevent: z\ndata: end";
    let whole = decode_sse_chunks(&vec![text.to_owned()]);
    for cut in 0..=text.len() {
        if !text.is_char_boundary(cut) {
            continue;
        }
        let split = decode_sse_chunks(&vec![text[..cut].to_owned(), text[cut..].to_owned()]);
        assert_eq!(split, whole, "cut at {cut}");
    }
    assert_eq!(whole.len(), 3);
}
