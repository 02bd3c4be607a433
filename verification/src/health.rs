//! Endpoint health tracking: consecutive failures make an endpoint degraded
//! and then unhealthy, slow successes degrade it, and recovery from unhealthy
//! takes a configured number of consecutive successes.
use crate::error::{finish, iv, issue_views, CoreError, ErrorCode, IssueView, ValidationIssue};
use crate::routing::{opt_issue, HealthStatus, StandardError};
use crate::SCHEMA_VERSION;
use vstd::prelude::*;

verus! {

#[derive(Debug, Clone, Copy, PartialEq, Eq)]
pub struct HealthPolicy {
    pub schema_version: u32,
    pub failure_threshold: u32,
    pub recovery_threshold: u32,
    pub degraded_latency_ms: u64,
}

#[derive(Debug, Clone, Copy, PartialEq, Eq)]
pub struct HealthObservation {
    pub success: bool,
    pub latency_ms: Option<u64>,
    pub error: Option<StandardError>,
}

#[derive(Debug, Clone, Copy, PartialEq, Eq)]
pub struct EndpointHealth {
    pub status: HealthStatus,
    pub consecutive_successes: u32,
    pub consecutive_failures: u32,
    pub last_latency_ms: Option<u64>,
    pub last_error: Option<StandardError>,
    pub observation_count: u64,
}

#[derive(Debug, Clone, Copy, PartialEq, Eq)]
pub struct HealthChange {
    pub previous: HealthStatus,
    pub current: HealthStatus,
    pub observation_count: u64,
}

pub const DEFAULT_FAILURE_THRESHOLD: u32 = 3;

pub const DEFAULT_RECOVERY_THRESHOLD: u32 = 2;

pub const DEFAULT_DEGRADED_LATENCY_MS: u64 = 10_000;

/// The issues that health-policy validation reports, in order.
pub open spec fn health_policy_issues(p: HealthPolicy) -> Seq<IssueView> {
    opt_issue(
        p.schema_version != SCHEMA_VERSION,
        iv("schema_version"@, "UNSUPPORTED_SCHEMA"@, "健康策略 Schema 版本不受支持"@),
    ) + opt_issue(
        p.failure_threshold == 0 || p.failure_threshold > 100,
        iv("failure_threshold"@, "OUT_OF_RANGE"@, "失败阈值必须在 1 到 100 之间"@),
    ) + opt_issue(
        p.recovery_threshold == 0 || p.recovery_threshold > 100,
        iv("recovery_threshold"@, "OUT_OF_RANGE"@, "恢复阈值必须在 1 到 100 之间"@),
    ) + opt_issue(
        p.degraded_latency_ms == 0 || p.degraded_latency_ms > 600_000,
        iv("degraded_latency_ms"@, "OUT_OF_RANGE"@, "降级延迟阈值必须在 1 到 600000 毫秒之间"@),
    )
}

pub open spec fn health_policy_valid(p: HealthPolicy) -> bool {
    health_policy_issues(p).len() == 0
}

pub open spec fn sat_u32(x: int) -> u32 {
    if x > u32::MAX {
        u32::MAX
    } else {
        x as u32
    }
}

pub open spec fn sat_u64(x: int) -> u64 {
    if x > u64::MAX {
        u64::MAX
    } else {
        x as u64
    }
}

/// The health after one accepted observation.
pub open spec fn observed(h: EndpointHealth, p: HealthPolicy, o: HealthObservation) -> EndpointHealth {
    if o.success {
        let successes = sat_u32(h.consecutive_successes + 1);
        let slow = match o.latency_ms {
            Some(l) => l >= p.degraded_latency_ms,
            None => false,
        };
        EndpointHealth {
            status: if slow || (h.status == HealthStatus::Unhealthy && successes
                < p.recovery_threshold) {
                HealthStatus::Degraded
            } else {
                HealthStatus::Healthy
            },
            consecutive_successes: successes,
            consecutive_failures: 0,
            last_latency_ms: o.latency_ms,
            last_error: None,
            observation_count: sat_u64(h.observation_count + 1),
        }
    } else {
        let failures = sat_u32(h.consecutive_failures + 1);
        EndpointHealth {
            status: if failures >= p.failure_threshold {
                HealthStatus::Unhealthy
            } else {
                HealthStatus::Degraded
            },
            consecutive_successes: 0,
            consecutive_failures: failures,
            last_latency_ms: o.latency_ms,
            last_error: o.error,
            observation_count: sat_u64(h.observation_count + 1),
        }
    }
}

impl Default for HealthPolicy {
    fn default() -> (r: Self)
        ensures
            r == (HealthPolicy {
                schema_version: SCHEMA_VERSION,
                failure_threshold: DEFAULT_FAILURE_THRESHOLD,
                recovery_threshold: DEFAULT_RECOVERY_THRESHOLD,
                degraded_latency_ms: DEFAULT_DEGRADED_LATENCY_MS,
            }),
    {
        HealthPolicy {
            schema_version: SCHEMA_VERSION,
            failure_threshold: DEFAULT_FAILURE_THRESHOLD,
            recovery_threshold: DEFAULT_RECOVERY_THRESHOLD,
            degraded_latency_ms: DEFAULT_DEGRADED_LATENCY_MS,
        }
    }
}

impl HealthPolicy {
    /// Checks the schema version and the threshold ranges.
    pub fn validate(&self) -> (r: Result<(), CoreError>)
        ensures
            r is Ok <==> health_policy_valid(*self),
            r matches Err(e) ==> e.code == ErrorCode::RuntimeConfigInvalid && e.message@
                == "健康策略校验失败"@ && e@.issues == health_policy_issues(*self),
    {
        let mut issues: Vec<ValidationIssue> = Vec::new();
        if self.schema_version != SCHEMA_VERSION {
            issues.push(ValidationIssue::new("schema_version", "UNSUPPORTED_SCHEMA", "健康策略 Schema 版本不受支持"));
        }
        if self.failure_threshold == 0 || self.failure_threshold > 100 {
            issues.push(ValidationIssue::new("failure_threshold", "OUT_OF_RANGE", "失败阈值必须在 1 到 100 之间"));
        }
        if self.recovery_threshold == 0 || self.recovery_threshold > 100 {
            issues.push(ValidationIssue::new("recovery_threshold", "OUT_OF_RANGE", "恢复阈值必须在 1 到 100 之间"));
        }
        if self.degraded_latency_ms == 0 || self.degraded_latency_ms > 600_000 {
            issues.push(ValidationIssue::new("degraded_latency_ms", "OUT_OF_RANGE", "降级延迟阈值必须在 1 到 600000 毫秒之间"));
        }
        assert(issue_views(issues@) =~= health_policy_issues(*self));
        finish(issues, ErrorCode::RuntimeConfigInvalid, "健康策略校验失败")
    }
}

impl EndpointHealth {
    pub fn unknown() -> (r: Self)
        ensures
            r == unknown_health(),
    {
        EndpointHealth {
            status: HealthStatus::Unknown,
            consecutive_successes: 0,
            consecutive_failures: 0,
            last_latency_ms: None,
            last_error: None,
            observation_count: 0,
        }
    }

    /// Applies one real request or probe result and reports the status
    /// change, if any, for notification aggregation.
    pub fn observe(&mut self, policy: &HealthPolicy, observation: HealthObservation) -> (r: Result<Option<HealthChange>, CoreError>)
        ensures
            match r {
                Err(e) => {
                    &&& *final(self) == *old(self)
                    &&& if !health_policy_valid(*policy) {
                        e.code == ErrorCode::RuntimeConfigInvalid && e.message@ == "健康策略校验失败"@
                            && e@.issues == health_policy_issues(*policy)
                    } else {
                        !observation.success && observation.error is None && e.code
                            == ErrorCode::InvalidInput && e.message@ == "失败的健康观察必须包含标准错误"@
                    }
                },
                Ok(change) => {
                    &&& health_policy_valid(*policy)
                    &&& (observation.success || observation.error is Some)
                    &&& *final(self) == observed(*old(self), *policy, observation)
                    &&& change == (if old(self).status != final(self).status {
                        Some(
                            HealthChange {
                                previous: old(self).status,
                                current: final(self).status,
                                observation_count: final(self).observation_count,
                            },
                        )
                    } else {
                        None
                    })
                },
            },
    {
        match policy.validate() {
            Err(e) => {
                return Err(e);
            },
            Ok(()) => {},
        }
        if !observation.success && observation.error.is_none() {
            return Err(CoreError::new(ErrorCode::InvalidInput, "失败的健康观察必须包含标准错误"));
        }
        let previous = self.status;
        self.observation_count = self.observation_count.saturating_add(1);
        self.last_latency_ms = observation.latency_ms;
        if observation.success {
            self.consecutive_successes = self.consecutive_successes.saturating_add(1);
            self.consecutive_failures = 0;
            self.last_error = None;
            let slow = match observation.latency_ms {
                Some(latency) => latency >= policy.degraded_latency_ms,
                None => false,
            };
            self.status = if slow || (previous == HealthStatus::Unhealthy
                && self.consecutive_successes < policy.recovery_threshold) {
                HealthStatus::Degraded
            } else {
                HealthStatus::Healthy
            };
        } else {
            self.consecutive_failures = self.consecutive_failures.saturating_add(1);
            self.consecutive_successes = 0;
            self.last_error = observation.error;
            self.status = if self.consecutive_failures >= policy.failure_threshold {
                HealthStatus::Unhealthy
            } else {
                HealthStatus::Degraded
            };
        }
        if previous != self.status {
            Ok(
                Some(
                    HealthChange {
                        previous,
                        current: self.status,
                        observation_count: self.observation_count,
                    },
                ),
            )
        } else {
            Ok(None)
        }
    }
}

pub open spec fn unknown_health() -> EndpointHealth {
    EndpointHealth {
        status: HealthStatus::Unknown,
        consecutive_successes: 0,
        consecutive_failures: 0,
        last_latency_ms: None,
        last_error: None,
        observation_count: 0,
    }
}

/// The health after `n` failed observations carrying `e`.
pub open spec fn after_failures(h: EndpointHealth, p: HealthPolicy, e: StandardError, n: nat) -> EndpointHealth
    decreases n,
{
    if n == 0 {
        h
    } else {
        observed(
            after_failures(h, p, e, (n - 1) as nat),
            p,
            HealthObservation { success: false, latency_ms: None, error: Some(e) },
        )
    }
}

/// The health after `n` fast successful observations.
pub open spec fn after_fast_successes(h: EndpointHealth, p: HealthPolicy, latency: u64, n: nat) -> EndpointHealth
    decreases n,
{
    if n == 0 {
        h
    } else {
        observed(
            after_fast_successes(h, p, latency, (n - 1) as nat),
            p,
            HealthObservation { success: true, latency_ms: Some(latency), error: None },
        )
    }
}

proof fn lemma_failures_count(h: EndpointHealth, p: HealthPolicy, e: StandardError, n: nat)
    requires
        n >= 1,
        n <= 100,
    ensures
        after_failures(h, p, e, n).consecutive_failures >= n,
        after_failures(h, p, e, n).consecutive_successes == 0,
    decreases n,
{
    if n > 1 {
        lemma_failures_count(h, p, e, (n - 1) as nat);
    }
}

/// Any endpoint becomes unhealthy after `failure_threshold` consecutive
/// failed observations under a valid policy.
pub proof fn law_consecutive_failures_make_unhealthy(h: EndpointHealth, p: HealthPolicy, e: StandardError)
    requires
        health_policy_valid(p),
    ensures
        after_failures(h, p, e, p.failure_threshold as nat).status == HealthStatus::Unhealthy,
{
    lemma_failures_count(h, p, e, p.failure_threshold as nat);
}

/// A single failure below the threshold, from a state without earlier
/// failures, degrades the endpoint rather than marking it unhealthy.
pub proof fn law_first_failure_degrades(h: EndpointHealth, p: HealthPolicy, e: StandardError)
    requires
        health_policy_valid(p),
        h.consecutive_failures == 0,
        p.failure_threshold > 1,
    ensures
        after_failures(h, p, e, 1).status == HealthStatus::Degraded,
{
    reveal_with_fuel(after_failures, 2);
}

/// Recovery from unhealthy takes `recovery_threshold` consecutive fast
/// successes: the endpoint stays degraded before that and is healthy then.
/// (Stated for thresholds up to two: from the second success on, the status
/// no longer remembers that the endpoint was unhealthy.)
pub proof fn law_recovery_takes_threshold_successes(h: EndpointHealth, p: HealthPolicy, latency: u64, n: nat)
    requires
        health_policy_valid(p),
        p.recovery_threshold <= 2,
        h.status == HealthStatus::Unhealthy,
        h.consecutive_successes == 0,
        latency < p.degraded_latency_ms,
        1 <= n <= p.recovery_threshold,
    ensures
        n < p.recovery_threshold ==> after_fast_successes(h, p, latency, n).status
            == HealthStatus::Degraded,
        n == p.recovery_threshold ==> after_fast_successes(h, p, latency, n).status
            == HealthStatus::Healthy,
{
    reveal_with_fuel(after_fast_successes, 3);
}

/// A success at or above the degraded latency always leaves the endpoint
/// degraded.
pub proof fn law_slow_success_degrades(h: EndpointHealth, p: HealthPolicy, latency: u64)
    requires
        latency >= p.degraded_latency_ms,
    ensures
        observed(h, p, HealthObservation { success: true, latency_ms: Some(latency), error: None }).status
            == HealthStatus::Degraded,
{
}

/// A success observed under the degraded latency (or without a latency)
/// makes any endpoint that is not unhealthy healthy at once, whatever
/// failures came before, and clears its failure count.
pub proof fn law_fast_success_restores_health(h: EndpointHealth, p: HealthPolicy, latency: Option<u64>)
    requires
        h.status != HealthStatus::Unhealthy,
        latency matches Some(l) ==> l < p.degraded_latency_ms,
    ensures
        observed(h, p, HealthObservation { success: true, latency_ms: latency, error: None }).status == HealthStatus::Healthy,
        observed(h, p, HealthObservation { success: true, latency_ms: latency, error: None }).consecutive_failures == 0,
        observed(h, p, HealthObservation { success: true, latency_ms: latency, error: None }).last_error is None,
{
}

/// An unhealthy endpoint becomes healthy on the fast success that brings
/// its run of successes to the recovery threshold, and is degraded before.
pub proof fn law_unhealthy_recovers_at_threshold(h: EndpointHealth, p: HealthPolicy, latency: Option<u64>)
    requires
        h.status == HealthStatus::Unhealthy,
        latency matches Some(l) ==> l < p.degraded_latency_ms,
    ensures
        h.consecutive_successes + 1 >= p.recovery_threshold ==> observed(
            h,
            p,
            HealthObservation { success: true, latency_ms: latency, error: None },
        ).status == HealthStatus::Healthy,
        h.consecutive_successes + 1 < p.recovery_threshold ==> observed(
            h,
            p,
            HealthObservation { success: true, latency_ms: latency, error: None },
        ).status == HealthStatus::Degraded,
{
}

/// A failure makes the endpoint unhealthy once its run of failures reaches
/// the failure threshold, and degraded before; it ends any run of
/// successes and records the error.
pub proof fn law_failure_counts_toward_unhealthy(h: EndpointHealth, p: HealthPolicy, e: StandardError, latency: Option<u64>)
    ensures
        h.consecutive_failures + 1 >= p.failure_threshold ==> observed(
            h,
            p,
            HealthObservation { success: false, latency_ms: latency, error: Some(e) },
        ).status == HealthStatus::Unhealthy,
        h.consecutive_failures + 1 < p.failure_threshold ==> observed(
            h,
            p,
            HealthObservation { success: false, latency_ms: latency, error: Some(e) },
        ).status == HealthStatus::Degraded,
        observed(h, p, HealthObservation { success: false, latency_ms: latency, error: Some(e) }).consecutive_successes == 0,
        observed(h, p, HealthObservation { success: false, latency_ms: latency, error: Some(e) }).last_error == Some(e),
{
}

} // verus!
