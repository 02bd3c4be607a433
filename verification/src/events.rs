//! Audit and notification events.
use crate::routing::StandardError;
use vstd::prelude::*;

verus! {

#[derive(Debug, Clone, PartialEq, Eq)]
pub struct AuditEvent {
    pub schema_version: u32,
    pub correlation_id: String,
    pub publisher_id: String,
    pub route_id: String,
    pub public_model: String,
    pub outcome: AuditOutcome,
    pub total_latency_ms: u64,
    pub retry_count: u32,
    pub failover_count: u32,
    pub input_tokens: Option<u64>,
    pub output_tokens: Option<u64>,
    pub cache_hit: Option<bool>,
}

#[derive(Debug, Clone, Copy, PartialEq, Eq, Structural)]
pub enum AuditOutcome {
    Success,
    Failure { error: StandardError },
}

#[derive(Debug, Clone, Copy, PartialEq, Eq, Structural)]
pub enum HealthTransition {
    Healthy,
    Flapping,
    Failed,
    FailedOver,
    Recovered,
}

#[derive(Debug, Clone, PartialEq, Eq)]
pub struct NotificationEvent {
    pub schema_version: u32,
    pub object_id: String,
    pub transition: HealthTransition,
    pub occurrence_count: u32,
    pub summary: String,
}

pub open spec fn sat_add_u32(a: u32, b: u32) -> u32 {
    if a + b > u32::MAX {
        u32::MAX
    } else {
        (a + b) as u32
    }
}

/// Two events merge when they concern the same object and transition.
pub open spec fn mergeable(a: NotificationEvent, b: NotificationEvent) -> bool {
    a.object_id@ == b.object_id@ && a.transition == b.transition
}

impl NotificationEvent {
    /// Merges repeated notifications for the same object and state, so that
    /// requests do not flood the notification centre.
    pub fn merge(self, newer: Self) -> (r: Option<Self>)
        ensures
            match r {
                None => !mergeable(self, newer),
                Some(m) => {
                    &&& mergeable(self, newer)
                    &&& m.schema_version == newer.schema_version
                    &&& m.object_id == newer.object_id
                    &&& m.transition == newer.transition
                    &&& m.summary == newer.summary
                    &&& m.occurrence_count == sat_add_u32(self.occurrence_count, newer.occurrence_count)
                },
            },
    {
        if self.object_id != newer.object_id || self.transition != newer.transition {
            return None;
        }
        Some(
            NotificationEvent {
                schema_version: newer.schema_version,
                object_id: newer.object_id,
                transition: newer.transition,
                occurrence_count: self.occurrence_count.saturating_add(newer.occurrence_count),
                summary: newer.summary,
            },
        )
    }
}

/// Merging counts the occurrences of both events (up to the counter's limit)
/// and keeps the newer summary.
pub proof fn law_merge_adds_occurrences(a: u32, b: u32)
    ensures
        a as int + b as int <= u32::MAX ==> sat_add_u32(a, b) == a + b,
        sat_add_u32(a, b) >= a && sat_add_u32(a, b) >= b,
        sat_add_u32(a, b) == sat_add_u32(b, a),
{
}

} // verus!
