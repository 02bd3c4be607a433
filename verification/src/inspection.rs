//! Provider inspection: which probes may run, how often, and the report that
//! summarises their findings.
use crate::capability::Evidence;
use crate::error::{iv, issue_views, CoreError, ErrorCode, IssueView, ValidationIssue};
use crate::provider::{indexed, indexed_path, ProbeDefinition, ProbeSideEffect};
use crate::routing::opt_issue;
use crate::text::{self, is_blank};
use crate::SCHEMA_VERSION;
use vstd::prelude::*;

verus! {

#[derive(Debug, Clone, Copy, PartialEq, Eq, PartialOrd, Ord, Structural)]
pub enum InspectionDimension {
    Authentication,
    Dns,
    Tls,
    Network,
    Models,
    ProtocolCompatibility,
    Streaming,
    ToolCalling,
    VisionInput,
    StructuredOutput,
    ContextWindow,
    Latency,
    RateLimit,
    BalanceQuota,
}

#[derive(Debug, Clone, Copy, PartialEq, Eq, Structural)]
pub enum InspectionStatus {
    Passed,
    Partial,
    Failed,
    Unsupported,
    Unknown,
    NotRun,
    AuthorizationRequired,
}

#[derive(Debug, Clone, PartialEq, Eq)]
pub struct InspectionFinding {
    pub dimension: InspectionDimension,
    pub status: InspectionStatus,
    pub evidence: Evidence,
    pub latency_ms: Option<u64>,
    pub safe_summary: Option<String>,
    pub declared_value: Option<String>,
    pub verified_value: Option<String>,
}

#[derive(Debug, Clone, Copy, PartialEq, Eq, Structural)]
pub enum InspectionOverall {
    Healthy,
    Degraded,
    Unavailable,
    Unknown,
}

/// A report. `findings` holds at most one finding per dimension, in
/// dimension order.
#[derive(Debug, Clone, PartialEq, Eq)]
pub struct InspectionReport {
    pub schema_version: u32,
    pub provider_id: String,
    pub generated_at_unix_ms: u64,
    pub overall: InspectionOverall,
    pub findings: Vec<InspectionFinding>,
    pub last_success_at_unix_ms: Option<u64>,
    pub consecutive_failures: u32,
}

#[derive(Debug, Clone, Copy, PartialEq, Eq, Default)]
pub struct ProbeAuthorization {
    pub allow_billable: bool,
}

#[derive(Debug, Clone, Copy, PartialEq, Eq)]
pub struct ProbeSchedule {
    pub paused: bool,
    pub minimum_interval_ms: u64,
    pub last_run_at_unix_ms: Option<u64>,
}

pub open spec fn dimension_index(d: InspectionDimension) -> nat {
    match d {
        InspectionDimension::Authentication => 0,
        InspectionDimension::Dns => 1,
        InspectionDimension::Tls => 2,
        InspectionDimension::Network => 3,
        InspectionDimension::Models => 4,
        InspectionDimension::ProtocolCompatibility => 5,
        InspectionDimension::Streaming => 6,
        InspectionDimension::ToolCalling => 7,
        InspectionDimension::VisionInput => 8,
        InspectionDimension::StructuredOutput => 9,
        InspectionDimension::ContextWindow => 10,
        InspectionDimension::Latency => 11,
        InspectionDimension::RateLimit => 12,
        InspectionDimension::BalanceQuota => 13,
    }
}

pub fn dimension_index_exec(d: InspectionDimension) -> (r: u8)
    ensures
        r as nat == dimension_index(d),
{
    match d {
        InspectionDimension::Authentication => 0,
        InspectionDimension::Dns => 1,
        InspectionDimension::Tls => 2,
        InspectionDimension::Network => 3,
        InspectionDimension::Models => 4,
        InspectionDimension::ProtocolCompatibility => 5,
        InspectionDimension::Streaming => 6,
        InspectionDimension::ToolCalling => 7,
        InspectionDimension::VisionInput => 8,
        InspectionDimension::StructuredOutput => 9,
        InspectionDimension::ContextWindow => 10,
        InspectionDimension::Latency => 11,
        InspectionDimension::RateLimit => 12,
        InspectionDimension::BalanceQuota => 13,
    }
}

pub open spec fn schedule_verdict(s: ProbeSchedule, now: u64) -> Option<Seq<char>> {
    if s.paused {
        Some("探测已暂停"@)
    } else if s.minimum_interval_ms == 0 {
        Some("探测最小间隔必须大于零"@)
    } else if s.last_run_at_unix_ms is Some && (if now >= s.last_run_at_unix_ms.unwrap() {
        now - s.last_run_at_unix_ms.unwrap()
    } else {
        0
    }) < s.minimum_interval_ms {
        Some("探测触发过于频繁"@)
    } else {
        None
    }
}

impl ProbeSchedule {
    /// Whether a probe may run at `now_unix_ms`: not paused, a positive
    /// interval, and at least that interval since the last run.
    pub fn allow_at(&self, now_unix_ms: u64) -> (r: Result<(), CoreError>)
        ensures
            match schedule_verdict(*self, now_unix_ms) {
                None => r is Ok,
                Some(m) => r matches Err(e) && e.code == ErrorCode::InvalidInput && e.message@ == m
                    && e.issues@.len() == 0,
            },
    {
        if self.paused {
            return Err(CoreError::new(ErrorCode::InvalidInput, "探测已暂停"));
        }
        if self.minimum_interval_ms == 0 {
            return Err(CoreError::new(ErrorCode::InvalidInput, "探测最小间隔必须大于零"));
        }
        match self.last_run_at_unix_ms {
            Some(last) => {
                if now_unix_ms.saturating_sub(last) < self.minimum_interval_ms {
                    return Err(CoreError::new(ErrorCode::InvalidInput, "探测触发过于频繁"));
                }
            },
            None => {},
        }
        Ok(())
    }
}

pub open spec fn probe_verdict(side_effect: ProbeSideEffect, a: ProbeAuthorization) -> Option<Seq<char>> {
    match side_effect {
        ProbeSideEffect::NoSideEffect => None,
        ProbeSideEffect::Billable => if a.allow_billable {
            None
        } else {
            Some("可计费探测需要用户明确授权"@)
        },
        ProbeSideEffect::Mutating => Some("首版禁止执行具有资源变更副作用的探测"@),
    }
}

/// Whether a probe may run under the given authorization: side-effect free
/// probes always, billable ones only when allowed, mutating ones never.
pub fn authorize_probe(probe: &ProbeDefinition, authorization: ProbeAuthorization) -> (r: Result<(), CoreError>)
    ensures
        match probe_verdict(probe.side_effect, authorization) {
            None => r is Ok,
            Some(m) => r matches Err(e) && e.code == ErrorCode::InvalidInput && e.message@ == m
                && e.issues@.len() == 0,
        },
{
    match probe.side_effect {
        ProbeSideEffect::NoSideEffect => Ok(()),
        ProbeSideEffect::Billable => {
            if authorization.allow_billable {
                Ok(())
            } else {
                Err(CoreError::new(ErrorCode::InvalidInput, "可计费探测需要用户明确授权"))
            }
        },
        ProbeSideEffect::Mutating => Err(CoreError::new(ErrorCode::InvalidInput, "首版禁止执行具有资源变更副作用的探测")),
    }
}

/// The length in bytes of the UTF-8 encoding, as `str::len` reports it.
pub open spec fn utf8_len(s: Seq<char>) -> usize {
    vstd::utf8::encode_utf8(s).len() as usize
}

pub open spec fn summary_too_long(f: InspectionFinding) -> bool {
    match f.safe_summary {
        Some(s) => utf8_len(s@) > 512,
        None => false,
    }
}

pub open spec fn dimension_repeats(fs: Seq<InspectionFinding>, i: int) -> bool {
    exists|j: int| 0 <= j < i && #[trigger] fs[j].dimension == fs[i].dimension
}

pub open spec fn finding_issues_upto(fs: Seq<InspectionFinding>, n: int) -> Seq<IssueView>
    decreases n,
{
    if n <= 0 {
        seq![]
    } else {
        finding_issues_upto(fs, n - 1) + opt_issue(
            summary_too_long(fs[n - 1]),
            iv(indexed("findings"@, n - 1, ".safe_summary"@), "TOO_LONG"@, "体检摘要不能超过 512 个字符"@),
        ) + opt_issue(
            dimension_repeats(fs, n - 1),
            iv(indexed("findings"@, n - 1, ".dimension"@), "DUPLICATE"@, "同一体检维度只能出现一次"@),
        )
    }
}

pub open spec fn report_issues(provider_id: Seq<char>, fs: Seq<InspectionFinding>) -> Seq<IssueView> {
    opt_issue(is_blank(provider_id), iv("provider_id"@, "REQUIRED"@, "Provider ID 不能为空"@))
        + finding_issues_upto(fs, fs.len() as int)
}

/// The findings whose dimension index is below `d`, grouped by dimension in
/// dimension order, each group in input order.
pub open spec fn by_dimension_upto(fs: Seq<InspectionFinding>, d: nat) -> Seq<InspectionFinding>
    decreases d,
{
    if d == 0 {
        seq![]
    } else {
        by_dimension_upto(fs, (d - 1) as nat) + fs.filter(
            |f: InspectionFinding| dimension_index(f.dimension) == d - 1,
        )
    }
}

pub open spec fn by_dimension(fs: Seq<InspectionFinding>) -> Seq<InspectionFinding> {
    by_dimension_upto(fs, 14)
}

pub open spec fn has_status(fs: Seq<InspectionFinding>, d: InspectionDimension, s: InspectionStatus) -> bool {
    exists|i: int| 0 <= i < fs.len() && #[trigger] fs[i].dimension == d && fs[i].status == s
}

pub open spec fn any_status(fs: Seq<InspectionFinding>, s: InspectionStatus) -> bool {
    exists|i: int| 0 <= i < fs.len() && #[trigger] fs[i].status == s
}

/// Authentication or connectivity failures make a provider unavailable; other
/// failures or partial results degrade it; a pass makes it healthy.
pub open spec fn overall_of(fs: Seq<InspectionFinding>) -> InspectionOverall {
    if has_status(fs, InspectionDimension::Authentication, InspectionStatus::Failed) || has_status(
        fs,
        InspectionDimension::Dns,
        InspectionStatus::Failed,
    ) || has_status(fs, InspectionDimension::Tls, InspectionStatus::Failed) || has_status(
        fs,
        InspectionDimension::Network,
        InspectionStatus::Failed,
    ) {
        InspectionOverall::Unavailable
    } else if any_status(fs, InspectionStatus::Failed) || any_status(fs, InspectionStatus::Partial) {
        InspectionOverall::Degraded
    } else if any_status(fs, InspectionStatus::Passed) {
        InspectionOverall::Healthy
    } else {
        InspectionOverall::Unknown
    }
}

fn find_status(fs: &Vec<InspectionFinding>, d: Option<InspectionDimension>, s: InspectionStatus) -> (r: bool)
    ensures
        r == match d {
            Some(d) => has_status(fs@, d, s),
            None => any_status(fs@, s),
        },
{
    let mut i: usize = 0;
    while i < fs.len()
        invariant
            i <= fs@.len(),
            forall|j: int|
                0 <= j < i ==> !(fs@[j].status == s && match d {
                    Some(d) => fs@[j].dimension == d,
                    None => true,
                }),
        decreases fs.len() - i,
    {
        let dim_ok = match d {
            Some(dd) => fs[i].dimension == dd,
            None => true,
        };
        if dim_ok && fs[i].status == s {
            return true;
        }
        i = i + 1;
    }
    false
}

/// The overall health of a set of findings.
pub fn overall_status(fs: &Vec<InspectionFinding>) -> (r: InspectionOverall)
    ensures
        r == overall_of(fs@),
{
    if find_status(fs, Some(InspectionDimension::Authentication), InspectionStatus::Failed)
        || find_status(fs, Some(InspectionDimension::Dns), InspectionStatus::Failed) || find_status(
        fs,
        Some(InspectionDimension::Tls),
        InspectionStatus::Failed,
    ) || find_status(fs, Some(InspectionDimension::Network), InspectionStatus::Failed) {
        InspectionOverall::Unavailable
    } else if find_status(fs, None, InspectionStatus::Failed) || find_status(fs, None, InspectionStatus::Partial) {
        InspectionOverall::Degraded
    } else if find_status(fs, None, InspectionStatus::Passed) {
        InspectionOverall::Healthy
    } else {
        InspectionOverall::Unknown
    }
}

fn copy_opt_string(s: &Option<String>) -> (r: Option<String>)
    ensures
        r == *s,
{
    match s {
        Some(v) => Some(v.clone()),
        None => None,
    }
}

impl InspectionFinding {
    pub fn duplicate(&self) -> (r: Self)
        ensures
            r == *self,
    {
        InspectionFinding {
            dimension: self.dimension,
            status: self.status,
            evidence: self.evidence,
            latency_ms: self.latency_ms,
            safe_summary: copy_opt_string(&self.safe_summary),
            declared_value: copy_opt_string(&self.declared_value),
            verified_value: copy_opt_string(&self.verified_value),
        }
    }
}

fn dimension_seen(fs: &Vec<InspectionFinding>, i: usize) -> (r: bool)
    requires
        i < fs@.len(),
    ensures
        r == dimension_repeats(fs@, i as int),
{
    let mut j: usize = 0;
    while j < i
        invariant
            i < fs@.len(),
            j <= i,
            forall|k: int| 0 <= k < j ==> fs@[k].dimension != fs@[i as int].dimension,
        decreases i - j,
    {
        if fs[j].dimension == fs[i].dimension {
            return true;
        }
        j = j + 1;
    }
    false
}

proof fn lemma_filter_push(s: Seq<InspectionFinding>, x: InspectionFinding, d: nat)
    ensures
        s.push(x).filter(|f: InspectionFinding| dimension_index(f.dimension) == d) == if dimension_index(x.dimension) == d {
            s.filter(|f: InspectionFinding| dimension_index(f.dimension) == d).push(x)
        } else {
            s.filter(|f: InspectionFinding| dimension_index(f.dimension) == d)
        },
{
    reveal(Seq::filter);
    assert(s.push(x).drop_last() == s);
}

/// The findings regrouped in dimension order.
fn sort_by_dimension(fs: &Vec<InspectionFinding>) -> (r: Vec<InspectionFinding>)
    ensures
        r@ == by_dimension(fs@),
{
    let mut out: Vec<InspectionFinding> = Vec::new();
    let mut d: u8 = 0;
    while d < 14
        invariant
            d <= 14,
            out@ == by_dimension_upto(fs@, d as nat),
        decreases 14 - d,
    {
        let ghost start = out@;
        let mut i: usize = 0;
        while i < fs.len()
            invariant
                d < 14,
                i <= fs@.len(),
                out@ == start + fs@.subrange(0, i as int).filter(
                    |f: InspectionFinding| dimension_index(f.dimension) == d as nat,
                ),
            decreases fs.len() - i,
        {
            proof {
                lemma_filter_push(fs@.subrange(0, i as int), fs@[i as int], d as nat);
                assert(fs@.subrange(0, i as int).push(fs@[i as int]) == fs@.subrange(0, i + 1));
            }
            if dimension_index_exec(fs[i].dimension) == d {
                out.push(fs[i].duplicate());
            }
            i = i + 1;
        }
        assert(fs@.subrange(0, fs@.len() as int) == fs@);
        d = d + 1;
    }
    out
}

pub open spec fn report_of(
    provider_id: Seq<char>,
    generated_at: u64,
    fs: Seq<InspectionFinding>,
    last_success: Option<u64>,
    failures: u32,
    r: InspectionReport,
) -> bool {
    &&& r.schema_version == SCHEMA_VERSION
    &&& r.provider_id@ == provider_id
    &&& r.generated_at_unix_ms == generated_at
    &&& r.findings@ == by_dimension(fs)
    &&& r.overall == overall_of(by_dimension(fs))
    &&& r.last_success_at_unix_ms == last_success
    &&& r.consecutive_failures == failures
}

impl InspectionReport {
    /// Builds a report from probe findings and computes the overall health.
    pub fn build(
        provider_id: &str,
        generated_at_unix_ms: u64,
        findings: Vec<InspectionFinding>,
        last_success_at_unix_ms: Option<u64>,
        consecutive_failures: u32,
    ) -> (r: Result<Self, CoreError>)
        ensures
            match r {
                Ok(report) => report_issues(provider_id@, findings@).len() == 0 && report_of(
                    provider_id@,
                    generated_at_unix_ms,
                    findings@,
                    last_success_at_unix_ms,
                    consecutive_failures,
                    report,
                ),
                Err(e) => report_issues(provider_id@, findings@).len() > 0 && e.code
                    == ErrorCode::InvalidInput && e.message@ == "体检报告校验失败"@ && e@.issues
                    == report_issues(provider_id@, findings@),
            },
    {
        let mut issues: Vec<ValidationIssue> = Vec::new();
        if text::is_blank_str(provider_id) {
            issues.push(ValidationIssue::new("provider_id", "REQUIRED", "Provider ID 不能为空"));
        }
        let ghost g0 = issue_views(issues@);
        let mut i: usize = 0;
        while i < findings.len()
            invariant
                i <= findings@.len(),
                issue_views(issues@) == g0 + finding_issues_upto(findings@, i as int),
            decreases findings.len() - i,
        {
            let ghost before = issue_views(issues@);
            let too_long = match &findings[i].safe_summary {
                Some(summary) => summary.as_str().len() > 512,
                None => false,
            };
            if too_long {
                issues.push(ValidationIssue::at(indexed_path("findings", i, ".safe_summary"), "TOO_LONG", "体检摘要不能超过 512 个字符"));
            }
            let ghost mid = issue_views(issues@);
            assert(mid =~= before + opt_issue(
                summary_too_long(findings@[i as int]),
                iv(indexed("findings"@, i as int, ".safe_summary"@), "TOO_LONG"@, "体检摘要不能超过 512 个字符"@),
            ));
            if dimension_seen(&findings, i) {
                issues.push(ValidationIssue::at(indexed_path("findings", i, ".dimension"), "DUPLICATE", "同一体检维度只能出现一次"));
            }
            assert(issue_views(issues@) =~= mid + opt_issue(
                dimension_repeats(findings@, i as int),
                iv(indexed("findings"@, i as int, ".dimension"@), "DUPLICATE"@, "同一体检维度只能出现一次"@),
            ));
            i = i + 1;
        }
        assert(issue_views(issues@) =~= report_issues(provider_id@, findings@));
        if issues.len() > 0 {
            return Err(CoreError::validation(ErrorCode::InvalidInput, "体检报告校验失败", issues));
        }
        let sorted = sort_by_dimension(&findings);
        let overall = overall_status(&sorted);
        Ok(InspectionReport {
            schema_version: SCHEMA_VERSION,
            provider_id: provider_id.to_owned(),
            generated_at_unix_ms,
            overall,
            findings: sorted,
            last_success_at_unix_ms,
            consecutive_failures,
        })
    }

    /// The finding recorded for a dimension, if any.
    pub fn finding(&self, dimension: InspectionDimension) -> (r: Option<&InspectionFinding>)
        ensures
            match r {
                Some(f) => f.dimension == dimension && self.findings@.contains(*f),
                None => forall|i: int| 0 <= i < self.findings@.len() ==> #[trigger] self.findings@[i].dimension != dimension,
            },
    {
        let mut i: usize = 0;
        while i < self.findings.len()
            invariant
                i <= self.findings@.len(),
                forall|j: int| 0 <= j < i ==> #[trigger] self.findings@[j].dimension != dimension,
            decreases self.findings.len() - i,
        {
            if self.findings[i].dimension == dimension {
                return Some(&self.findings[i]);
            }
            i = i + 1;
        }
        None
    }
}

/// A probe that is paused or was run less than the minimum interval ago is
/// never allowed.
pub proof fn law_schedule_rate_limit(s: ProbeSchedule, now: u64)
    requires
        s.last_run_at_unix_ms is Some,
        now >= s.last_run_at_unix_ms.unwrap(),
        now - s.last_run_at_unix_ms.unwrap() < s.minimum_interval_ms,
    ensures
        schedule_verdict(s, now) is Some,
{
}

/// A billable probe never runs without explicit authorization, and a
/// mutating probe never runs at all.
pub proof fn law_probe_authorization(a: ProbeAuthorization)
    ensures
        !a.allow_billable ==> probe_verdict(ProbeSideEffect::Billable, a) is Some,
        probe_verdict(ProbeSideEffect::Mutating, a) is Some,
        probe_verdict(ProbeSideEffect::NoSideEffect, a) is None,
{
}

} // verus!
