//! Capability manifests: which protocols, capabilities and public models a
//! routing source offers, with the evidence behind each claim.
use crate::error::{finish, iv, issue_views, CoreError, ErrorCode, IssueView, ValidationIssue};
use crate::keyed::{find_key, has_key, insert_position, keys_sorted, lemma_insert_sorted, pairs_map, put_pair, sorted_pairs};
use crate::simulation::{insert_sorted_unique, strictly_sorted};
use crate::sort::str_views;
use crate::routing::opt_issue;
use crate::text::{self, is_blank};
use crate::SCHEMA_VERSION;
use vstd::prelude::*;

verus! {

/// A manifest. The three collections are keyed lists: `protocols` is a set of
/// names, `capabilities` and `models` map a name to its entry.
#[derive(Debug, Clone, PartialEq, Eq)]
pub struct CapabilityManifest {
    pub schema_version: u32,
    pub source_id: String,
    pub protocols: Vec<String>,
    pub capabilities: Vec<(String, Capability)>,
    pub models: Vec<(String, ModelCapability)>,
}

#[derive(Debug, Clone, PartialEq, Eq)]
pub struct Capability {
    pub support: SupportLevel,
    pub evidence: Evidence,
    pub attributes: Vec<(String, String)>,
}

#[derive(Debug, Clone, Copy, PartialEq, Eq, PartialOrd, Ord, Structural)]
pub enum SupportLevel {
    Unsupported,
    Unknown,
    Partial,
    Supported,
}

#[derive(Debug, Clone, Copy, PartialEq, Eq, Structural)]
pub enum Evidence {
    Verified,
    ProviderDeclared,
    AdapterInferred,
    UserDeclared,
    Unknown,
    VerificationFailed,
}

#[derive(Debug, Clone, PartialEq, Eq)]
pub struct ModelCapability {
    pub public_name: String,
    pub health: ModelHealth,
    pub evidence: Evidence,
    pub upstreams: Vec<String>,
}

#[derive(Debug, Clone, Copy, PartialEq, Eq, Structural)]
pub enum ModelHealth {
    Available,
    Degraded,
    Unavailable,
    Unknown,
}

pub open spec fn model_key_issues_upto(models: Seq<(String, ModelCapability)>, n: int) -> Seq<IssueView>
    decreases n,
{
    if n <= 0 {
        seq![]
    } else {
        model_key_issues_upto(models, n - 1) + opt_issue(
            models[n - 1].0@ != models[n - 1].1.public_name@,
            iv("models."@ + models[n - 1].0@ + ".public_name"@, "KEY_MISMATCH"@, "模型映射键必须与 public_name 一致"@),
        )
    }
}

/// The issues that manifest validation reports, in order.
pub open spec fn capability_issues(m: CapabilityManifest) -> Seq<IssueView> {
    opt_issue(
        m.schema_version != SCHEMA_VERSION,
        iv("schema_version"@, "UNSUPPORTED_SCHEMA"@, "Capability Manifest Schema 版本不受支持"@),
    ) + opt_issue(is_blank(m.source_id@), iv("source_id"@, "REQUIRED"@, "能力来源不能为空"@))
        + model_key_issues_upto(m.models@, m.models@.len() as int)
}

/// The better of two model health states: available wins, then degraded,
/// and unknown yields to the other side.
pub open spec fn merged_health(l: ModelHealth, r: ModelHealth) -> ModelHealth {
    if l == ModelHealth::Available || r == ModelHealth::Available {
        ModelHealth::Available
    } else if l == ModelHealth::Degraded || r == ModelHealth::Degraded {
        ModelHealth::Degraded
    } else if l == ModelHealth::Unknown {
        r
    } else if r == ModelHealth::Unknown {
        l
    } else {
        ModelHealth::Unavailable
    }
}

pub fn merge_health(left: ModelHealth, right: ModelHealth) -> (r: ModelHealth)
    ensures
        r == merged_health(left, right),
{
    match (left, right) {
        (ModelHealth::Available, _) | (_, ModelHealth::Available) => ModelHealth::Available,
        (ModelHealth::Degraded, _) | (_, ModelHealth::Degraded) => ModelHealth::Degraded,
        (ModelHealth::Unknown, other) | (other, ModelHealth::Unknown) => other,
        (ModelHealth::Unavailable, ModelHealth::Unavailable) => ModelHealth::Unavailable,
    }
}

/// Merging health is symmetric and never worse than either side's
/// availability.
pub proof fn law_merge_health_commutes(l: ModelHealth, r: ModelHealth)
    ensures
        merged_health(l, r) == merged_health(r, l),
        merged_health(l, r) == merged_health(merged_health(l, r), r),
        (l == ModelHealth::Available || r == ModelHealth::Available) ==> merged_health(l, r)
            == ModelHealth::Available,
{
}

impl CapabilityManifest {
    /// Checks the schema, the source id and that every model key matches
    /// the model's public name.
    pub fn validate(&self) -> (r: Result<(), CoreError>)
        ensures
            r is Ok <==> capability_issues(*self).len() == 0,
            r matches Err(e) ==> e.code == ErrorCode::InvalidInput && e.message@
                == "Capability Manifest 校验失败"@ && e@.issues == capability_issues(*self),
    {
        let mut issues: Vec<ValidationIssue> = Vec::new();
        if self.schema_version != SCHEMA_VERSION {
            issues.push(ValidationIssue::new("schema_version", "UNSUPPORTED_SCHEMA", "Capability Manifest Schema 版本不受支持"));
        }
        if text::is_blank_str(self.source_id.as_str()) {
            issues.push(ValidationIssue::new("source_id", "REQUIRED", "能力来源不能为空"));
        }
        let ghost g0 = issue_views(issues@);
        let mut i: usize = 0;
        while i < self.models.len()
            invariant
                i <= self.models@.len(),
                issue_views(issues@) == g0 + model_key_issues_upto(self.models@, i as int),
            decreases self.models.len() - i,
        {
            let ghost before = issue_views(issues@);
            let entry = &self.models[i];
            if entry.0 != entry.1.public_name {
                let mut path = String::new();
                text::push_str(&mut path, "models.");
                text::push_str(&mut path, entry.0.as_str());
                text::push_str(&mut path, ".public_name");
                issues.push(ValidationIssue::at(path, "KEY_MISMATCH", "模型映射键必须与 public_name 一致"));
            }
            assert(issue_views(issues@) =~= before + opt_issue(
                self.models@[i as int].0@ != self.models@[i as int].1.public_name@,
                iv("models."@ + self.models@[i as int].0@ + ".public_name"@, "KEY_MISMATCH"@, "模型映射键必须与 public_name 一致"@),
            ));
            i = i + 1;
        }
        assert(issue_views(issues@) =~= capability_issues(*self));
        finish(issues, ErrorCode::InvalidInput, "Capability Manifest 校验失败")
    }
}

/// The order of support levels: unsupported, unknown, partial, supported.
pub open spec fn support_rank(s: SupportLevel) -> int {
    match s {
        SupportLevel::Unsupported => 0,
        SupportLevel::Unknown => 1,
        SupportLevel::Partial => 2,
        SupportLevel::Supported => 3,
    }
}

fn support_rank_exec(s: SupportLevel) -> (r: u8)
    ensures
        r == support_rank(s),
{
    match s {
        SupportLevel::Unsupported => 0,
        SupportLevel::Unknown => 1,
        SupportLevel::Partial => 2,
        SupportLevel::Supported => 3,
    }
}

/// A merged capability: its support and the evidence for it, and its
/// attributes.
pub struct CapAcc {
    pub support: SupportLevel,
    pub evidence: Evidence,
    pub attrs: Map<Seq<char>, Seq<char>>,
}

/// The attributes written in order over a map.
pub open spec fn pairs_into(m: Map<Seq<char>, Seq<char>>, l: Seq<(String, String)>) -> Map<Seq<char>, Seq<char>>
    decreases l.len(),
{
    if l.len() == 0 {
        m
    } else {
        pairs_into(m, l.drop_last()).insert(l.last().0@, l.last().1@)
    }
}

pub open spec fn cap_init(c: Capability) -> CapAcc {
    CapAcc { support: c.support, evidence: c.evidence, attrs: pairs_map(c.attributes@) }
}

/// A stronger support level replaces the support and its evidence; at the
/// same support level, evidence that is not unknown replaces unknown
/// evidence; the attributes are extended, later values winning.
pub open spec fn cap_step(a: CapAcc, c: Capability) -> CapAcc {
    let stronger = support_rank(c.support) > support_rank(a.support) || (support_rank(c.support) == support_rank(
        a.support,
    ) && a.evidence == Evidence::Unknown);
    CapAcc {
        support: if stronger {
            c.support
        } else {
            a.support
        },
        evidence: if stronger {
            c.evidence
        } else {
            a.evidence
        },
        attrs: pairs_into(a.attrs, c.attributes@),
    }
}

/// The merge of the first `n` entries stored under a name.
pub open spec fn cap_acc(es: Seq<(String, Capability)>, name: Seq<char>, n: int) -> Option<CapAcc>
    decreases n,
{
    if n <= 0 {
        None
    } else {
        let prev = cap_acc(es, name, n - 1);
        if es[n - 1].0@ == name {
            Some(
                match prev {
                    None => cap_init(es[n - 1].1),
                    Some(a) => cap_step(a, es[n - 1].1),
                },
            )
        } else {
            prev
        }
    }
}

pub open spec fn cap_matches(c: Capability, a: CapAcc) -> bool {
    c.support == a.support && c.evidence == a.evidence && keys_sorted(c.attributes@) && pairs_map(c.attributes@) == a.attrs
}

/// A sorted keyed list holding, for each name among the entries, their
/// merge.
pub open spec fn caps_merged(l: Seq<(String, Capability)>, es: Seq<(String, Capability)>) -> bool {
    &&& keys_sorted(l)
    &&& forall|x: Seq<char>| #[trigger] has_key(l, x) <==> cap_acc(es, x, es.len() as int) is Some
    &&& forall|j: int| 0 <= j < l.len() ==> (cap_acc(es, (#[trigger] l[j]).0@, es.len() as int) matches Some(a) && cap_matches(l[j].1, a))
}

/// A merged public model: the public name first seen, the best health, the
/// first evidence that is not unknown, and every upstream.
pub struct ModelAcc {
    pub public_name: Seq<char>,
    pub health: ModelHealth,
    pub evidence: Evidence,
    pub upstreams: Set<Seq<char>>,
}

pub open spec fn model_init(m: ModelCapability) -> ModelAcc {
    ModelAcc { public_name: m.public_name@, health: m.health, evidence: m.evidence, upstreams: str_views(m.upstreams@).to_set() }
}

pub open spec fn model_step(a: ModelAcc, m: ModelCapability) -> ModelAcc {
    ModelAcc {
        public_name: a.public_name,
        health: merged_health(a.health, m.health),
        evidence: if a.evidence == Evidence::Unknown {
            m.evidence
        } else {
            a.evidence
        },
        upstreams: a.upstreams + str_views(m.upstreams@).to_set(),
    }
}

pub open spec fn model_acc(es: Seq<(String, ModelCapability)>, name: Seq<char>, n: int) -> Option<ModelAcc>
    decreases n,
{
    if n <= 0 {
        None
    } else {
        let prev = model_acc(es, name, n - 1);
        if es[n - 1].0@ == name {
            Some(
                match prev {
                    None => model_init(es[n - 1].1),
                    Some(a) => model_step(a, es[n - 1].1),
                },
            )
        } else {
            prev
        }
    }
}

pub open spec fn model_matches(m: ModelCapability, a: ModelAcc) -> bool {
    &&& m.public_name@ == a.public_name
    &&& m.health == a.health
    &&& m.evidence == a.evidence
    &&& strictly_sorted(str_views(m.upstreams@))
    &&& forall|u: Seq<char>| str_views(m.upstreams@).contains(u) <==> a.upstreams.contains(u)
}

pub open spec fn models_merged(l: Seq<(String, ModelCapability)>, es: Seq<(String, ModelCapability)>) -> bool {
    &&& keys_sorted(l)
    &&& forall|x: Seq<char>| #[trigger] has_key(l, x) <==> model_acc(es, x, es.len() as int) is Some
    &&& forall|j: int| 0 <= j < l.len() ==> (model_acc(es, (#[trigger] l[j]).0@, es.len() as int) matches Some(a) && model_matches(l[j].1, a))
}

/// The capability entries of the first `n` manifests, in order.
pub open spec fn cap_entries(ms: Seq<CapabilityManifest>, n: int) -> Seq<(String, Capability)>
    decreases n,
{
    if n <= 0 {
        seq![]
    } else {
        cap_entries(ms, n - 1) + ms[n - 1].capabilities@
    }
}

pub open spec fn model_entries(ms: Seq<CapabilityManifest>, n: int) -> Seq<(String, ModelCapability)>
    decreases n,
{
    if n <= 0 {
        seq![]
    } else {
        model_entries(ms, n - 1) + ms[n - 1].models@
    }
}

/// A protocol named by one of the first `n` manifests.
pub open spec fn offers_protocol(ms: Seq<CapabilityManifest>, p: Seq<char>, n: int) -> bool {
    exists|i: int| 0 <= i < n && i < ms.len() && str_views(#[trigger] ms[i].protocols@).contains(p)
}

/// The first manifest that does not validate.
pub open spec fn first_invalid(ms: Seq<CapabilityManifest>) -> Option<int> {
    if exists|i: int| 0 <= i < ms.len() && capability_issues(#[trigger] ms[i]).len() > 0 {
        Some(choose|i: int| 0 <= i < ms.len() && capability_issues(#[trigger] ms[i]).len() > 0 && forall|j: int|
            0 <= j < i ==> capability_issues(#[trigger] ms[j]).len() == 0)
    } else {
        None
    }
}

/// What merging valid manifests gives under the source id.
pub open spec fn merged_is(m: CapabilityManifest, source_id: Seq<char>, ms: Seq<CapabilityManifest>) -> bool {
    &&& m.schema_version == SCHEMA_VERSION
    &&& m.source_id@ == source_id
    &&& strictly_sorted(str_views(m.protocols@))
    &&& forall|p: Seq<char>| str_views(m.protocols@).contains(p) <==> offers_protocol(ms, p, ms.len() as int)
    &&& caps_merged(m.capabilities@, cap_entries(ms, ms.len() as int))
    &&& models_merged(m.models@, model_entries(ms, ms.len() as int))
}

/// Adds every name of `more` to a strictly sorted list.
fn union_into(v: &mut Vec<String>, more: &Vec<String>)
    requires
        strictly_sorted(str_views(old(v)@)),
    ensures
        strictly_sorted(str_views(final(v)@)),
        forall|u: Seq<char>| #![trigger str_views(final(v)@).contains(u)]
            str_views(final(v)@).contains(u) <==> (str_views(old(v)@).contains(u) || str_views(more@).contains(u)),
{
    let ghost start = str_views(v@);
    let ghost mv = str_views(more@);
    let mut i: usize = 0;
    while i < more.len()
        invariant
            i <= more@.len(),
            mv == str_views(more@),
            strictly_sorted(str_views(v@)),
            forall|u: Seq<char>| #![trigger str_views(v@).contains(u)]
                str_views(v@).contains(u) <==> (start.contains(u) || mv.take(i as int).contains(u)),
        decreases more.len() - i,
    {
        insert_sorted_unique(v, more[i].clone());
        proof {
            let t0 = mv.take(i as int);
            let t1 = mv.take(i + 1);
            assert(t1 =~= t0.push(mv[i as int]));
            assert forall|u: Seq<char>| #![trigger str_views(v@).contains(u)]
                str_views(v@).contains(u) <==> (start.contains(u) || t1.contains(u)) by {
                if t1.contains(u) && !t0.contains(u) {
                    let m = choose|m: int| 0 <= m < t1.len() && #[trigger] t1[m] == u;
                    if m < i {
                        assert(t0[m] == u);
                    }
                }
                if t0.contains(u) {
                    let m = choose|m: int| 0 <= m < t0.len() && #[trigger] t0[m] == u;
                    assert(t1[m] == u);
                }
                if u == mv[i as int] {
                    assert(t1[i as int] == u);
                }
            }
        }
        i = i + 1;
    }
    assert(mv.take(more@.len() as int) =~= mv);
}

proof fn lemma_cap_acc_push(es: Seq<(String, Capability)>, e: (String, Capability), x: Seq<char>, n: int)
    requires
        0 <= n <= es.len(),
    ensures
        cap_acc(es.push(e), x, n) == cap_acc(es, x, n),
    decreases n,
{
    if n > 0 {
        lemma_cap_acc_push(es, e, x, n - 1);
        assert(es.push(e)[n - 1] == es[n - 1]);
    }
}

proof fn lemma_model_acc_push(es: Seq<(String, ModelCapability)>, e: (String, ModelCapability), x: Seq<char>, n: int)
    requires
        0 <= n <= es.len(),
    ensures
        model_acc(es.push(e), x, n) == model_acc(es, x, n),
    decreases n,
{
    if n > 0 {
        lemma_model_acc_push(es, e, x, n - 1);
        assert(es.push(e)[n - 1] == es[n - 1]);
    }
}

fn copy_capability_attrs(cur: &Capability, c: &Capability) -> (r: Vec<(String, String)>)
    requires
        keys_sorted(cur.attributes@),
    ensures
        keys_sorted(r@),
        pairs_map(r@) == pairs_into(pairs_map(cur.attributes@), c.attributes@),
{
    let mut attrs = sorted_pairs(&cur.attributes);
    let ghost base = pairs_map(cur.attributes@);
    let mut k: usize = 0;
    assert(pairs_into(base, c.attributes@.take(0)) == base);
    while k < c.attributes.len()
        invariant
            k <= c.attributes@.len(),
            keys_sorted(attrs@),
            pairs_map(attrs@) == pairs_into(base, c.attributes@.take(k as int)),
        decreases c.attributes.len() - k,
    {
        put_pair(&mut attrs, c.attributes[k].0.clone(), c.attributes[k].1.clone());
        assert(c.attributes@.take(k + 1).drop_last() =~= c.attributes@.take(k as int));
        k = k + 1;
    }
    assert(c.attributes@.take(c.attributes@.len() as int) =~= c.attributes@);
    attrs
}

/// Merges one capability entry into the merged list.
#[verifier::rlimit(40)]
fn merge_capability(l: &mut Vec<(String, Capability)>, entry: &(String, Capability), Ghost(es): Ghost<Seq<(String, Capability)>>)
    requires
        caps_merged(old(l)@, es),
    ensures
        caps_merged(final(l)@, es.push(*entry)),
{
    let ghost before = l@;
    let ghost es2 = es.push(*entry);
    let ghost n = es.len() as int;
    let name = &entry.0;
    let c = &entry.1;
    proof {
        assert forall|x: Seq<char>| #[trigger] cap_acc(es2, x, n + 1) == (if name@ == x {
            Some(
                match cap_acc(es, x, n) {
                    None => cap_init(*c),
                    Some(a) => cap_step(a, *c),
                },
            )
        } else {
            cap_acc(es, x, n)
        }) by {
            lemma_cap_acc_push(es, *entry, x, n);
            assert(es2[n] == *entry);
        }
    }
    match find_key(l, name.as_str()) {
        Some(j) => {
            let cur = &l[j].1;
            let ghost a = cap_acc(es, l@[j as int].0@, n)->Some_0;
            assert(cap_matches(*cur, a));
            let rank_new = support_rank_exec(c.support);
            let rank_cur = support_rank_exec(cur.support);
            let stronger = rank_new > rank_cur || (rank_new == rank_cur && cur.evidence == Evidence::Unknown);
            let attributes = copy_capability_attrs(cur, c);
            let merged = Capability {
                support: if stronger {
                    c.support
                } else {
                    cur.support
                },
                evidence: if stronger {
                    c.evidence
                } else {
                    cur.evidence
                },
                attributes,
            };
            let ghost mg = merged;
            l.set(j, (name.clone(), merged));
            proof {
                let after = l@;
                assert(cap_matches(mg, cap_step(a, *c)));
                assert forall|p: int, q: int| 0 <= p < q < after.len() implies seq_lt_keys(after, p, q) by {
                    assert(after[p].0@ == before[p].0@ && after[q].0@ == before[q].0@);
                }
                assert forall|x: Seq<char>| #[trigger] has_key(after, x) <==> cap_acc(es2, x, es2.len() as int) is Some by {
                    if has_key(after, x) {
                        let t = choose|t: int| 0 <= t < after.len() && #[trigger] after[t].0@ == x;
                        assert(before[t].0@ == x);
                    }
                    if has_key(before, x) {
                        let t = choose|t: int| 0 <= t < before.len() && #[trigger] before[t].0@ == x;
                        assert(after[t].0@ == x);
                    }
                    if x == name@ {
                        assert(after[j as int].0@ == x);
                    }
                }
                assert forall|t: int| 0 <= t < after.len() implies (cap_acc(es2, (#[trigger] after[t]).0@, es2.len() as int) matches Some(b)
                    && cap_matches(after[t].1, b)) by {
                    if t != j {
                        assert(after[t] == before[t]);
                        if before[t].0@ == name@ {
                            if t < j {
                                assert(crate::text::seq_lt(before[t].0@, before[j as int].0@));
                            } else {
                                assert(crate::text::seq_lt(before[j as int].0@, before[t].0@));
                            }
                            crate::text::lemma_seq_lt_irreflexive(name@);
                        }
                    }
                }
            }
        },
        None => {
            let p = insert_position(l, name.as_str());
            let fresh = Capability { support: c.support, evidence: c.evidence, attributes: sorted_pairs(&c.attributes) };
            let ghost e = (*name, fresh);
            l.insert(p, (name.clone(), fresh));
            proof {
                let after = l@;
                assert(after[p as int].0@ == name@);
                lemma_insert_sorted(before, p as int, after[p as int]);
                assert(after =~= before.insert(p as int, after[p as int]));
                assert(cap_acc(es, name@, n) is None);
                assert forall|x: Seq<char>| #[trigger] has_key(after, x) <==> cap_acc(es2, x, es2.len() as int) is Some by {
                    if has_key(after, x) {
                        let t = choose|t: int| 0 <= t < after.len() && #[trigger] after[t].0@ == x;
                        if t < p {
                            assert(before[t].0@ == x);
                        } else if t > p {
                            assert(before[t - 1].0@ == x);
                        }
                    }
                    if has_key(before, x) {
                        let t = choose|t: int| 0 <= t < before.len() && #[trigger] before[t].0@ == x;
                        if t < p {
                            assert(after[t].0@ == x);
                        } else {
                            assert(after[t + 1].0@ == x);
                        }
                    }
                }
                assert forall|t: int| 0 <= t < after.len() implies (cap_acc(es2, (#[trigger] after[t]).0@, es2.len() as int) matches Some(b)
                    && cap_matches(after[t].1, b)) by {
                    if t < p {
                        assert(after[t] == before[t]);
                        assert(before[t].0@ != name@);
                    } else if t > p {
                        assert(after[t] == before[t - 1]);
                        assert(before[t - 1].0@ != name@);
                    }
                }
            }
        },
    }
}

pub open spec fn seq_lt_keys(l: Seq<(String, Capability)>, p: int, q: int) -> bool {
    crate::text::seq_lt(l[p].0@, l[q].0@)
}

/// Merges one model entry into the merged list.
#[verifier::rlimit(40)]
fn merge_model(l: &mut Vec<(String, ModelCapability)>, entry: &(String, ModelCapability), Ghost(es): Ghost<Seq<(String, ModelCapability)>>)
    requires
        models_merged(old(l)@, es),
    ensures
        models_merged(final(l)@, es.push(*entry)),
{
    let ghost before = l@;
    let ghost es2 = es.push(*entry);
    let ghost n = es.len() as int;
    let name = &entry.0;
    let m = &entry.1;
    proof {
        assert forall|x: Seq<char>| #[trigger] model_acc(es2, x, n + 1) == (if name@ == x {
            Some(
                match model_acc(es, x, n) {
                    None => model_init(*m),
                    Some(a) => model_step(a, *m),
                },
            )
        } else {
            model_acc(es, x, n)
        }) by {
            lemma_model_acc_push(es, *entry, x, n);
            assert(es2[n] == *entry);
        }
    }
    match find_key(l, name.as_str()) {
        Some(j) => {
            let cur = &l[j].1;
            let ghost a = model_acc(es, l@[j as int].0@, n)->Some_0;
            assert(model_matches(*cur, a));
            let mut upstreams: Vec<String> = Vec::new();
            assert(str_views(upstreams@) =~= seq![]);
            union_into(&mut upstreams, &cur.upstreams);
            union_into(&mut upstreams, &m.upstreams);
            let merged = ModelCapability {
                public_name: cur.public_name.clone(),
                health: merge_health(cur.health, m.health),
                evidence: if cur.evidence == Evidence::Unknown {
                    m.evidence
                } else {
                    cur.evidence
                },
                upstreams,
            };
            let ghost mg = merged;
            l.set(j, (name.clone(), merged));
            proof {
                let after = l@;
                let b = model_step(a, *m);
                assert forall|u: Seq<char>| str_views(mg.upstreams@).contains(u) <==> b.upstreams.contains(u) by {
                    assert(str_views(m.upstreams@).to_set().contains(u) == str_views(m.upstreams@).contains(u));
                }
                assert(model_matches(mg, b));
                assert forall|p: int, q: int| 0 <= p < q < after.len() implies crate::text::seq_lt(#[trigger] after[p].0@, #[trigger] after[q].0@) by {
                    assert(after[p].0@ == before[p].0@ && after[q].0@ == before[q].0@);
                }
                assert forall|x: Seq<char>| #[trigger] has_key(after, x) <==> model_acc(es2, x, es2.len() as int) is Some by {
                    if has_key(after, x) {
                        let t = choose|t: int| 0 <= t < after.len() && #[trigger] after[t].0@ == x;
                        assert(before[t].0@ == x);
                    }
                    if has_key(before, x) {
                        let t = choose|t: int| 0 <= t < before.len() && #[trigger] before[t].0@ == x;
                        assert(after[t].0@ == x);
                    }
                    if x == name@ {
                        assert(after[j as int].0@ == x);
                    }
                }
                assert forall|t: int| 0 <= t < after.len() implies (model_acc(es2, (#[trigger] after[t]).0@, es2.len() as int) matches Some(c)
                    && model_matches(after[t].1, c)) by {
                    if t != j {
                        assert(after[t] == before[t]);
                        if before[t].0@ == name@ {
                            if t < j {
                                assert(crate::text::seq_lt(before[t].0@, before[j as int].0@));
                            } else {
                                assert(crate::text::seq_lt(before[j as int].0@, before[t].0@));
                            }
                            crate::text::lemma_seq_lt_irreflexive(name@);
                        }
                    }
                }
            }
        },
        None => {
            let p = insert_position(l, name.as_str());
            let mut upstreams: Vec<String> = Vec::new();
            assert(str_views(upstreams@) =~= seq![]);
            union_into(&mut upstreams, &m.upstreams);
            let fresh = ModelCapability { public_name: m.public_name.clone(), health: m.health, evidence: m.evidence, upstreams };
            let ghost fr = fresh;
            l.insert(p, (name.clone(), fresh));
            proof {
                let after = l@;
                assert forall|u: Seq<char>| str_views(fr.upstreams@).contains(u) <==> model_init(*m).upstreams.contains(u) by {
                    assert(str_views(m.upstreams@).to_set().contains(u) == str_views(m.upstreams@).contains(u));
                }
                assert(model_matches(fr, model_init(*m)));
                assert(after[p as int].0@ == name@);
                lemma_insert_sorted(before, p as int, after[p as int]);
                assert(after =~= before.insert(p as int, after[p as int]));
                assert forall|x: Seq<char>| #[trigger] has_key(after, x) <==> model_acc(es2, x, es2.len() as int) is Some by {
                    if has_key(after, x) {
                        let t = choose|t: int| 0 <= t < after.len() && #[trigger] after[t].0@ == x;
                        if t < p {
                            assert(before[t].0@ == x);
                        } else if t > p {
                            assert(before[t - 1].0@ == x);
                        }
                    }
                    if has_key(before, x) {
                        let t = choose|t: int| 0 <= t < before.len() && #[trigger] before[t].0@ == x;
                        if t < p {
                            assert(after[t].0@ == x);
                        } else {
                            assert(after[t + 1].0@ == x);
                        }
                    }
                }
                assert forall|t: int| 0 <= t < after.len() implies (model_acc(es2, (#[trigger] after[t]).0@, es2.len() as int) matches Some(c)
                    && model_matches(after[t].1, c)) by {
                    if t < p {
                        assert(after[t] == before[t]);
                        assert(before[t].0@ != name@);
                    } else if t > p {
                        assert(after[t] == before[t - 1]);
                        assert(before[t - 1].0@ != name@);
                    }
                }
            }
        },
    }
}

impl CapabilityManifest {
    /// Merges the manifests of several routing sources under one source id:
    /// protocols and models are united, each capability keeps the highest
    /// support level with its evidence (at the same level, evidence stronger
    /// than unknown replaces unknown), and each model the best health and
    /// the first evidence stronger than unknown. Every manifest must
    /// validate, and so must the result.
    #[verifier::rlimit(40)]
    pub fn merge(source_id: &str, manifests: &[CapabilityManifest]) -> (r: Result<CapabilityManifest, CoreError>)
        ensures
            manifests@.len() == 0 ==> (r matches Err(e) && e.code == ErrorCode::InvalidInput && e.message@
                == "至少需要一个 Capability Manifest"@ && e@.issues.len() == 0),
            manifests@.len() > 0 && first_invalid(manifests@) is Some ==> (r matches Err(e) && e.code == ErrorCode::InvalidInput
                && e.message@ == "Capability Manifest 校验失败"@ && e@.issues == capability_issues(
                manifests@[first_invalid(manifests@)->Some_0],
            )),
            manifests@.len() > 0 && first_invalid(manifests@) is None && is_blank(source_id@) ==> (r matches Err(e) && e.code
                == ErrorCode::InvalidInput && e.message@ == "Capability Manifest 校验失败"@ && e@.issues == seq![
                iv("source_id"@, "REQUIRED"@, "能力来源不能为空"@),
            ]),
            manifests@.len() > 0 && first_invalid(manifests@) is None && !is_blank(source_id@) ==> (r matches Ok(m) && merged_is(
                m,
                source_id@,
                manifests@,
            )),
    {
        if manifests.len() == 0 {
            return Err(CoreError::new(ErrorCode::InvalidInput, "至少需要一个 Capability Manifest"));
        }
        let ghost ms = manifests@;
        let mut protocols: Vec<String> = Vec::new();
        let mut capabilities: Vec<(String, Capability)> = Vec::new();
        let mut models: Vec<(String, ModelCapability)> = Vec::new();
        let mut i: usize = 0;
        assert(str_views(protocols@) =~= seq![]);
        while i < manifests.len()
            invariant
                i <= ms.len(),
                ms == manifests@,
                forall|j: int| 0 <= j < i ==> capability_issues(#[trigger] ms[j]).len() == 0,
                strictly_sorted(str_views(protocols@)),
                forall|p: Seq<char>| #![trigger str_views(protocols@).contains(p)]
                    str_views(protocols@).contains(p) <==> offers_protocol(ms, p, i as int),
                caps_merged(capabilities@, cap_entries(ms, i as int)),
                models_merged(models@, model_entries(ms, i as int)),
            decreases manifests.len() - i,
        {
            let m = &manifests[i];
            match m.validate() {
                Err(e) => {
                    proof {
                        let c = choose|c: int| 0 <= c < ms.len() && capability_issues(#[trigger] ms[c]).len() > 0 && forall|j: int|
                            0 <= j < c ==> capability_issues(#[trigger] ms[j]).len() == 0;
                        assert(capability_issues(ms[i as int]).len() > 0);
                        if c < i {
                            assert(capability_issues(ms[c]).len() == 0);
                        }
                        if c > i {
                            assert(capability_issues(ms[i as int]).len() == 0);
                        }
                    }
                    return Err(e);
                },
                Ok(()) => {},
            }
            let ghost before_p = str_views(protocols@);
            union_into(&mut protocols, &m.protocols);
            assert forall|p: Seq<char>| #![trigger str_views(protocols@).contains(p)]
                str_views(protocols@).contains(p) <==> offers_protocol(ms, p, i + 1) by {
                if offers_protocol(ms, p, i + 1) {
                    let w = choose|w: int| 0 <= w < i + 1 && w < ms.len() && str_views(#[trigger] ms[w].protocols@).contains(p);
                    if w < i {
                        assert(offers_protocol(ms, p, i as int));
                    }
                }
                if offers_protocol(ms, p, i as int) {
                    let w = choose|w: int| 0 <= w < i && w < ms.len() && str_views(#[trigger] ms[w].protocols@).contains(p);
                    assert(offers_protocol(ms, p, i + 1));
                }
                if str_views(m.protocols@).contains(p) {
                    assert(str_views(ms[i as int].protocols@).contains(p));
                }
            }
            let ghost ce = cap_entries(ms, i as int);
            let mut k: usize = 0;
            assert(ce + m.capabilities@.take(0) =~= ce);
            while k < m.capabilities.len()
                invariant
                    k <= m.capabilities@.len(),
                    caps_merged(capabilities@, ce + m.capabilities@.take(k as int)),
                decreases m.capabilities.len() - k,
            {
                let ghost done = ce + m.capabilities@.take(k as int);
                merge_capability(&mut capabilities, &m.capabilities[k], Ghost(done));
                assert(done.push(m.capabilities@[k as int]) =~= ce + m.capabilities@.take(k + 1));
                k = k + 1;
            }
            assert(ce + m.capabilities@.take(m.capabilities@.len() as int) =~= cap_entries(ms, i + 1));
            let ghost me = model_entries(ms, i as int);
            let mut q: usize = 0;
            assert(me + m.models@.take(0) =~= me);
            while q < m.models.len()
                invariant
                    q <= m.models@.len(),
                    models_merged(models@, me + m.models@.take(q as int)),
                decreases m.models.len() - q,
            {
                let ghost done = me + m.models@.take(q as int);
                merge_model(&mut models, &m.models[q], Ghost(done));
                assert(done.push(m.models@[q as int]) =~= me + m.models@.take(q + 1));
                q = q + 1;
            }
            assert(me + m.models@.take(m.models@.len() as int) =~= model_entries(ms, i + 1));
            i = i + 1;
        }
        assert(first_invalid(ms) is None);
        if text::is_blank_str(source_id) {
            let mut issues: Vec<ValidationIssue> = Vec::new();
            issues.push(ValidationIssue::new("source_id", "REQUIRED", "能力来源不能为空"));
            assert(issue_views(issues@) =~= seq![iv("source_id"@, "REQUIRED"@, "能力来源不能为空"@)]);
            return Err(CoreError::validation(ErrorCode::InvalidInput, "Capability Manifest 校验失败", issues));
        }
        Ok(CapabilityManifest { schema_version: SCHEMA_VERSION, source_id: text::owned(source_id), protocols, capabilities, models })
    }
}

proof fn lemma_key_issues_empty(models: Seq<(String, ModelCapability)>, n: int)
    requires
        0 <= n <= models.len(),
    ensures
        model_key_issues_upto(models, n).len() == 0 <==> forall|i: int| 0 <= i < n ==> (#[trigger] models[i]).0@ == models[i].1.public_name@,
    decreases n,
{
    if n > 0 {
        lemma_key_issues_empty(models, n - 1);
    }
}

proof fn lemma_model_entries_named(ms: Seq<CapabilityManifest>, n: int)
    requires
        0 <= n <= ms.len(),
        forall|j: int| 0 <= j < n ==> capability_issues(#[trigger] ms[j]).len() == 0,
    ensures
        forall|k: int| 0 <= k < model_entries(ms, n).len() ==> (#[trigger] model_entries(ms, n)[k]).0@ == model_entries(ms, n)[k].1.public_name@,
    decreases n,
{
    if n > 0 {
        lemma_model_entries_named(ms, n - 1);
        let prev = model_entries(ms, n - 1);
        let ms_n = ms[n - 1].models@;
        lemma_key_issues_empty(ms_n, ms_n.len() as int);
        assert(capability_issues(ms[n - 1]).len() == 0);
        assert forall|k: int| 0 <= k < model_entries(ms, n).len() implies (#[trigger] model_entries(ms, n)[k]).0@
            == model_entries(ms, n)[k].1.public_name@ by {
            if k < prev.len() {
                assert(model_entries(ms, n)[k] == prev[k]);
            } else {
                assert(model_entries(ms, n)[k] == ms_n[k - prev.len()]);
            }
        }
    }
}

proof fn lemma_model_acc_named(es: Seq<(String, ModelCapability)>, x: Seq<char>, n: int)
    requires
        0 <= n <= es.len(),
        forall|k: int| 0 <= k < es.len() ==> (#[trigger] es[k]).0@ == es[k].1.public_name@,
    ensures
        model_acc(es, x, n) matches Some(a) ==> a.public_name == x,
    decreases n,
{
    if n > 0 {
        lemma_model_acc_named(es, x, n - 1);
    }
}

/// A merge of valid manifests under a non-blank source id validates: every
/// model stays stored under its public name.
pub proof fn law_merged_manifest_validates(m: CapabilityManifest, source_id: Seq<char>, ms: Seq<CapabilityManifest>)
    requires
        merged_is(m, source_id, ms),
        first_invalid(ms) is None,
        !is_blank(source_id),
    ensures
        capability_issues(m).len() == 0,
{
    let n = ms.len() as int;
    assert forall|j: int| 0 <= j < n implies capability_issues(#[trigger] ms[j]).len() == 0 by {
        if capability_issues(ms[j]).len() > 0 {
            assert(exists|i: int| 0 <= i < ms.len() && capability_issues(#[trigger] ms[i]).len() > 0);
        }
    }
    lemma_model_entries_named(ms, n);
    let es = model_entries(ms, n);
    let l = m.models@;
    assert forall|i: int| 0 <= i < l.len() implies (#[trigger] l[i]).0@ == l[i].1.public_name@ by {
        lemma_model_acc_named(es, l[i].0@, es.len() as int);
    }
    lemma_key_issues_empty(l, l.len() as int);
}

} // verus!
