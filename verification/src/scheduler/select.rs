//! What runs next.
//!
//! A finding with a budget override comes first, then a flagged pull request,
//! a merged one that waits for its follow-up, a recheck, a queued fix, a
//! suspended attempt that can be continued, and last the rotation over the
//! repositories.

use vstd::prelude::*;
use crate::domain::{FindingJobKind, JobKind, RepoJobKind};
use crate::scheduler::resume;
use crate::scheduler::resume::{ResumePlan, ResumePlanView};
use crate::text;
use crate::types::{Finding, Job, PrState, Repo};

verus! {

// ---------------------------------------------------------------------
// Candidates
// ---------------------------------------------------------------------

/// What a cycle would act on.
#[allow(inconsistent_fields)]
#[derive(Debug, Clone)]
pub enum Candidate {
    Repo { kind: RepoJobKind, repo_id: i64, label: Option<String> },
    Finding {
        kind: FindingJobKind,
        finding_id: i64,
        repo_id: i64,
        label: Option<String>,
        budget_override: Option<String>,
    },
    /// Continue a suspended attempt. The label and the override are those of
    /// the tier that it was picked in.
    Resume { label: Option<String>, budget_override: Option<String>, plan: Box<ResumePlan> },
}

#[allow(inconsistent_fields)]
pub enum CandidateView {
    Repo { kind: RepoJobKind, repo_id: i64, label: Option<Seq<char>> },
    Finding {
        kind: FindingJobKind,
        finding_id: i64,
        repo_id: i64,
        label: Option<Seq<char>>,
        budget_override: Option<Seq<char>>,
    },
    Resume { label: Option<Seq<char>>, budget_override: Option<Seq<char>>, plan: ResumePlanView },
}

impl View for Candidate {
    type V = CandidateView;

    open spec fn view(&self) -> CandidateView {
        match *self {
            Candidate::Repo { kind, repo_id, label } => CandidateView::Repo {
                kind,
                repo_id,
                label: text::opt_text(label),
            },
            Candidate::Finding { kind, finding_id, repo_id, label, budget_override } =>
                CandidateView::Finding {
                kind,
                finding_id,
                repo_id,
                label: text::opt_text(label),
                budget_override: text::opt_text(budget_override),
            },
            Candidate::Resume { label, budget_override, plan } => CandidateView::Resume {
                label: text::opt_text(label),
                budget_override: text::opt_text(budget_override),
                plan: plan@,
            },
        }
    }
}

impl CandidateView {
    pub open spec fn kind_of(self) -> JobKind {
        match self {
            CandidateView::Repo { kind, .. } => JobKind::Repo(kind),
            CandidateView::Finding { kind, .. } => JobKind::Finding(kind),
            CandidateView::Resume { plan, .. } => plan.kind,
        }
    }

    pub open spec fn repo_of(self) -> i64 {
        match self {
            CandidateView::Repo { repo_id, .. } => repo_id,
            CandidateView::Finding { repo_id, .. } => repo_id,
            CandidateView::Resume { plan, .. } => plan.repo_id,
        }
    }

    pub open spec fn label_of(self) -> Option<Seq<char>> {
        match self {
            CandidateView::Repo { label, .. } => label,
            CandidateView::Finding { label, .. } => label,
            CandidateView::Resume { label, .. } => label,
        }
    }

    /// The finding where there is one, else the repository.
    pub open spec fn target_of(self) -> i64 {
        match self {
            CandidateView::Repo { repo_id, .. } => repo_id,
            CandidateView::Finding { finding_id, .. } => finding_id,
            CandidateView::Resume { plan, .. } => match plan.finding_id {
                Some(f) => f,
                None => plan.repo_id,
            },
        }
    }

    pub open spec fn override_of(self) -> Option<Seq<char>> {
        match self {
            CandidateView::Repo { .. } => None,
            CandidateView::Finding { budget_override, .. } => budget_override,
            CandidateView::Resume { budget_override, .. } => budget_override,
        }
    }
}

impl Candidate {
    pub fn job_kind(&self) -> (r: JobKind)
        ensures
            r == self@.kind_of(),
    {
        match self {
            Candidate::Repo { kind, .. } => JobKind::Repo(*kind),
            Candidate::Finding { kind, .. } => JobKind::Finding(*kind),
            Candidate::Resume { plan, .. } => plan.kind,
        }
    }

    pub fn repo_id(&self) -> (r: i64)
        ensures
            r == self@.repo_of(),
    {
        match self {
            Candidate::Repo { repo_id, .. } => *repo_id,
            Candidate::Finding { repo_id, .. } => *repo_id,
            Candidate::Resume { plan, .. } => plan.repo_id,
        }
    }

    pub fn label(&self) -> (r: Option<String>)
        ensures
            text::opt_text(r) == self@.label_of(),
    {
        match self {
            Candidate::Repo { label, .. } => text::copy_opt(label),
            Candidate::Finding { label, .. } => text::copy_opt(label),
            Candidate::Resume { label, .. } => text::copy_opt(label),
        }
    }

    /// The finding that it works on, else the repository.
    pub fn target_id(&self) -> (r: i64)
        ensures
            r == self@.target_of(),
    {
        match self {
            Candidate::Repo { repo_id, .. } => *repo_id,
            Candidate::Finding { finding_id, .. } => *finding_id,
            Candidate::Resume { plan, .. } => match plan.finding_id {
                Some(f) => f,
                None => plan.repo_id,
            },
        }
    }

    pub fn budget_override(&self) -> (r: Option<String>)
        ensures
            text::opt_text(r) == self@.override_of(),
    {
        match self {
            Candidate::Repo { .. } => None,
            Candidate::Finding { budget_override, .. } => text::copy_opt(budget_override),
            Candidate::Resume { budget_override, .. } => text::copy_opt(budget_override),
        }
    }
}

/// The override that is in force for a finding: an empty one is none.
pub fn override_of(f: &Finding) -> (r: Option<String>)
    ensures
        text::opt_text(r) == f.override_text(),
{
    match &f.budget_override {
        Some(s) => if s.as_str().is_empty() {
            None
        } else {
            Some(s.clone())
        },
        None => None,
    }
}

/// Whether a finding's override is for one job only.
pub fn is_once(f: &Finding) -> (r: bool)
    ensures
        r == (text::opt_text(f.budget_override) == Some("once"@)),
{
    text::opt_is(&f.budget_override, "once")
}

/// What the budget is asked to reserve for a candidate, of which `likely`
/// tokens are expected: a resume has planned its own.
pub fn candidate_reservation(c: &Candidate, likely: i64) -> (r: i64)
    ensures
        r == match c@ {
            CandidateView::Resume { plan, .. } => plan.anticipated as int,
            _ => resume::reserve_cold(likely as int),
        },
{
    match c {
        Candidate::Resume { plan, .. } => plan.anticipated,
        Candidate::Repo { .. } => resume::cold_reservation(likely),
        Candidate::Finding { .. } => resume::cold_reservation(likely),
    }
}

/// The candidate of a finding: it is shown by its summary, and without one by
/// its fingerprint.
pub open spec fn candidate_for_finding(kind: FindingJobKind, f: Finding) -> CandidateView {
    CandidateView::Finding {
        kind,
        finding_id: f.id,
        repo_id: f.repo_id,
        label: Some(if f.summary@.len() == 0 { f.fingerprint@ } else { f.summary@ }),
        budget_override: f.override_text(),
    }
}

pub fn finding_candidate(kind: FindingJobKind, f: &Finding) -> (r: Candidate)
    ensures
        r@ == candidate_for_finding(kind, *f),
{
    let label = if f.summary.as_str().is_empty() {
        f.fingerprint.clone()
    } else {
        f.summary.clone()
    };
    Candidate::Finding {
        kind,
        finding_id: f.id,
        repo_id: f.repo_id,
        label: Some(label),
        budget_override: override_of(f),
    }
}

/// The candidate of a repository: it is shown by its name.
pub open spec fn candidate_for_repo(kind: RepoJobKind, r: Repo) -> CandidateView {
    CandidateView::Repo {
        kind,
        repo_id: r.id,
        label: if r.name@.len() > 0 { Some(r.name@) } else { None },
    }
}

pub fn repo_candidate(kind: RepoJobKind, r: &Repo) -> (c: Candidate)
    ensures
        c@ == candidate_for_repo(kind, *r),
{
    Candidate::Repo {
        kind,
        repo_id: r.id,
        label: if r.name.as_str().is_empty() {
            None
        } else {
            Some(r.name.clone())
        },
    }
}

// ---------------------------------------------------------------------
// The findings that wait, oldest first
// ---------------------------------------------------------------------

/// Earlier in time; what has no time comes before what has one.
pub open spec fn older(a: Option<i64>, b: Option<i64>) -> bool {
    match (a, b) {
        (None, Some(_)) => true,
        (Some(x), Some(y)) => x < y,
        _ => false,
    }
}

fn is_older(a: Option<i64>, b: Option<i64>) -> (r: bool)
    ensures
        r == older(a, b),
{
    match (a, b) {
        (None, Some(_)) => true,
        (Some(x), Some(y)) => x < y,
        _ => false,
    }
}

/// Since when an open pull request has waited for attention, where it does.
pub open spec fn attention_rank(ps: Option<PrState>) -> Option<Option<i64>> {
    match ps {
        Some(p) => if p.needs_attention is Some {
            Some(
                if p.attention_since is Some {
                    p.attention_since
                } else {
                    p.synced_at
                },
            )
        } else {
            None
        },
        None => None,
    }
}

pub fn attention_key(ps: &Option<PrState>) -> (r: Option<Option<i64>>)
    ensures
        r == attention_rank(*ps),
{
    match ps {
        Some(p) => match &p.needs_attention {
            Some(_) => match p.attention_since {
                Some(t) => Some(Some(t)),
                None => Some(p.synced_at),
            },
            None => None,
        },
        None => None,
    }
}

/// When a merged pull request was last seen, where its follow-up is due.
pub open spec fn harvest_rank(ps: Option<PrState>) -> Option<Option<i64>> {
    match ps {
        Some(p) => if p.harvested_at is None { Some(p.synced_at) } else { None },
        None => None,
    }
}

pub fn harvest_key(ps: &Option<PrState>) -> (r: Option<Option<i64>>)
    ensures
        r == harvest_rank(*ps),
{
    match ps {
        Some(p) => match p.harvested_at {
            Some(_) => None,
            None => Some(p.synced_at),
        },
        None => None,
    }
}

/// Position `a` comes before position `b`: it is older, or as old and earlier
/// in the list.
pub open spec fn comes_before(keys: Seq<Option<Option<i64>>>, a: int, b: int) -> bool {
    ||| older(keys[a]->0, keys[b]->0)
    ||| !older(keys[b]->0, keys[a]->0) && a < b
}

/// The positions that have a key, each once, oldest first.
pub open spec fn is_oldest_first(keys: Seq<Option<Option<i64>>>, order: Seq<usize>) -> bool {
    &&& forall|i: int| 0 <= i < order.len() ==> (#[trigger] order[i]) < keys.len() && keys[order[i] as int] is Some
    &&& forall|k: int|
        0 <= k < keys.len() && (#[trigger] keys[k]) is Some ==> exists|i: int|
            0 <= i < order.len() && order[i] == k
    &&& forall|i: int, j: int|
        0 <= i < j < order.len() ==> comes_before(keys, #[trigger] order[i] as int, #[trigger] order[j] as int)
}

/// The positions that have a key, oldest first, in the list's order where two
/// are equally old.
pub fn oldest_first(keys: &Vec<Option<Option<i64>>>) -> (r: Vec<usize>)
    ensures
        is_oldest_first(keys@, r@),
{
    let mut out: Vec<usize> = Vec::new();
    let mut k: usize = 0;
    while k < keys.len()
        invariant
            k <= keys@.len(),
            forall|i: int|
                0 <= i < out@.len() ==> (#[trigger] out@[i]) < k && keys@[out@[i] as int] is Some,
            forall|m: int|
                0 <= m < k && (#[trigger] keys@[m]) is Some ==> exists|i: int|
                    0 <= i < out@.len() && out@[i] == m,
            forall|i: int, j: int|
                0 <= i < j < out@.len() ==> comes_before(
                    keys@,
                    #[trigger] out@[i] as int,
                    #[trigger] out@[j] as int,
                ),
        decreases keys@.len() - k,
    {
        if let Some(key) = keys[k] {
            let ghost prev = out@;
            let mut p: usize = out.len();
            while p > 0 && is_older(key, keys[out[p - 1]].unwrap())
                invariant
                    p <= out@.len(),
                    k < keys@.len(),
                    keys@[k as int] == Some(key),
                    forall|i: int|
                        0 <= i < out@.len() ==> (#[trigger] out@[i]) < k && keys@[out@[i] as int] is Some,
                    forall|i: int|
                        p <= i < out@.len() ==> older(key, keys@[(#[trigger] out@[i]) as int]->0),
                decreases p,
            {
                p = p - 1;
            }
            proof {
                assert forall|i: int| 0 <= i < p implies comes_before(
                    keys@,
                    #[trigger] out@[i] as int,
                    k as int,
                ) by {
                    let l = p - 1;
                    assert(!older(key, keys@[out@[l] as int]->0));
                    if i < l {
                        assert(comes_before(keys@, out@[i] as int, out@[l] as int));
                    }
                }
            }
            out.insert(p, k);
            proof {
                assert forall|m: int| 0 <= m < k + 1 && (#[trigger] keys@[m]) is Some implies exists|
                    i: int,
                | 0 <= i < out@.len() && out@[i] == m by {
                    if m < k {
                        let i0 = choose|i: int| 0 <= i < prev.len() && prev[i] == m;
                        if i0 < p {
                            assert(out@[i0] == m);
                        } else {
                            assert(out@[i0 + 1] == m);
                        }
                    } else {
                        assert(out@[p as int] == m);
                    }
                }
            }
        }
        k = k + 1;
    }
    out
}

// ---------------------------------------------------------------------
// The finding tiers
// ---------------------------------------------------------------------

/// The findings that wait. Flagged pull requests and merged ones are listed
/// oldest first, the others newest first.
pub struct Tiers {
    pub attention: Vec<Finding>,
    pub pending_harvest: Vec<Finding>,
    pub rechecking: Vec<Finding>,
    pub queued: Vec<Finding>,
}

/// Whether a finding may be picked, where only one repository is wanted.
pub open spec fn wanted(f: Finding, force: Option<i64>) -> bool {
    force matches Some(id) ==> f.repo_id == id
}

/// Whether a finding may be picked; for the first tier only with an override.
pub open spec fn fits(f: Finding, force: Option<i64>, over: bool) -> bool {
    wanted(f, force) && (over ==> f.override_text() is Some)
}

/// The first position that fits.
pub open spec fn is_first_fit(v: Seq<Finding>, force: Option<i64>, over: bool, i: int) -> bool {
    &&& 0 <= i < v.len()
    &&& fits(v[i], force, over)
    &&& forall|j: int| 0 <= j < i ==> !fits(#[trigger] v[j], force, over)
}

/// The last position that fits.
pub open spec fn is_last_fit(v: Seq<Finding>, force: Option<i64>, i: int) -> bool {
    &&& 0 <= i < v.len()
    &&& fits(v[i], force, false)
    &&& forall|j: int| i < j < v.len() ==> !fits(#[trigger] v[j], force, false)
}

pub open spec fn any_fit(v: Seq<Finding>, force: Option<i64>, over: bool) -> bool {
    exists|i: int| 0 <= i < v.len() && fits(#[trigger] v[i], force, over)
}

impl Tiers {
    /// The findings that wait for a kind of job.
    pub open spec fn list(self, kind: FindingJobKind) -> Seq<Finding> {
        match kind {
            FindingJobKind::Engage => self.attention@,
            FindingJobKind::Harvest => self.pending_harvest@,
            FindingJobKind::Recheck => self.rechecking@,
            FindingJobKind::Fix => self.queued@,
        }
    }

    /// The kind whose turn it is, with or without the demand for an override.
    pub open spec fn leading(self, force: Option<i64>, over: bool) -> Option<FindingJobKind> {
        if any_fit(self.attention@, force, over) {
            Some(FindingJobKind::Engage)
        } else if any_fit(self.pending_harvest@, force, over) {
            Some(FindingJobKind::Harvest)
        } else if any_fit(self.rechecking@, force, over) {
            Some(FindingJobKind::Recheck)
        } else if any_fit(self.queued@, force, over) {
            Some(FindingJobKind::Fix)
        } else {
            None
        }
    }

    /// Whether position `i` of a kind's list is the finding to work on: the
    /// first with an override where there is one, else the oldest.
    pub open spec fn is_pick(self, force: Option<i64>, kind: FindingJobKind, i: int) -> bool {
        match self.leading(force, true) {
            Some(k) => k == kind && is_first_fit(self.list(kind), force, true, i),
            None => match self.leading(force, false) {
                Some(k) => {
                    &&& k == kind
                    &&& match kind {
                        FindingJobKind::Engage | FindingJobKind::Harvest => is_first_fit(
                            self.list(kind),
                            force,
                            false,
                            i,
                        ),
                        FindingJobKind::Recheck | FindingJobKind::Fix => is_last_fit(
                            self.list(kind),
                            force,
                            i,
                        ),
                    }
                },
                None => false,
            },
        }
    }

    /// Whether any finding waits.
    pub open spec fn waits(self, force: Option<i64>) -> bool {
        self.leading(force, true) is Some || self.leading(force, false) is Some
    }

    /// The kind and the position of the finding to work on.
    pub fn pick(&self, force: Option<i64>) -> (r: Option<(FindingJobKind, usize)>)
        ensures
            match r {
                Some((kind, i)) => self.is_pick(force, kind, i as int),
                None => !self.waits(force),
            },
    {
        if let Some(i) = first_fit(&self.attention, force, true) {
            return Some((FindingJobKind::Engage, i));
        }
        if let Some(i) = first_fit(&self.pending_harvest, force, true) {
            return Some((FindingJobKind::Harvest, i));
        }
        if let Some(i) = first_fit(&self.rechecking, force, true) {
            return Some((FindingJobKind::Recheck, i));
        }
        if let Some(i) = first_fit(&self.queued, force, true) {
            return Some((FindingJobKind::Fix, i));
        }
        if let Some(i) = first_fit(&self.attention, force, false) {
            return Some((FindingJobKind::Engage, i));
        }
        if let Some(i) = first_fit(&self.pending_harvest, force, false) {
            return Some((FindingJobKind::Harvest, i));
        }
        if let Some(i) = last_fit(&self.rechecking, force) {
            return Some((FindingJobKind::Recheck, i));
        }
        if let Some(i) = last_fit(&self.queued, force) {
            return Some((FindingJobKind::Fix, i));
        }
        None
    }
}

fn can_pick(f: &Finding, force: Option<i64>, over: bool) -> (r: bool)
    ensures
        r == fits(*f, force, over),
{
    let here: bool = match force {
        Some(id) => f.repo_id == id,
        None => true,
    };
    if !here {
        return false;
    }
    if over {
        override_of(f).is_some()
    } else {
        true
    }
}

fn first_fit(v: &Vec<Finding>, force: Option<i64>, over: bool) -> (r: Option<usize>)
    ensures
        match r {
            Some(i) => is_first_fit(v@, force, over, i as int) && any_fit(v@, force, over),
            None => !any_fit(v@, force, over),
        },
{
    let mut i: usize = 0;
    while i < v.len()
        invariant
            i <= v@.len(),
            forall|j: int| 0 <= j < i ==> !fits(#[trigger] v@[j], force, over),
        decreases v@.len() - i,
    {
        if can_pick(&v[i], force, over) {
            return Some(i);
        }
        i = i + 1;
    }
    None
}

fn last_fit(v: &Vec<Finding>, force: Option<i64>) -> (r: Option<usize>)
    ensures
        match r {
            Some(i) => is_last_fit(v@, force, i as int) && any_fit(v@, force, false),
            None => !any_fit(v@, force, false),
        },
{
    let mut i: usize = v.len();
    while i > 0
        invariant
            i <= v@.len(),
            forall|j: int| i <= j < v@.len() ==> !fits(#[trigger] v@[j], force, false),
        decreases i,
    {
        i = i - 1;
        if can_pick(&v[i], force, false) {
            return Some(i);
        }
    }
    None
}

// ---------------------------------------------------------------------
// Suspended attempts
// ---------------------------------------------------------------------

/// Whether a suspended job is an attempt at this finding and kind.
pub open spec fn continues_finding(j: Job, kind: FindingJobKind, finding: i64) -> bool {
    j.finding_id == Some(finding) && j.kind == JobKind::Finding(kind)
}

/// The next suspended attempt at a finding, from a position on.
pub fn next_for_finding(jobs: &Vec<Job>, from: usize, kind: FindingJobKind, finding: i64) -> (r: Option<
    usize,
>)
    requires
        from <= jobs@.len(),
    ensures
        match r {
            Some(i) => from <= i < jobs@.len() && continues_finding(jobs@[i as int], kind, finding)
                && forall|j: int| from <= j < i ==> !continues_finding(#[trigger] jobs@[j], kind, finding),
            None => forall|j: int|
                from <= j < jobs@.len() ==> !continues_finding(#[trigger] jobs@[j], kind, finding),
        },
{
    let mut i: usize = from;
    while i < jobs.len()
        invariant
            from <= i <= jobs@.len(),
            forall|j: int| from <= j < i ==> !continues_finding(#[trigger] jobs@[j], kind, finding),
        decreases jobs@.len() - i,
    {
        let about: bool = match jobs[i].finding_id {
            Some(f) => f == finding,
            None => false,
        };
        if about && jobs[i].kind == JobKind::Finding(kind) {
            return Some(i);
        }
        i = i + 1;
    }
    None
}

/// Whether a suspended job may be continued, where only one repository is
/// wanted.
pub open spec fn job_wanted(j: Job, force: Option<i64>) -> bool {
    force matches Some(id) ==> j.repo_id == id
}

/// The next suspended attempt of the resume tier, from a position on.
pub fn next_resumable(jobs: &Vec<Job>, from: usize, force: Option<i64>) -> (r: Option<usize>)
    requires
        from <= jobs@.len(),
    ensures
        match r {
            Some(i) => from <= i < jobs@.len() && job_wanted(jobs@[i as int], force) && forall|j: int|
                from <= j < i ==> !job_wanted(#[trigger] jobs@[j], force),
            None => forall|j: int| from <= j < jobs@.len() ==> !job_wanted(#[trigger] jobs@[j], force),
        },
{
    let mut i: usize = from;
    while i < jobs.len()
        invariant
            from <= i <= jobs@.len(),
            forall|j: int| from <= j < i ==> !job_wanted(#[trigger] jobs@[j], force),
        decreases jobs@.len() - i,
    {
        let here: bool = match force {
            Some(id) => jobs[i].repo_id == id,
            None => true,
        };
        if here {
            return Some(i);
        }
        i = i + 1;
    }
    None
}

/// A finding tier's pick where a suspended attempt can be continued: the
/// plan, shown and paid for as the fresh attempt would have been.
pub fn resume_in_tier(kind: FindingJobKind, f: &Finding, plan: ResumePlan) -> (r: Candidate)
    ensures
        r@ == (CandidateView::Resume {
            label: candidate_for_finding(kind, *f).label_of(),
            budget_override: f.override_text(),
            plan: plan@,
        }),
{
    let fresh = finding_candidate(kind, f);
    Candidate::Resume {
        label: fresh.label(),
        budget_override: fresh.budget_override(),
        plan: Box::new(plan),
    }
}

/// The resume tier's own pick: the plan, shown by its repository, with no
/// override.
pub fn resume_in_background(plan: ResumePlan) -> (r: Candidate)
    ensures
        r@ == (CandidateView::Resume {
            label: if plan.repo@.len() > 0 { Some(plan.repo@) } else { None },
            budget_override: None,
            plan: plan@,
        }),
{
    let label: Option<String> = if plan.repo.as_str().is_empty() {
        None
    } else {
        Some(plan.repo.clone())
    };
    Candidate::Resume { label, budget_override: None, plan: Box::new(plan) }
}

// ---------------------------------------------------------------------
// Findings before suspended attempts before the rotation
// ---------------------------------------------------------------------

/// What waits besides the rotation: the findings, and the suspended attempts,
/// newest first. With `force` only one repository is wanted.
pub struct Queue {
    pub tiers: Tiers,
    pub jobs: Vec<Job>,
    pub force: Option<i64>,
}

/// What is to be found out or started next.
#[derive(Debug, Clone)]
pub enum Next {
    /// Whether this suspended attempt can be continued.
    Try { job: usize },
    /// Nothing suspended stands for the picked finding: it is started.
    Start { candidate: Candidate },
    /// Nothing waits but the rotation.
    Rotate,
}

impl Queue {
    /// Whether a suspended attempt may be continued now: where a finding is
    /// picked only an attempt at it of the picked kind, else any that is
    /// wanted.
    pub open spec fn eligible(self, j: Job) -> bool {
        if self.tiers.waits(self.force) {
            exists|kind: FindingJobKind, i: int|
                #[trigger] self.tiers.is_pick(self.force, kind, i) && continues_finding(
                    j,
                    kind,
                    self.tiers.list(kind)[i].id,
                )
        } else {
            job_wanted(j, self.force)
        }
    }

    /// Whether no suspended attempt from a position on may be continued.
    pub open spec fn spent(self, from: int) -> bool {
        forall|j: int| from <= j < self.jobs@.len() ==> !self.eligible(#[trigger] self.jobs@[j])
    }

    /// Whether a candidate starts the picked finding afresh.
    pub open spec fn is_fresh(self, c: CandidateView) -> bool {
        exists|kind: FindingJobKind, i: int|
            #[trigger] self.tiers.is_pick(self.force, kind, i) && c == candidate_for_finding(
                kind,
                self.tiers.list(kind)[i],
            )
    }

    /// Whether a candidate continues an attempt by its plan, shown and paid
    /// for by the tier that it is picked in.
    pub open spec fn is_continued(self, plan: ResumePlanView, c: CandidateView) -> bool {
        if self.tiers.waits(self.force) {
            exists|kind: FindingJobKind, i: int|
                #[trigger] self.tiers.is_pick(self.force, kind, i) && c == (CandidateView::Resume {
                    label: candidate_for_finding(kind, self.tiers.list(kind)[i]).label_of(),
                    budget_override: self.tiers.list(kind)[i].override_text(),
                    plan,
                })
        } else {
            c == (CandidateView::Resume {
                label: if plan.repo.len() > 0 { Some(plan.repo) } else { None },
                budget_override: None,
                plan,
            })
        }
    }
}

/// One position of one list is the pick.
proof fn lemma_pick_is_unique(
    t: Tiers,
    force: Option<i64>,
    kind: FindingJobKind,
    i: int,
    other: FindingJobKind,
    j: int,
)
    requires
        t.is_pick(force, kind, i),
        t.is_pick(force, other, j),
    ensures
        kind == other,
        i == j,
{
    let v = t.list(kind);
    let over = t.leading(force, true) is Some;
    if i < j {
        assert(fits(v[i], force, over) && fits(v[j], force, over));
    } else if j < i {
        assert(fits(v[i], force, over) && fits(v[j], force, over));
    }
}

/// Where a finding is picked, what may be continued is an attempt at it.
proof fn lemma_eligible(q: Queue, kind: FindingJobKind, i: int, j: Job)
    requires
        q.tiers.is_pick(q.force, kind, i),
    ensures
        q.tiers.waits(q.force),
        q.eligible(j) == continues_finding(j, kind, q.tiers.list(kind)[i].id),
{
    if q.eligible(j) {
        let (k, n) = choose|k: FindingJobKind, n: int| #[trigger]
            q.tiers.is_pick(q.force, k, n) && continues_finding(j, k, q.tiers.list(k)[n].id);
        lemma_pick_is_unique(q.tiers, q.force, kind, i, k, n);
    }
}

/// The picked finding with its kind, where one waits.
fn picked(q: &Queue) -> (r: Option<(FindingJobKind, &Finding)>)
    ensures
        match r {
            Some((kind, f)) => exists|i: int|
                #[trigger] q.tiers.is_pick(q.force, kind, i) && q.tiers.list(kind)[i] == *f,
            None => !q.tiers.waits(q.force),
        },
{
    match q.tiers.pick(q.force) {
        Some((kind, i)) => {
            assert(q.tiers.is_pick(q.force, kind, i as int));
            let f: &Finding = match kind {
                FindingJobKind::Engage => &q.tiers.attention[i],
                FindingJobKind::Harvest => &q.tiers.pending_harvest[i],
                FindingJobKind::Recheck => &q.tiers.rechecking[i],
                FindingJobKind::Fix => &q.tiers.queued[i],
            };
            Some((kind, f))
        },
        None => None,
    }
}

/// What runs next, or which suspended attempt is to be looked at first. The
/// attempts before `from` were looked at and cannot be continued.
pub fn pick_next(q: &Queue, from: usize) -> (r: Next)
    requires
        from <= q.jobs@.len(),
    ensures
        match r {
            Next::Try { job } => {
                &&& from <= job < q.jobs@.len()
                &&& q.eligible(q.jobs@[job as int])
                &&& forall|j: int| from <= j < job ==> !q.eligible(#[trigger] q.jobs@[j])
            },
            Next::Start { candidate } => q.spent(from as int) && q.is_fresh(candidate@),
            Next::Rotate => q.spent(from as int) && !q.tiers.waits(q.force),
        },
{
    match picked(q) {
        Some((kind, f)) => {
            let ghost i = choose|i: int| #[trigger]
                q.tiers.is_pick(q.force, kind, i) && q.tiers.list(kind)[i] == *f;
            proof {
                assert forall|j: int| from <= j < q.jobs@.len() implies q.eligible(
                    #[trigger] q.jobs@[j],
                ) == continues_finding(q.jobs@[j], kind, f.id) by {
                    lemma_eligible(*q, kind, i, q.jobs@[j]);
                }
            }
            match next_for_finding(&q.jobs, from, kind, f.id) {
                Some(job) => Next::Try { job },
                None => Next::Start { candidate: finding_candidate(kind, f) },
            }
        },
        None => match next_resumable(&q.jobs, from, q.force) {
            Some(job) => Next::Try { job },
            None => Next::Rotate,
        },
    }
}

/// The candidate that continues an attempt by its plan.
pub fn continue_with(q: &Queue, plan: ResumePlan) -> (r: Candidate)
    ensures
        q.is_continued(plan@, r@),
{
    match picked(q) {
        Some((kind, f)) => {
            let ghost i = choose|i: int| #[trigger]
                q.tiers.is_pick(q.force, kind, i) && q.tiers.list(kind)[i] == *f;
            let r = resume_in_tier(kind, f, plan);
            assert(q.tiers.is_pick(q.force, kind, i));
            r
        },
        None => resume_in_background(plan),
    }
}

/// The repository that alone is wanted, where one is named; `found` is what
/// is known under that name.
pub fn forced_repo(name: Option<&str>, found: Option<i64>) -> (r: Result<Option<i64>, String>)
    ensures
        match name {
            None => r == Ok::<Option<i64>, String>(None),
            Some(n) => match found {
                Some(id) => r == Ok::<Option<i64>, String>(Some(id)),
                None => r matches Err(e) && e@ == "unknown repo "@ + text::debug_text(n@),
            },
        },
{
    match name {
        None => Ok(None),
        Some(n) => match found {
            Some(id) => Ok(Some(id)),
            None => Err("unknown repo ".to_owned().concat(text::quoted(n).as_str())),
        },
    }
}

// ---------------------------------------------------------------------
// Rotation
// ---------------------------------------------------------------------

/// How long the kinds of scan rest after a turn.
#[derive(Debug, Clone, Copy, PartialEq, Eq, Structural)]
pub struct Intervals {
    /// Of hunts, test gaps, dependency updates and refactorings.
    pub scan_ms: i64,
    pub modernization_days: i64,
    pub standards_days: i64,
}

/// One kind of scan, when it last had its turn (0 for never), and its rest.
pub struct Slot {
    pub kind: RepoJobKind,
    pub last: i64,
    pub rest: int,
}

pub open spec fn last_of(at: Option<i64>) -> i64 {
    match at {
        Some(t) => t,
        None => 0,
    }
}

/// The kinds of scan of a repository, in their order of priority.
pub open spec fn slots(r: Repo, iv: Intervals) -> Seq<Slot> {
    let day = 86_400_000int;
    seq![
        Slot { kind: RepoJobKind::Hunt, last: last_of(r.last_hunt_at), rest: iv.scan_ms as int },
        Slot { kind: RepoJobKind::TestGap, last: last_of(r.last_test_gap_at), rest: iv.scan_ms as int },
        Slot {
            kind: RepoJobKind::DepUpdate,
            last: last_of(r.last_dep_update_at),
            rest: iv.scan_ms as int,
        },
        Slot { kind: RepoJobKind::Refactor, last: last_of(r.last_refactor_at), rest: iv.scan_ms as int },
        Slot {
            kind: RepoJobKind::Modernization,
            last: last_of(r.last_modernization_at),
            rest: iv.modernization_days * day,
        },
        Slot {
            kind: RepoJobKind::Standards,
            last: last_of(r.last_standards_at),
            rest: iv.standards_days * day,
        },
    ]
}

/// Whether a kind of scan may run: never run, or rested.
pub open spec fn due(s: Slot, now: i64) -> bool {
    s.last == 0 || now - s.last >= s.rest
}

/// Whether one kind of scan is preferred to another: never run before run,
/// then the older.
pub open spec fn preferred(a: Slot, b: Slot) -> bool {
    b.last != 0 && (a.last == 0 || a.last < b.last)
}

/// The kind of scan whose turn it is: the most preferred of those that may
/// run, the first of the list where several are.
pub open spec fn is_turn(s: Seq<Slot>, now: i64, i: int) -> bool {
    &&& 0 <= i < s.len()
    &&& due(s[i], now)
    &&& forall|j: int| 0 <= j < s.len() && due(#[trigger] s[j], now) ==> !preferred(s[j], s[i])
    &&& forall|j: int| 0 <= j < i && due(#[trigger] s[j], now) ==> preferred(s[i], s[j])
}

/// What a repository would be scanned for: a repository that is not cloned
/// yet is hunted.
pub open spec fn is_work(r: Repo, cloned: bool, iv: Intervals, now: i64, kind: RepoJobKind) -> bool {
    if !cloned {
        kind == RepoJobKind::Hunt
    } else {
        exists|i: int| is_turn(slots(r, iv), now, i) && slots(r, iv)[i].kind == kind
    }
}

/// Whether a repository has work at all.
pub open spec fn has_work(r: Repo, cloned: bool, iv: Intervals, now: i64) -> bool {
    !cloned || exists|i: int| 0 <= i < 6 && due(#[trigger] slots(r, iv)[i], now)
}

fn slot_due(last: i64, rest: i128, now: i64) -> (r: bool)
    ensures
        r == (last == 0 || now - last >= rest),
{
    last == 0 || now as i128 - last as i128 >= rest
}

fn last_at(at: Option<i64>) -> (r: i64)
    ensures
        r == last_of(at),
{
    match at {
        Some(t) => t,
        None => 0,
    }
}

/// What a repository would be scanned for, if anything.
pub fn work_for(r: &Repo, cloned: bool, iv: &Intervals, now: i64) -> (k: Option<RepoJobKind>)
    ensures
        match k {
            Some(kind) => has_work(*r, cloned, *iv, now) && is_work(*r, cloned, *iv, now, kind),
            None => !has_work(*r, cloned, *iv, now),
        },
{
    if !cloned {
        return Some(RepoJobKind::Hunt);
    }
    let day: i128 = 86_400_000;
    let ghost all = slots(*r, *iv);
    let scan: i128 = iv.scan_ms as i128;
    assert(-0x8000_0000_0000_0000 * 86_400_000 <= iv.modernization_days * 86_400_000
        <= 0x7fff_ffff_ffff_ffff * 86_400_000);
    assert(-0x8000_0000_0000_0000 * 86_400_000 <= iv.standards_days * 86_400_000
        <= 0x7fff_ffff_ffff_ffff * 86_400_000);
    let modern: i128 = iv.modernization_days as i128 * day;
    let standards: i128 = iv.standards_days as i128 * day;
    let mut kinds: Vec<RepoJobKind> = Vec::new();
    kinds.push(RepoJobKind::Hunt);
    kinds.push(RepoJobKind::TestGap);
    kinds.push(RepoJobKind::DepUpdate);
    kinds.push(RepoJobKind::Refactor);
    kinds.push(RepoJobKind::Modernization);
    kinds.push(RepoJobKind::Standards);
    let mut lasts: Vec<i64> = Vec::new();
    lasts.push(last_at(r.last_hunt_at));
    lasts.push(last_at(r.last_test_gap_at));
    lasts.push(last_at(r.last_dep_update_at));
    lasts.push(last_at(r.last_refactor_at));
    lasts.push(last_at(r.last_modernization_at));
    lasts.push(last_at(r.last_standards_at));
    let mut rests: Vec<i128> = Vec::new();
    rests.push(scan);
    rests.push(scan);
    rests.push(scan);
    rests.push(scan);
    rests.push(modern);
    rests.push(standards);
    let mut best: Option<usize> = None;
    let mut i: usize = 0;
    while i < 6
        invariant
            i <= 6,
            all == slots(*r, *iv),
            all.len() == 6,
            kinds@.len() == 6,
            lasts@.len() == 6,
            rests@.len() == 6,
            forall|j: int|
                0 <= j < 6 ==> (#[trigger] all[j]).kind == kinds@[j] && all[j].last == lasts@[j]
                    && all[j].rest == rests@[j],
            match best {
                Some(b) => {
                    &&& b < i
                    &&& due(all[b as int], now)
                    &&& forall|j: int|
                        0 <= j < i && due(#[trigger] all[j], now) ==> !preferred(all[j], all[b as int])
                    &&& forall|j: int|
                        0 <= j < b && due(#[trigger] all[j], now) ==> preferred(all[b as int], all[j])
                },
                None => forall|j: int| 0 <= j < i ==> !due(#[trigger] all[j], now),
            },
        decreases 6 - i,
    {
        assert(all[i as int].rest == rests@[i as int]);
        if slot_due(lasts[i], rests[i], now) {
            best = match best {
                Some(b) => {
                    assert(all[b as int].last == lasts@[b as int]);
                    if lasts[b] != 0 && (lasts[i] == 0 || lasts[i] < lasts[b]) {
                        Some(i)
                    } else {
                        Some(b)
                    }
                },
                None => Some(i),
            };
        }
        i = i + 1;
    }
    match best {
        Some(b) => {
            assert(is_turn(all, now, b as int));
            assert(all[b as int].kind == kinds@[b as int]);
            Some(kinds[b])
        },
        None => None,
    }
}

/// Whether a repository takes part in the rotation.
pub open spec fn in_rotation(r: Repo, force: Option<i64>) -> bool {
    match force {
        Some(id) => r.id == id,
        None => r.enabled != 0,
    }
}

/// Whether a repository takes part and has work.
pub open spec fn offers(r: Repo, cloned: bool, force: Option<i64>, iv: Intervals, now: i64) -> bool {
    in_rotation(r, force) && has_work(r, cloned, iv, now)
}

/// The repository whose turn it is: of those with work, the one that was
/// hunted longest ago, the first of the list where several are.
pub open spec fn is_next_repo(
    repos: Seq<Repo>,
    cloned: Seq<bool>,
    force: Option<i64>,
    iv: Intervals,
    now: i64,
    i: int,
) -> bool {
    &&& 0 <= i < repos.len()
    &&& offers(repos[i], cloned[i], force, iv, now)
    &&& forall|j: int|
        0 <= j < repos.len() && j != i && offers(#[trigger] repos[j], cloned[j], force, iv, now) ==> {
            ||| older(repos[i].last_hunt_at, repos[j].last_hunt_at)
            ||| !older(repos[j].last_hunt_at, repos[i].last_hunt_at) && i < j
        }
}

/// The repository whose turn it is, and what it is scanned for. `cloned` says
/// of each repository whether its clone is there.
pub fn rotation(
    repos: &Vec<Repo>,
    cloned: &Vec<bool>,
    force: Option<i64>,
    iv: &Intervals,
    now: i64,
) -> (r: Option<(RepoJobKind, usize)>)
    requires
        repos@.len() == cloned@.len(),
    ensures
        match r {
            Some((kind, i)) => is_next_repo(repos@, cloned@, force, *iv, now, i as int) && is_work(
                repos@[i as int],
                cloned@[i as int],
                *iv,
                now,
                kind,
            ),
            None => forall|j: int|
                0 <= j < repos@.len() ==> !offers(#[trigger] repos@[j], cloned@[j], force, *iv, now),
        },
{
    let mut best: Option<(RepoJobKind, usize)> = None;
    let mut i: usize = 0;
    while i < repos.len()
        invariant
            i <= repos@.len(),
            repos@.len() == cloned@.len(),
            match best {
                Some((kind, b)) => {
                    &&& b < i
                    &&& offers(repos@[b as int], cloned@[b as int], force, *iv, now)
                    &&& is_work(repos@[b as int], cloned@[b as int], *iv, now, kind)
                    &&& forall|j: int|
                        0 <= j < i && j != b && offers(#[trigger] repos@[j], cloned@[j], force, *iv, now)
                            ==> {
                            ||| older(repos@[b as int].last_hunt_at, repos@[j].last_hunt_at)
                            ||| !older(repos@[j].last_hunt_at, repos@[b as int].last_hunt_at) && b < j
                        }
                },
                None => forall|j: int|
                    0 <= j < i ==> !offers(#[trigger] repos@[j], cloned@[j], force, *iv, now),
            },
        decreases repos@.len() - i,
    {
        let here: bool = match force {
            Some(id) => repos[i].id == id,
            None => repos[i].enabled != 0,
        };
        if here {
            if let Some(kind) = work_for(&repos[i], cloned[i], iv, now) {
                best = match best {
                    Some((k, b)) => if is_older(repos[i].last_hunt_at, repos[b].last_hunt_at) {
                        Some((kind, i))
                    } else {
                        Some((k, b))
                    },
                    None => Some((kind, i)),
                };
            }
        }
        i = i + 1;
    }
    best
}

// ---------------------------------------------------------------------
// Laws
// ---------------------------------------------------------------------

/// A finding with a budget override jumps the queue: where any that may be
/// picked has one, the pick has one.
pub proof fn law_override_jumps_the_queue(
    t: Tiers,
    force: Option<i64>,
    other: FindingJobKind,
    j: int,
    kind: FindingJobKind,
    i: int,
)
    requires
        0 <= j < t.list(other).len(),
        fits(t.list(other)[j], force, true),
        t.is_pick(force, kind, i),
    ensures
        t.list(kind)[i].override_text() is Some,
{
    assert(any_fit(t.list(other), force, true));
}

/// Where only one repository is wanted, no finding of another is picked.
pub proof fn law_pick_keeps_to_the_repo(t: Tiers, id: i64, kind: FindingJobKind, i: int)
    requires
        t.is_pick(Some(id), kind, i),
    ensures
        t.list(kind)[i].repo_id == id,
{
}

/// A flagged pull request comes before every other finding without an
/// override.
pub proof fn law_attention_comes_first(t: Tiers, force: Option<i64>, j: int, kind: FindingJobKind, i: int)
    requires
        0 <= j < t.attention@.len(),
        fits(t.attention@[j], force, false),
        t.is_pick(force, kind, i),
    ensures
        kind == FindingJobKind::Engage || t.list(kind)[i].override_text() is Some,
{
    assert(any_fit(t.attention@, force, false));
}

/// The rotation leaves disabled repositories alone.
pub proof fn law_disabled_repos_rest(
    repos: Seq<Repo>,
    cloned: Seq<bool>,
    iv: Intervals,
    now: i64,
    i: int,
)
    requires
        is_next_repo(repos, cloned, None, iv, now, i),
    ensures
        repos[i].enabled != 0,
{
}

/// A kind of scan does not come back before it has rested: in a cloned
/// repository whatever is picked was never run or is due.
pub proof fn law_scans_rest(r: Repo, iv: Intervals, now: i64, kind: RepoJobKind)
    requires
        is_work(r, true, iv, now, kind),
    ensures
        exists|i: int| 0 <= i < 6 && (#[trigger] slots(r, iv)[i]).kind == kind && due(slots(r, iv)[i], now),
{
    let i = choose|i: int| is_turn(slots(r, iv), now, i) && slots(r, iv)[i].kind == kind;
    assert(due(slots(r, iv)[i], now));
}

/// A kind that never ran comes before one that did.
pub proof fn law_never_run_comes_first(r: Repo, iv: Intervals, now: i64, i: int, j: int)
    requires
        is_turn(slots(r, iv), now, i),
        0 <= j < 6,
        slots(r, iv)[j].last == 0,
    ensures
        slots(r, iv)[i].last == 0,
{
    assert(due(slots(r, iv)[j], now));
}

/// A suspended attempt at other work never takes a waiting finding's place:
/// while a finding waits, what is continued is an attempt at the pick.
pub proof fn law_waiting_findings_outrank_suspended_work(q: Queue, j: Job, kind: FindingJobKind, i: int)
    requires
        q.tiers.is_pick(q.force, kind, i),
        q.eligible(j),
    ensures
        j.finding_id == Some(q.tiers.list(kind)[i].id),
        j.kind == JobKind::Finding(kind),
{
    lemma_eligible(q, kind, i, j);
}

/// A continued attempt keeps its tier's place: it runs under the override of
/// the finding that it stands for, and is shown as that finding.
pub proof fn law_continued_work_keeps_its_tier(
    q: Queue,
    plan: ResumePlanView,
    c: CandidateView,
    fresh: CandidateView,
)
    requires
        q.tiers.waits(q.force),
        q.is_continued(plan, c),
        q.is_fresh(fresh),
    ensures
        c.label_of() == fresh.label_of(),
        c.override_of() == fresh.override_of(),
{
    let (k, i) = choose|kind: FindingJobKind, i: int| #[trigger]
        q.tiers.is_pick(q.force, kind, i) && c == (CandidateView::Resume {
            label: candidate_for_finding(kind, q.tiers.list(kind)[i]).label_of(),
            budget_override: q.tiers.list(kind)[i].override_text(),
            plan,
        });
    let (o, j) = choose|kind: FindingJobKind, i: int| #[trigger]
        q.tiers.is_pick(q.force, kind, i) && fresh == candidate_for_finding(
            kind,
            q.tiers.list(kind)[i],
        );
    lemma_pick_is_unique(q.tiers, q.force, k, i, o, j);
}

/// Where only one repository is wanted, no suspended attempt of another is
/// continued in the background.
pub proof fn law_background_work_keeps_to_the_repo(q: Queue, id: i64, j: Job)
    requires
        q.force == Some(id),
        !q.tiers.waits(q.force),
        q.eligible(j),
    ensures
        j.repo_id == id,
{
}

/// When a kind of scan last had its turn in a repository.
pub open spec fn column(r: Repo, kind: RepoJobKind) -> Option<i64> {
    match kind {
        RepoJobKind::Hunt => r.last_hunt_at,
        RepoJobKind::TestGap => r.last_test_gap_at,
        RepoJobKind::DepUpdate => r.last_dep_update_at,
        RepoJobKind::Refactor => r.last_refactor_at,
        RepoJobKind::Modernization => r.last_modernization_at,
        RepoJobKind::Standards => r.last_standards_at,
    }
}

/// How long a kind of scan rests, in milliseconds.
pub open spec fn interval(iv: Intervals, kind: RepoJobKind) -> int {
    match kind {
        RepoJobKind::Modernization => iv.modernization_days * 86_400_000,
        RepoJobKind::Standards => iv.standards_days * 86_400_000,
        _ => iv.scan_ms as int,
    }
}

/// A kind of scan that never had its turn; a time of zero counts as never.
pub open spec fn never_ran(r: Repo, kind: RepoJobKind) -> bool {
    column(r, kind) is None || column(r, kind) == Some(0i64)
}

/// A kind of scan that may have its turn: it never had one, or rested.
pub open spec fn rested(r: Repo, iv: Intervals, now: i64, kind: RepoJobKind) -> bool {
    never_ran(r, kind) || now - column(r, kind)->0 >= interval(iv, kind)
}

/// The place of a kind of scan among those that are equally old.
pub open spec fn place(kind: RepoJobKind) -> int {
    match kind {
        RepoJobKind::Hunt => 0,
        RepoJobKind::TestGap => 1,
        RepoJobKind::DepUpdate => 2,
        RepoJobKind::Refactor => 3,
        RepoJobKind::Modernization => 4,
        RepoJobKind::Standards => 5,
    }
}

/// The slot of a kind of scan holds its own column and interval.
proof fn lemma_slot(r: Repo, iv: Intervals, now: i64, kind: RepoJobKind)
    ensures
        0 <= place(kind) < 6,
        slots(r, iv).len() == 6,
        slots(r, iv)[place(kind)].kind == kind,
        slots(r, iv)[place(kind)].last == 0 <==> never_ran(r, kind),
        !never_ran(r, kind) ==> column(r, kind) == Some(slots(r, iv)[place(kind)].last),
        due(slots(r, iv)[place(kind)], now) == rested(r, iv, now, kind),
        forall|i: int| 0 <= i < 6 && (#[trigger] slots(r, iv)[i]).kind == kind ==> i == place(kind),
{
}

/// What a cloned repository is scanned for never had its turn or rested, by
/// the time and the interval of that very kind. Of the kinds that may have
/// their turn one that never had it comes first, then the one that had it
/// longest ago, then the one that is listed first.
pub proof fn law_picked_scan_is_due(r: Repo, iv: Intervals, now: i64, kind: RepoJobKind, other: RepoJobKind)
    requires
        is_work(r, true, iv, now, kind),
    ensures
        rested(r, iv, now, kind),
        other != kind && rested(r, iv, now, other) ==> {
            ||| never_ran(r, kind) && !never_ran(r, other)
            ||| never_ran(r, kind) && never_ran(r, other) && place(kind) < place(other)
            ||| !never_ran(r, kind) && !never_ran(r, other) && column(r, kind)->0 < column(r, other)->0
            ||| !never_ran(r, kind) && !never_ran(r, other) && column(r, kind) == column(r, other) && place(
                kind,
            ) < place(other)
        },
{
    lemma_slot(r, iv, now, kind);
    lemma_slot(r, iv, now, other);
    let s = slots(r, iv);
    let i = choose|i: int| is_turn(s, now, i) && s[i].kind == kind;
    assert(i == place(kind));
    if other != kind && rested(r, iv, now, other) {
        let j = place(other);
        assert(due(s[j], now));
        assert(!preferred(s[j], s[i]));
        if j < i {
            assert(preferred(s[i], s[j]));
        }
        assert(i != j);
    }
}

/// A cloned repository has work exactly where one of the six kinds of scan
/// may have its turn.
pub proof fn law_work_is_a_rested_scan(r: Repo, iv: Intervals, now: i64)
    ensures
        has_work(r, true, iv, now) <==> {
            ||| rested(r, iv, now, RepoJobKind::Hunt)
            ||| rested(r, iv, now, RepoJobKind::TestGap)
            ||| rested(r, iv, now, RepoJobKind::DepUpdate)
            ||| rested(r, iv, now, RepoJobKind::Refactor)
            ||| rested(r, iv, now, RepoJobKind::Modernization)
            ||| rested(r, iv, now, RepoJobKind::Standards)
        },
{
    let s = slots(r, iv);
    lemma_slot(r, iv, now, RepoJobKind::Hunt);
    lemma_slot(r, iv, now, RepoJobKind::TestGap);
    lemma_slot(r, iv, now, RepoJobKind::DepUpdate);
    lemma_slot(r, iv, now, RepoJobKind::Refactor);
    lemma_slot(r, iv, now, RepoJobKind::Modernization);
    lemma_slot(r, iv, now, RepoJobKind::Standards);
    if has_work(r, true, iv, now) {
        let i = choose|i: int| 0 <= i < 6 && due(#[trigger] s[i], now);
        assert(i == 0 || i == 1 || i == 2 || i == 3 || i == 4 || i == 5);
    }
}

/// Where only one kind of scan may have its turn, it has it: its own time is
/// unset, and every other kind ran within its own interval.
pub proof fn law_only_rested_scan_is_picked(r: Repo, iv: Intervals, now: i64, only: RepoJobKind, kind: RepoJobKind)
    requires
        column(r, only) is None,
        forall|k: RepoJobKind|
            k != only ==> (#[trigger] column(r, k) matches Some(t) && t != 0 && now - t < interval(iv, k)),
        is_work(r, true, iv, now, kind),
    ensures
        kind == only,
        has_work(r, true, iv, now),
{
    law_picked_scan_is_due(r, iv, now, kind, only);
    law_work_is_a_rested_scan(r, iv, now);
    if kind != only {
        assert(column(r, kind) is Some);
    }
}

/// A repository without a clone is hunted, whatever its times say.
pub proof fn law_uncloned_repo_is_hunted(r: Repo, iv: Intervals, now: i64, kind: RepoJobKind)
    requires
        is_work(r, false, iv, now, kind),
    ensures
        kind == RepoJobKind::Hunt,
        has_work(r, false, iv, now),
{
}

/// The rotation turns to the repository that was hunted longest ago, of those
/// that take part and have work; one that never was comes first.
pub proof fn law_rotation_turns_to_the_oldest(
    repos: Seq<Repo>,
    cloned: Seq<bool>,
    force: Option<i64>,
    iv: Intervals,
    now: i64,
    i: int,
    j: int,
)
    requires
        is_next_repo(repos, cloned, force, iv, now, i),
        0 <= j < repos.len(),
        match force {
            Some(id) => repos[j].id == id,
            None => repos[j].enabled != 0,
        },
        has_work(repos[j], cloned[j], iv, now),
    ensures
        has_work(repos[i], cloned[i], iv, now),
        match force {
            Some(id) => repos[i].id == id,
            None => repos[i].enabled != 0,
        },
        repos[i].last_hunt_at matches Some(a) ==> (repos[j].last_hunt_at matches Some(b) && a <= b),
        repos[i].last_hunt_at == repos[j].last_hunt_at ==> i <= j,
{
    assert(offers(repos[j], cloned[j], force, iv, now));
}

/// The lists of waiting findings, in the order in which they are served.
pub open spec fn tier(t: Tiers, n: int) -> Seq<Finding> {
    if n == 0 {
        t.attention@
    } else if n == 1 {
        t.pending_harvest@
    } else if n == 2 {
        t.rechecking@
    } else {
        t.queued@
    }
}

/// What is done for the findings of a list.
pub open spec fn served_by(n: int) -> FindingJobKind {
    if n == 0 {
        FindingJobKind::Engage
    } else if n == 1 {
        FindingJobKind::Harvest
    } else if n == 2 {
        FindingJobKind::Recheck
    } else {
        FindingJobKind::Fix
    }
}

/// A finding of the wanted repository, any where none is named.
pub open spec fn is_here(f: Finding, force: Option<i64>) -> bool {
    force is None || force == Some(f.repo_id)
}

/// A finding whose budget may be overridden.
pub open spec fn jumps(f: Finding) -> bool {
    f.budget_override matches Some(s) && s@.len() > 0
}

/// The pick is a finding of the wanted repository. It has an override where
/// any such finding has one, and then it is the first with one. Without
/// overrides it comes from the first list that has such a finding: the first
/// of the flagged and of the merged ones, the last of the rechecks and of the
/// queued ones.
pub proof fn law_pick_follows_the_tiers(t: Tiers, force: Option<i64>, n: int, i: int, m: int, j: int)
    requires
        0 <= n < 4,
        t.is_pick(force, served_by(n), i),
        0 <= m < 4,
        0 <= j < tier(t, m).len(),
        is_here(tier(t, m)[j], force),
    ensures
        0 <= i < tier(t, n).len(),
        is_here(tier(t, n)[i], force),
        jumps(tier(t, m)[j]) ==> jumps(tier(t, n)[i]) && (n < m || (n == m && i <= j)),
        !jumps(tier(t, n)[i]) ==> !jumps(tier(t, m)[j]) && (n < m || (n == m && (if n < 2 {
            i <= j
        } else {
            j <= i
        }))),
{
    let f = tier(t, m)[j];
    assert(fits(f, force, false));
    assert(t.list(served_by(n)) == tier(t, n));
    assert(t.list(served_by(m)) == tier(t, m));
    assert(any_fit(tier(t, m), force, false));
    if jumps(f) {
        assert(fits(f, force, true));
        assert(any_fit(tier(t, m), force, true));
    }
}

/// A candidate for a finding names the finding, its repository and its own
/// override, and is shown by the summary, or by the fingerprint where there is
/// none.
pub proof fn law_candidate_names_its_finding(kind: FindingJobKind, f: Finding)
    ensures
        candidate_for_finding(kind, f).kind_of() == JobKind::Finding(kind),
        candidate_for_finding(kind, f).target_of() == f.id,
        candidate_for_finding(kind, f).repo_of() == f.repo_id,
        candidate_for_finding(kind, f).override_of() is Some <==> jumps(f),
        jumps(f) ==> candidate_for_finding(kind, f).override_of() == Some(f.budget_override->0@),
        f.summary@.len() > 0 ==> candidate_for_finding(kind, f).label_of() == Some(f.summary@),
        f.summary@.len() == 0 ==> candidate_for_finding(kind, f).label_of() == Some(f.fingerprint@),
{
}

/// A candidate for a repository names it, and has no override.
pub proof fn law_candidate_names_its_repo(kind: RepoJobKind, r: Repo)
    ensures
        candidate_for_repo(kind, r).kind_of() == JobKind::Repo(kind),
        candidate_for_repo(kind, r).target_of() == r.id,
        candidate_for_repo(kind, r).repo_of() == r.id,
        candidate_for_repo(kind, r).override_of() is None,
        r.name@.len() > 0 ==> candidate_for_repo(kind, r).label_of() == Some(r.name@),
{
}

/// Only a flagged pull request waits for an engage, by the time since when it
/// is flagged; only one without a follow-up waits for a harvest, by the time
/// of its last look.
pub proof fn law_waiting_pull_requests(p: PrState)
    ensures
        attention_rank(Some(p)) is Some <==> p.needs_attention is Some,
        p.needs_attention is Some && p.attention_since is Some ==> attention_rank(Some(p)) == Some(
            p.attention_since,
        ),
        p.needs_attention is Some && p.attention_since is None ==> attention_rank(Some(p)) == Some(
            p.synced_at,
        ),
        harvest_rank(Some(p)) is Some <==> p.harvested_at is None,
        p.harvested_at is None ==> harvest_rank(Some(p)) == Some(p.synced_at),
        attention_rank(None) is None,
        harvest_rank(None) is None,
{
}

/// The order of what waits: every one that waits is in it, the times never
/// fall, and one without a time comes before those with one.
pub proof fn law_oldest_wait_is_first(keys: Seq<Option<Option<i64>>>, order: Seq<usize>, i: int, j: int)
    requires
        is_oldest_first(keys, order),
        0 <= i < j < order.len(),
    ensures
        keys[order[i] as int] matches Some(a) && (keys[order[j] as int] matches Some(b) && ({
            ||| a is None
            ||| a is Some && b is Some && a->0 <= b->0
        })),
        keys[order[i] as int] == keys[order[j] as int] ==> order[i] < order[j],
{
    assert(comes_before(keys, order[i] as int, order[j] as int));
}

} // verus!
