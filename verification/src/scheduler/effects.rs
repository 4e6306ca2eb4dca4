//! What a scheduler step asks its driver to write, and what it reports.

use vstd::prelude::*;
use crate::domain::{FindingJobKind, FindingStatus, JobKind, JobState, RepoJobKind};
use crate::ingest::IngestResult;
use crate::store::SyncPrData;
use crate::store::SyncPrDataView;
use crate::text;

verus! {

/// Counts of one pass over the open pull requests.
#[derive(Debug, Clone, Copy, PartialEq, Eq, Structural)]
pub struct SyncResult {
    pub synced: i64,
    pub merged: i64,
    pub closed: i64,
    pub attention: i64,
    pub errors: i64,
}

impl SyncResult {
    pub open spec fn zero() -> SyncResult {
        SyncResult { synced: 0, merged: 0, closed: 0, attention: 0, errors: 0 }
    }
}

impl Default for SyncResult {
    fn default() -> (r: SyncResult)
        ensures
            r == SyncResult::zero(),
    {
        SyncResult { synced: 0, merged: 0, closed: 0, attention: 0, errors: 0 }
    }
}

/// What one cycle did. Each step sets the fields that it has something to
/// say about.
#[derive(Debug, Clone)]
pub struct CycleSummary {
    pub kind: Option<JobKind>,
    pub repo: Option<String>,
    pub finding_id: Option<i64>,
    pub job_id: Option<i64>,
    pub state: Option<JobState>,
    pub tokens_new: Option<i64>,
    pub error: Option<String>,
    pub skipped: Option<String>,
    pub denied: Option<String>,
    pub retry_at: Option<i64>,
    pub outcome: Option<String>,
    pub diff_range: Option<String>,
    pub head: Option<String>,
    pub full_rehunt: Option<bool>,
    pub ingest: Option<IngestResult>,
    pub branch: Option<String>,
    pub pr_url: Option<String>,
    pub failure: Option<String>,
    pub attempts: Option<i64>,
    pub worktree: Option<String>,
    pub pr_number: Option<i64>,
    pub verdict: Option<String>,
    pub reason: Option<String>,
    pub sync: Option<SyncResult>,
    pub idle: Option<String>,
}

/// A cycle summary with its texts as character sequences.
pub struct CycleSummaryView {
    pub kind: Option<JobKind>,
    pub repo: Option<Seq<char>>,
    pub finding_id: Option<i64>,
    pub job_id: Option<i64>,
    pub state: Option<JobState>,
    pub tokens_new: Option<i64>,
    pub error: Option<Seq<char>>,
    pub skipped: Option<Seq<char>>,
    pub denied: Option<Seq<char>>,
    pub retry_at: Option<i64>,
    pub outcome: Option<Seq<char>>,
    pub diff_range: Option<Seq<char>>,
    pub head: Option<Seq<char>>,
    pub full_rehunt: Option<bool>,
    pub ingest: Option<IngestResult>,
    pub branch: Option<Seq<char>>,
    pub pr_url: Option<Seq<char>>,
    pub failure: Option<Seq<char>>,
    pub attempts: Option<i64>,
    pub worktree: Option<Seq<char>>,
    pub pr_number: Option<i64>,
    pub verdict: Option<Seq<char>>,
    pub reason: Option<Seq<char>>,
    pub sync: Option<SyncResult>,
    pub idle: Option<Seq<char>>,
}

impl View for CycleSummary {
    type V = CycleSummaryView;

    open spec fn view(&self) -> CycleSummaryView {
        CycleSummaryView {
            kind: self.kind,
            repo: text::opt_text(self.repo),
            finding_id: self.finding_id,
            job_id: self.job_id,
            state: self.state,
            tokens_new: self.tokens_new,
            error: text::opt_text(self.error),
            skipped: text::opt_text(self.skipped),
            denied: text::opt_text(self.denied),
            retry_at: self.retry_at,
            outcome: text::opt_text(self.outcome),
            diff_range: text::opt_text(self.diff_range),
            head: text::opt_text(self.head),
            full_rehunt: self.full_rehunt,
            ingest: self.ingest,
            branch: text::opt_text(self.branch),
            pr_url: text::opt_text(self.pr_url),
            failure: text::opt_text(self.failure),
            attempts: self.attempts,
            worktree: text::opt_text(self.worktree),
            pr_number: self.pr_number,
            verdict: text::opt_text(self.verdict),
            reason: text::opt_text(self.reason),
            sync: self.sync,
            idle: text::opt_text(self.idle),
        }
    }
}

/// The summary that says nothing.
pub open spec fn blank() -> CycleSummaryView {
    CycleSummaryView {
        kind: None,
        repo: None,
        finding_id: None,
        job_id: None,
        state: None,
        tokens_new: None,
        error: None,
        skipped: None,
        denied: None,
        retry_at: None,
        outcome: None,
        diff_range: None,
        head: None,
        full_rehunt: None,
        ingest: None,
        branch: None,
        pr_url: None,
        failure: None,
        attempts: None,
        worktree: None,
        pr_number: None,
        verdict: None,
        reason: None,
        sync: None,
        idle: None,
    }
}

impl Default for CycleSummary {
    fn default() -> (r: CycleSummary)
        ensures
            r@ == blank(),
    {
        CycleSummary {
            kind: None,
            repo: None,
            finding_id: None,
            job_id: None,
            state: None,
            tokens_new: None,
            error: None,
            skipped: None,
            denied: None,
            retry_at: None,
            outcome: None,
            diff_range: None,
            head: None,
            full_rehunt: None,
            ingest: None,
            branch: None,
            pr_url: None,
            failure: None,
            attempts: None,
            worktree: None,
            pr_number: None,
            verdict: None,
            reason: None,
            sync: None,
            idle: None,
        }
    }
}

/// One write that the driver makes, in the order in which they are listed.
#[allow(inconsistent_fields)]
#[derive(Debug, Clone)]
pub enum Effect {
    /// An event for the log.
    Log { kind: String, message: String, job: Option<i64>, finding: Option<i64> },
    /// Move a finding to a status.
    SetStatus { finding: i64, status: FindingStatus },
    /// Move a finding to a status, with the reason.
    SetVerdict { finding: i64, status: FindingStatus, reason: String },
    /// The finding has an open pull request at this address.
    SetPrOpen { finding: i64, url: String },
    /// Forget the failed attempts of one kind at a finding.
    ClearAttempts { finding: i64, kind: FindingJobKind },
    /// Take the budget override off a finding.
    ClearOverride { finding: i64 },
    /// A worker has taken the finding up.
    SetInProgress { finding: i64, status: FindingStatus },
    /// Where the finding is still in the one status, move it to the other.
    FinalizeInProgress { finding: i64, from: FindingStatus, to: FindingStatus },
    /// Replace what a worker re-examined of a finding.
    UpdateAnalysis { finding: i64, summary: Option<String>, detail: Option<String>, severity: Option<String> },
    /// Record the pull request's number.
    SetPrNumber { finding: i64, number: i64 },
    /// The pull request was merged.
    MarkPrMerged { finding: i64, number: i64 },
    /// The pull request was closed.
    MarkPrClosed { finding: i64, number: i64 },
    /// The merged pull request needs no further look.
    MarkPrHarvested { finding: i64 },
    /// The attention reason was dealt with up to this activity.
    MarkPrEngaged { finding: i64, activity: i64, fingerprint: Option<String>, head_sha: Option<String> },
    /// What the forge says of an open pull request.
    SyncPrOpen { finding: i64, data: SyncPrData },
    /// Record a finished job as failed after all.
    FailJob { job: i64, reason: String },
    /// Record a job that could not start.
    FailUnstarted { job: i64, note: String },
    /// The process of a running job died.
    OrphanJob { job: i64, note: String },
    /// The commit that the chain's tree was created at.
    PinSha { job: i64, sha: String },
    /// Take a suspended job out of the resumable ones.
    RetireSuspended { job: i64, state: JobState, reason: Option<String>, note: String },
    /// The repository was hunted up to this commit.
    SetLastHunt { repo: i64, sha: String },
    /// Forget up to where the repository was hunted.
    ClearLastHunt { repo: i64 },
    /// The repository's whole history was hunted.
    SetLastFullHunt { repo: i64 },
    /// A scan of this kind had its turn.
    SetLastKind { repo: i64, kind: RepoJobKind },
}

/// An effect with its texts as character sequences.
#[allow(inconsistent_fields)]
pub enum EffectView {
    Log { kind: Seq<char>, message: Seq<char>, job: Option<i64>, finding: Option<i64> },
    SetStatus { finding: i64, status: FindingStatus },
    SetVerdict { finding: i64, status: FindingStatus, reason: Seq<char> },
    SetPrOpen { finding: i64, url: Seq<char> },
    ClearAttempts { finding: i64, kind: FindingJobKind },
    ClearOverride { finding: i64 },
    SetInProgress { finding: i64, status: FindingStatus },
    FinalizeInProgress { finding: i64, from: FindingStatus, to: FindingStatus },
    UpdateAnalysis { finding: i64, summary: Option<Seq<char>>, detail: Option<Seq<char>>, severity: Option<Seq<char>> },
    SetPrNumber { finding: i64, number: i64 },
    MarkPrMerged { finding: i64, number: i64 },
    MarkPrClosed { finding: i64, number: i64 },
    MarkPrHarvested { finding: i64 },
    MarkPrEngaged { finding: i64, activity: i64, fingerprint: Option<Seq<char>>, head_sha: Option<Seq<char>> },
    SyncPrOpen { finding: i64, data: SyncPrDataView },
    FailJob { job: i64, reason: Seq<char> },
    FailUnstarted { job: i64, note: Seq<char> },
    OrphanJob { job: i64, note: Seq<char> },
    PinSha { job: i64, sha: Seq<char> },
    RetireSuspended { job: i64, state: JobState, reason: Option<Seq<char>>, note: Seq<char> },
    SetLastHunt { repo: i64, sha: Seq<char> },
    ClearLastHunt { repo: i64 },
    SetLastFullHunt { repo: i64 },
    SetLastKind { repo: i64, kind: RepoJobKind },
}

impl View for Effect {
    type V = EffectView;

    open spec fn view(&self) -> EffectView {
        match *self {
            Effect::Log { kind, message, job, finding } => EffectView::Log { kind: kind@, message: message@, job, finding },
            Effect::SetStatus { finding, status } => EffectView::SetStatus { finding, status },
            Effect::SetVerdict { finding, status, reason } => EffectView::SetVerdict { finding, status, reason: reason@ },
            Effect::SetPrOpen { finding, url } => EffectView::SetPrOpen { finding, url: url@ },
            Effect::ClearAttempts { finding, kind } => EffectView::ClearAttempts { finding, kind },
            Effect::ClearOverride { finding } => EffectView::ClearOverride { finding },
            Effect::SetInProgress { finding, status } => EffectView::SetInProgress { finding, status },
            Effect::FinalizeInProgress { finding, from, to } => EffectView::FinalizeInProgress { finding, from, to },
            Effect::UpdateAnalysis { finding, summary, detail, severity } => EffectView::UpdateAnalysis { finding, summary: text::opt_text(summary), detail: text::opt_text(detail), severity: text::opt_text(severity) },
            Effect::SetPrNumber { finding, number } => EffectView::SetPrNumber { finding, number },
            Effect::MarkPrMerged { finding, number } => EffectView::MarkPrMerged { finding, number },
            Effect::MarkPrClosed { finding, number } => EffectView::MarkPrClosed { finding, number },
            Effect::MarkPrHarvested { finding } => EffectView::MarkPrHarvested { finding },
            Effect::MarkPrEngaged { finding, activity, fingerprint, head_sha } => EffectView::MarkPrEngaged { finding, activity, fingerprint: text::opt_text(fingerprint), head_sha: text::opt_text(head_sha) },
            Effect::SyncPrOpen { finding, data } => EffectView::SyncPrOpen { finding, data: data@ },
            Effect::FailJob { job, reason } => EffectView::FailJob { job, reason: reason@ },
            Effect::FailUnstarted { job, note } => EffectView::FailUnstarted { job, note: note@ },
            Effect::OrphanJob { job, note } => EffectView::OrphanJob { job, note: note@ },
            Effect::PinSha { job, sha } => EffectView::PinSha { job, sha: sha@ },
            Effect::RetireSuspended { job, state, reason, note } => EffectView::RetireSuspended { job, state, reason: text::opt_text(reason), note: note@ },
            Effect::SetLastHunt { repo, sha } => EffectView::SetLastHunt { repo, sha: sha@ },
            Effect::ClearLastHunt { repo } => EffectView::ClearLastHunt { repo },
            Effect::SetLastFullHunt { repo } => EffectView::SetLastFullHunt { repo },
            Effect::SetLastKind { repo, kind } => EffectView::SetLastKind { repo, kind },
        }
    }
}

/// The effects of a list, in order.
pub open spec fn effects(v: Seq<Effect>) -> Seq<EffectView> {
    v.map_values(|e: Effect| e@)
}

/// An event for the log.
pub open spec fn log_view(
    kind: Seq<char>,
    message: Seq<char>,
    job: Option<i64>,
    finding: Option<i64>,
) -> EffectView {
    EffectView::Log { kind, message, job, finding }
}

pub fn log(kind: &str, message: String, job: Option<i64>, finding: Option<i64>) -> (r: Effect)
    ensures
        r@ == log_view(kind@, message@, job, finding),
{
    Effect::Log { kind: kind.to_owned(), message, job, finding }
}

/// Append one effect.
pub fn add_effect(v: &mut Vec<Effect>, e: Effect)
    ensures
        effects(final(v)@) == effects(old(v)@).push(e@),
{
    v.push(e);
    assert(effects(v@) =~= effects(old(v)@).push(e@));
}

/// No effects.
pub fn no_effects() -> (r: Vec<Effect>)
    ensures
        effects(r@) == Seq::<EffectView>::empty(),
{
    let r: Vec<Effect> = Vec::new();
    assert(effects(r@) =~= Seq::<EffectView>::empty());
    r
}

/// One effect.
pub fn one_effect(e: Effect) -> (r: Vec<Effect>)
    ensures
        effects(r@) == seq![e@],
{
    let mut r: Vec<Effect> = Vec::new();
    r.push(e);
    assert(effects(r@) =~= seq![e@]);
    r
}

// ---------------------------------------------------------------------
// What effects come to
// ---------------------------------------------------------------------

/// The status of a finding after one write.
pub open spec fn status_with(e: EffectView, id: i64, was: FindingStatus) -> FindingStatus {
    match e {
        EffectView::SetStatus { finding, status } => if finding == id { status } else { was },
        EffectView::SetVerdict { finding, status, .. } => if finding == id { status } else { was },
        EffectView::SetInProgress { finding, status } => if finding == id { status } else { was },
        EffectView::SetPrOpen { finding, .. } => if finding == id {
            FindingStatus::PrOpen
        } else {
            was
        },
        EffectView::FinalizeInProgress { finding, from, to } => if finding == id && was == from {
            to
        } else {
            was
        },
        _ => was,
    }
}

/// The status of a finding after a list of writes, in order.
pub open spec fn status_after(v: Seq<EffectView>, id: i64, was: FindingStatus) -> FindingStatus
    decreases v.len(),
{
    if v.len() == 0 {
        was
    } else {
        status_with(v.last(), id, status_after(v.drop_last(), id, was))
    }
}

/// The finding that a write changes, where it changes one.
pub open spec fn finding_of(e: EffectView) -> Option<i64> {
    match e {
        EffectView::SetStatus { finding, .. } => Some(finding),
        EffectView::SetVerdict { finding, .. } => Some(finding),
        EffectView::SetPrOpen { finding, .. } => Some(finding),
        EffectView::ClearAttempts { finding, .. } => Some(finding),
        EffectView::ClearOverride { finding } => Some(finding),
        EffectView::SetInProgress { finding, .. } => Some(finding),
        EffectView::FinalizeInProgress { finding, .. } => Some(finding),
        EffectView::UpdateAnalysis { finding, .. } => Some(finding),
        EffectView::SetPrNumber { finding, .. } => Some(finding),
        EffectView::MarkPrMerged { finding, .. } => Some(finding),
        EffectView::MarkPrClosed { finding, .. } => Some(finding),
        EffectView::MarkPrHarvested { finding } => Some(finding),
        EffectView::MarkPrEngaged { finding, .. } => Some(finding),
        EffectView::SyncPrOpen { finding, .. } => Some(finding),
        EffectView::Log { finding, .. } => finding,
        _ => None,
    }
}

/// The job that a write changes or speaks of, where there is one.
pub open spec fn job_of(e: EffectView) -> Option<i64> {
    match e {
        EffectView::FailJob { job, .. } => Some(job),
        EffectView::FailUnstarted { job, .. } => Some(job),
        EffectView::OrphanJob { job, .. } => Some(job),
        EffectView::PinSha { job, .. } => Some(job),
        EffectView::RetireSuspended { job, .. } => Some(job),
        EffectView::Log { job, .. } => job,
        _ => None,
    }
}

/// Whether the writes concern no finding but one, and no job but one.
pub open spec fn keeps_to(v: Seq<EffectView>, finding: i64, job: i64) -> bool {
    forall|i: int|
        0 <= i < v.len() ==> (finding_of(#[trigger] v[i]) matches Some(f) ==> f == finding) && (job_of(
            v[i],
        ) matches Some(j) ==> j == job)
}

/// Whether a write forgets the failed attempts of a kind at a finding.
pub open spec fn forgets(v: Seq<EffectView>, finding: i64, kind: FindingJobKind) -> bool {
    exists|i: int| 0 <= i < v.len() && #[trigger] v[i] == (EffectView::ClearAttempts { finding, kind })
}

/// Whether a write takes the override off a finding.
pub open spec fn drops_override(v: Seq<EffectView>, id: i64) -> bool {
    exists|i: int| 0 <= i < v.len() && #[trigger] v[i] == (EffectView::ClearOverride { finding: id })
}

/// The reason that is kept with a verdict on a finding, where one is given.
pub open spec fn reason_after(v: Seq<EffectView>, id: i64) -> Option<Seq<char>>
    decreases v.len(),
{
    if v.len() == 0 {
        None
    } else {
        match v.last() {
            EffectView::SetVerdict { finding, reason, .. } => if finding == id {
                Some(reason)
            } else {
                reason_after(v.drop_last(), id)
            },
            _ => reason_after(v.drop_last(), id),
        }
    }
}

/// Two lists one after the other.
pub proof fn lemma_status_concat(a: Seq<EffectView>, b: Seq<EffectView>, id: i64, was: FindingStatus)
    ensures
        status_after(a + b, id, was) == status_after(b, id, status_after(a, id, was)),
    decreases b.len(),
{
    if b.len() == 0 {
        assert(a + b =~= a);
    } else {
        assert((a + b).drop_last() =~= a + b.drop_last());
        lemma_status_concat(a, b.drop_last(), id, was);
    }
}

/// Short lists write after write.
pub proof fn lemma_short_lists(v: Seq<EffectView>, id: i64, was: FindingStatus)
    ensures
        v.len() == 0 ==> status_after(v, id, was) == was && reason_after(v, id) is None,
        v.len() == 1 ==> status_after(v, id, was) == status_with(v[0], id, was),
        v.len() == 2 ==> status_after(v, id, was) == status_with(
            v[1],
            id,
            status_with(v[0], id, was),
        ),
        v.len() == 3 ==> status_after(v, id, was) == status_with(
            v[2],
            id,
            status_with(v[1], id, status_with(v[0], id, was)),
        ),
        v.len() == 4 ==> status_after(v, id, was) == status_with(
            v[3],
            id,
            status_with(v[2], id, status_with(v[1], id, status_with(v[0], id, was))),
        ),
        v.len() == 5 ==> status_after(v, id, was) == status_with(
            v[4],
            id,
            status_with(
                v[3],
                id,
                status_with(v[2], id, status_with(v[1], id, status_with(v[0], id, was))),
            ),
        ),
        v.len() == 6 ==> status_after(v, id, was) == status_with(
            v[5],
            id,
            status_with(
                v[4],
                id,
                status_with(
                    v[3],
                    id,
                    status_with(v[2], id, status_with(v[1], id, status_with(v[0], id, was))),
                ),
            ),
        ),
    decreases v.len(),
{
    reveal_with_fuel(reason_after, 2);
    if v.len() > 0 {
        lemma_short_lists(v.drop_last(), id, was);
    }
}

/// Where only the first write can be a verdict, the reason is its reason.
pub proof fn lemma_first_reason(v: Seq<EffectView>, id: i64)
    requires
        forall|i: int| 0 < i < v.len() ==> !(#[trigger] v[i] is SetVerdict),
    ensures
        reason_after(v, id) == (if v.len() > 0 {
            match v[0] {
                EffectView::SetVerdict { finding, reason, .. } => if finding == id {
                    Some(reason)
                } else {
                    None
                },
                _ => None,
            }
        } else {
            None
        }),
    decreases v.len(),
{
    if v.len() > 1 {
        assert(forall|i: int| 0 <= i < v.len() - 1 ==> v.drop_last()[i] == v[i]);
        lemma_first_reason(v.drop_last(), id);
    } else if v.len() == 1 {
        reveal_with_fuel(reason_after, 2);
    }
}

} // verus!
