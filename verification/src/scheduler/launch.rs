//! From the budget gate to the recorded outcome: the steps that every kind
//! of job shares.
//!
//! A launch is a machine. Its driver performs the action that a step hands
//! out, writes the step's effects first, and hands the reply back.

use vstd::prelude::*;
use crate::backend::JobClass;
use crate::domain::{FindingJobKind, FindingStatus, JobKind, JobState, RepoJobKind};
use crate::scheduler::effects;
use crate::scheduler::effects::{CycleSummary, CycleSummaryView, Effect, EffectView};
use crate::scheduler::prepare;
use crate::scheduler::resume::ResumePlan;
use crate::scheduler::select;
use crate::text;
use crate::types::{Finding, Repo, RunResult};
use crate::util;
use crate::workspace::{TreeSpec, TreeSpecView};

verus! {

/// A suspended attempt that this launch continues.
#[derive(Debug, Clone)]
pub struct ResumeRef {
    pub predecessor_id: i64,
    pub anticipated: i64,
    /// Name of the repository, for the messages about the outcome.
    pub repo: String,
}

/// What is launched.
#[derive(Debug, Clone)]
pub struct LaunchSpec {
    pub kind: JobKind,
    pub repo_id: i64,
    pub repo_name: String,
    pub finding_id: Option<i64>,
    /// Judge by the verdict for prioritized work.
    pub use_override: bool,
    /// How the messages of this launch begin.
    pub prefix: String,
    pub resume: Option<ResumeRef>,
    pub tree: TreeSpec,
    /// The pull request is looked at before the job is created.
    pub views_pr: bool,
    /// The finding is held in the fixing status while the worker runs.
    pub holds_finding: bool,
}

/// What a worker is told.
#[derive(Debug, Clone, Copy, PartialEq, Eq, Structural)]
pub enum Told {
    /// The playbook of its kind, filled in.
    Playbook,
    /// To carry on: the session holds the playbook.
    CarryOn,
    /// To carry on, where the playbook could still be filled in: one that
    /// cannot be is a fault worth surfacing on a resumed fix too.
    CarryOnChecked,
}

/// What the worker of a launch is told.
pub open spec fn told(spec: LaunchSpec) -> Told {
    if spec.resume is None {
        Told::Playbook
    } else if spec.holds_finding {
        Told::CarryOnChecked
    } else {
        Told::CarryOn
    }
}

/// Where a launch stands.
#[derive(Debug, Clone, Copy, PartialEq, Eq, Structural)]
pub enum LaunchPhase {
    /// Waiting for the budget gate.
    Gate,
    /// Waiting for the view of the pull request.
    View { cap: Option<i64>, anticipated: i64 },
    /// Waiting for the job row.
    Create { cap: Option<i64> },
    /// Waiting for the workspace.
    Open { job: i64, cap: Option<i64> },
    /// Waiting for the worker.
    Run { job: i64 },
    /// Waiting for the outcome to be recorded; with it goes whether the
    /// transcript to continue was gone.
    Record { job: i64, state: JobState, gone: bool },
    /// Nothing is left to do.
    Ended,
}

/// What the driver does next.
#[derive(Debug, Clone)]
pub enum LaunchAction {
    /// Ask the budget gate for a verdict on this reservation; without one,
    /// on the history of the kind.
    Gate { reserve: Option<i64>, use_override: bool },
    ViewPr,
    CreateJob { cap: Option<i64>, anticipated: i64, resume_of: Option<i64> },
    /// Release the trees of the superseded chains, then make the tree.
    OpenWorkspace { job: i64, release: Vec<i64>, tree: TreeSpec },
    RunWorker { job: i64, cap: Option<i64>, told: Told },
    /// Record the outcome; where a predecessor is named, retire it.
    Record { job: i64, state: JobState, notes: Option<String>, retire: Option<(i64, String)> },
    /// The worker ran: the kind's own conclusion follows.
    Ran { job: i64, state: JobState },
    Finish { summary: CycleSummary },
    Abort { error: String },
}

pub enum LaunchActionView {
    Gate { reserve: Option<i64>, use_override: bool },
    ViewPr,
    CreateJob { cap: Option<i64>, anticipated: i64, resume_of: Option<i64> },
    OpenWorkspace { job: i64, release: Seq<i64>, tree: TreeSpecView },
    RunWorker { job: i64, cap: Option<i64>, told: Told },
    Record {
        job: i64,
        state: JobState,
        notes: Option<Seq<char>>,
        retire: Option<(i64, Seq<char>)>,
    },
    Ran { job: i64, state: JobState },
    Finish { summary: CycleSummaryView },
    Abort { error: Seq<char> },
}

impl View for LaunchAction {
    type V = LaunchActionView;

    open spec fn view(&self) -> LaunchActionView {
        match *self {
            LaunchAction::Gate { reserve, use_override } => LaunchActionView::Gate {
                reserve,
                use_override,
            },
            LaunchAction::ViewPr => LaunchActionView::ViewPr,
            LaunchAction::CreateJob { cap, anticipated, resume_of } => LaunchActionView::CreateJob {
                cap,
                anticipated,
                resume_of,
            },
            LaunchAction::OpenWorkspace { job, release, tree } => LaunchActionView::OpenWorkspace {
                job,
                release: release@,
                tree: tree@,
            },
            LaunchAction::RunWorker { job, cap, told } => LaunchActionView::RunWorker {
                job,
                cap,
                told,
            },
            LaunchAction::Record { job, state, notes, retire } => LaunchActionView::Record {
                job,
                state,
                notes: text::opt_text(notes),
                retire: match retire {
                    Some((p, m)) => Some((p, m@)),
                    None => None,
                },
            },
            LaunchAction::Ran { job, state } => LaunchActionView::Ran { job, state },
            LaunchAction::Finish { summary } => LaunchActionView::Finish { summary: summary@ },
            LaunchAction::Abort { error } => LaunchActionView::Abort { error: error@ },
        }
    }
}

/// What came back.
#[derive(Debug, Clone)]
pub enum LaunchEvent {
    Granted { cap: Option<i64>, anticipated: i64 },
    Denied { reason: String, retry_at: Option<i64> },
    Viewed,
    ViewFailed { error: String },
    JobCreated { id: i64, superseded: Vec<i64> },
    JobRefused { message: String },
    Opened { sha: String },
    OpenFailed { why: String },
    /// The prompt could not be built, or the worker could not be run.
    RunFailed { error: String },
    RunDone { result: RunResult },
    Recorded,
    RecordFailed,
}

/// State of a job after a run. A cap kill that left a transcript is a pause;
/// every other kill is final; a resume that could not start has failed.
pub open spec fn state_after(rr: RunResult) -> JobState {
    match rr.killed_reason {
        Some(r) => if r@ == "cap"@ && rr.session_file is Some {
            JobState::Suspended
        } else if r@ == "resume-unavailable"@ {
            JobState::Failed
        } else {
            JobState::Killed
        },
        None => if rr.exit_code == Some(0i32) {
            JobState::Done
        } else {
            JobState::Failed
        },
    }
}

pub fn job_state(rr: &RunResult) -> (r: JobState)
    ensures
        r == state_after(*rr),
{
    match &rr.killed_reason {
        Some(reason) => {
            if text::same(reason, "cap") && rr.session_file.is_some() {
                JobState::Suspended
            } else if text::same(reason, "resume-unavailable") {
                JobState::Failed
            } else {
                JobState::Killed
            }
        },
        None => match rr.exit_code {
            Some(c) => if c == 0 {
                JobState::Done
            } else {
                JobState::Failed
            },
            None => JobState::Failed,
        },
    }
}

/// What is noted of a run: the end of its output, unless it is done or said
/// nothing.
pub open spec fn run_notes(rr: RunResult) -> Option<Seq<char>> {
    if state_after(rr) != JobState::Done && rr.stdout_tail@.len() > 0 {
        Some(util::tail_text(rr.stdout_tail@, 500))
    } else {
        None
    }
}

/// The predecessor to retire after a run, with the message: its transcript
/// was gone, so nothing could be continued.
pub open spec fn retired_after(spec: LaunchSpec, rr: RunResult) -> Option<(i64, Seq<char>)> {
    match spec.resume {
        Some(p) => if session_gone(rr) {
            Some((p.predecessor_id, gone_text(spec.kind, p)))
        } else {
            None
        },
        None => None,
    }
}

/// Whether the transcript that a run was to continue was not there.
pub open spec fn session_gone(rr: RunResult) -> bool {
    text::opt_text(rr.killed_reason) == Some("resume-unavailable"@)
}

/// What is said of a predecessor whose transcript is gone.
pub open spec fn gone_text(kind: JobKind, p: ResumeRef) -> Seq<char> {
    "resume "@ + kind.text() + " "@ + p.repo@ + ": session gone, predecessor job "@
        + text::int_text(p.predecessor_id as int) + " marked killed"@
}

fn gone_note(kind: JobKind, p: &ResumeRef) -> (r: String)
    ensures
        r@ == gone_text(kind, *p),
{
    "resume ".to_owned().concat(kind.as_str()).concat(" ").concat(&p.repo).concat(
        ": session gone, predecessor job ",
    ).concat(text::int_to_text(p.predecessor_id).as_str()).concat(" marked killed")
}

/// What is logged once the outcome is recorded.
pub open spec fn recorded_effects(spec: LaunchSpec, job: i64, gone: bool) -> Seq<EffectView> {
    match spec.resume {
        Some(p) => if gone {
            seq![
                effects::log_view("error"@, gone_text(spec.kind, p), Some(job), spec.finding_id),
            ]
        } else {
            Seq::empty()
        },
        None => Seq::empty(),
    }
}

/// The summary of a refused job: the repository was deleted in between.
pub open spec fn refused_summary(spec: LaunchSpec, message: Seq<char>) -> CycleSummaryView {
    CycleSummaryView {
        kind: Some(spec.kind),
        repo: Some(spec.repo_name@),
        finding_id: spec.finding_id,
        skipped: Some(message),
        ..effects::blank()
    }
}

/// One step of a launch: the effects, the next phase and the next action.
pub open spec fn launch_next(
    spec: LaunchSpec,
    phase: LaunchPhase,
    event: LaunchEvent,
) -> (Seq<EffectView>, LaunchPhase, LaunchActionView) {
    let quiet = Seq::<EffectView>::empty();
    let release = if spec.holds_finding && spec.finding_id is Some {
        seq![
            EffectView::FinalizeInProgress {
                finding: spec.finding_id->0,
                from: FindingStatus::Fixing,
                to: FindingStatus::Queued,
            },
        ]
    } else {
        quiet
    };
    match (phase, event) {
        (LaunchPhase::Gate, LaunchEvent::Denied { reason, retry_at }) => (
            seq![effects::log_view("deny"@, spec.prefix@ + ": "@ + reason@, None, spec.finding_id)],
            LaunchPhase::Ended,
            LaunchActionView::Finish {
                summary: CycleSummaryView {
                    kind: Some(spec.kind),
                    denied: Some(reason@),
                    retry_at,
                    ..effects::blank()
                },
            },
        ),
        (LaunchPhase::Gate, LaunchEvent::Granted { cap, anticipated }) => if spec.views_pr {
            (quiet, LaunchPhase::View { cap, anticipated }, LaunchActionView::ViewPr)
        } else {
            (quiet, LaunchPhase::Create { cap }, create_action(spec, cap, anticipated))
        },
        (LaunchPhase::View { cap, anticipated }, LaunchEvent::Viewed) => (
            quiet,
            LaunchPhase::Create { cap },
            create_action(spec, cap, anticipated),
        ),
        (LaunchPhase::View { cap, anticipated }, LaunchEvent::ViewFailed { error }) => (
            seq![
                effects::log_view(
                    "error"@,
                    spec.prefix@ + ": PR/MR view failed: "@ + error@,
                    None,
                    spec.finding_id,
                ),
            ],
            LaunchPhase::Ended,
            LaunchActionView::Abort { error: "PR/MR view failed"@ },
        ),
        (LaunchPhase::Create { cap }, LaunchEvent::JobRefused { message }) => (
            quiet,
            LaunchPhase::Ended,
            LaunchActionView::Finish { summary: refused_summary(spec, message@) },
        ),
        (LaunchPhase::Create { cap }, LaunchEvent::JobCreated { id, superseded }) => if spec.resume
            is Some {
            (
                run_effects(spec),
                LaunchPhase::Run { job: id },
                LaunchActionView::RunWorker { job: id, cap, told: told(spec) },
            )
        } else {
            (
                quiet,
                LaunchPhase::Open { job: id, cap },
                LaunchActionView::OpenWorkspace {
                    job: id,
                    release: superseded@,
                    tree: spec.tree@,
                },
            )
        },
        (LaunchPhase::Open { job, cap }, LaunchEvent::Opened { sha }) => (
            seq![EffectView::PinSha { job, sha: sha@ }] + run_effects(spec),
            LaunchPhase::Run { job },
            LaunchActionView::RunWorker { job, cap, told: told(spec) },
        ),
        (LaunchPhase::Open { job, cap }, LaunchEvent::OpenFailed { why }) => {
            let note = "workspace not created: "@ + why@;
            (
                seq![
                    EffectView::FailUnstarted { job, note },
                    effects::log_view(
                        "error"@,
                        spec.prefix@ + ": job "@ + text::int_text(job as int) + " "@ + note,
                        Some(job),
                        spec.finding_id,
                    ),
                ],
                LaunchPhase::Ended,
                LaunchActionView::Finish {
                    summary: CycleSummaryView {
                        kind: Some(spec.kind),
                        repo: Some(spec.repo_name@),
                        finding_id: spec.finding_id,
                        job_id: Some(job),
                        state: Some(JobState::Failed),
                        failure: Some(note),
                        ..effects::blank()
                    },
                },
            )
        },
        (LaunchPhase::Run { job }, LaunchEvent::RunFailed { error }) => (
            release,
            LaunchPhase::Ended,
            LaunchActionView::Abort { error: error@ },
        ),
        (LaunchPhase::Run { job }, LaunchEvent::RunDone { result }) => (
            quiet,
            LaunchPhase::Record { job, state: state_after(result), gone: session_gone(result) },
            LaunchActionView::Record {
                job,
                state: state_after(result),
                notes: run_notes(result),
                retire: retired_after(spec, result),
            },
        ),
        (LaunchPhase::Record { job, state, gone }, LaunchEvent::Recorded) => (
            recorded_effects(spec, job, gone),
            LaunchPhase::Ended,
            LaunchActionView::Ran { job, state },
        ),
        (LaunchPhase::Record { job, .. }, LaunchEvent::RecordFailed) => (
            quiet,
            LaunchPhase::Ended,
            LaunchActionView::Ran { job, state: JobState::Failed },
        ),
        _ => (quiet, LaunchPhase::Ended, LaunchActionView::Abort { error: "out of turn"@ }),
    }
}

/// The effects with which a worker starts: a held finding is taken up.
pub open spec fn run_effects(spec: LaunchSpec) -> Seq<EffectView> {
    if spec.holds_finding && spec.finding_id is Some {
        seq![
            EffectView::SetInProgress {
                finding: spec.finding_id->0,
                status: FindingStatus::Fixing,
            },
        ]
    } else {
        Seq::empty()
    }
}

pub open spec fn create_action(
    spec: LaunchSpec,
    cap: Option<i64>,
    anticipated: i64,
) -> LaunchActionView {
    LaunchActionView::CreateJob {
        cap,
        anticipated,
        resume_of: match spec.resume {
            Some(p) => Some(p.predecessor_id),
            None => None,
        },
    }
}

/// The first action of a launch.
pub fn launch_start(spec: &LaunchSpec) -> (r: LaunchAction)
    ensures
        r@ == (LaunchActionView::Gate {
            reserve: match spec.resume {
                Some(p) => Some(p.anticipated),
                None => None,
            },
            use_override: spec.use_override,
        }),
{
    LaunchAction::Gate {
        reserve: match &spec.resume {
            Some(p) => Some(p.anticipated),
            None => None,
        },
        use_override: spec.use_override,
    }
}

fn create_job(spec: &LaunchSpec, cap: Option<i64>, anticipated: i64) -> (r: LaunchAction)
    ensures
        r@ == create_action(*spec, cap, anticipated),
{
    LaunchAction::CreateJob {
        cap,
        anticipated,
        resume_of: match &spec.resume {
            Some(p) => Some(p.predecessor_id),
            None => None,
        },
    }
}

fn tell(spec: &LaunchSpec) -> (r: Told)
    ensures
        r == told(*spec),
{
    if spec.resume.is_none() {
        Told::Playbook
    } else if spec.holds_finding {
        Told::CarryOnChecked
    } else {
        Told::CarryOn
    }
}

fn take_up(spec: &LaunchSpec, out: &mut Vec<Effect>)
    ensures
        effects::effects(final(out)@) == effects::effects(old(out)@) + run_effects(*spec),
{
    if spec.holds_finding {
        if let Some(f) = spec.finding_id {
            effects::add_effect(
                out,
                Effect::SetInProgress { finding: f, status: FindingStatus::Fixing },
            );
        }
    }
    assert(effects::effects(out@) =~= effects::effects(old(out)@) + run_effects(*spec));
}

/// One step of a launch.
pub fn launch_step(spec: &LaunchSpec, phase: LaunchPhase, event: LaunchEvent) -> (r: (
    Vec<Effect>,
    LaunchPhase,
    LaunchAction,
))
    ensures
        (effects::effects(r.0@), r.1, r.2@) == launch_next(*spec, phase, event),
{
    let mut out = effects::no_effects();
    match (phase, event) {
        (LaunchPhase::Gate, LaunchEvent::Denied { reason, retry_at }) => {
            let msg = spec.prefix.clone().concat(": ").concat(&reason);
            effects::add_effect(&mut out, effects::log("deny", msg, None, spec.finding_id));
            let summary = CycleSummary {
                kind: Some(spec.kind),
                denied: Some(reason),
                retry_at,
                ..CycleSummary::default()
            };
            assert(effects::effects(out@) =~= launch_next(*spec, phase, event).0);
            (out, LaunchPhase::Ended, LaunchAction::Finish { summary })
        },
        (LaunchPhase::Gate, LaunchEvent::Granted { cap, anticipated }) => if spec.views_pr {
            (out, LaunchPhase::View { cap, anticipated }, LaunchAction::ViewPr)
        } else {
            (out, LaunchPhase::Create { cap }, create_job(spec, cap, anticipated))
        },
        (LaunchPhase::View { cap, anticipated }, LaunchEvent::Viewed) => {
            (out, LaunchPhase::Create { cap }, create_job(spec, cap, anticipated))
        },
        (LaunchPhase::View { cap: _, anticipated: _ }, LaunchEvent::ViewFailed { error }) => {
            let msg = spec.prefix.clone().concat(": PR/MR view failed: ").concat(&error);
            effects::add_effect(&mut out, effects::log("error", msg, None, spec.finding_id));
            assert(effects::effects(out@) =~= launch_next(*spec, phase, event).0);
            (out, LaunchPhase::Ended, LaunchAction::Abort { error: "PR/MR view failed".to_owned() })
        },
        (LaunchPhase::Create { cap: _ }, LaunchEvent::JobRefused { message }) => {
            let summary = CycleSummary {
                kind: Some(spec.kind),
                repo: Some(spec.repo_name.clone()),
                finding_id: spec.finding_id,
                skipped: Some(message),
                ..CycleSummary::default()
            };
            (out, LaunchPhase::Ended, LaunchAction::Finish { summary })
        },
        (LaunchPhase::Create { cap }, LaunchEvent::JobCreated { id, superseded }) => {
            if spec.resume.is_some() {
                take_up(spec, &mut out);
                assert(effects::effects(out@) =~= run_effects(*spec));
                (
                    out,
                    LaunchPhase::Run { job: id },
                    LaunchAction::RunWorker { job: id, cap, told: tell(spec) },
                )
            } else {
                (
                    out,
                    LaunchPhase::Open { job: id, cap },
                    LaunchAction::OpenWorkspace {
                        job: id,
                        release: superseded,
                        tree: spec.tree.copy(),
                    },
                )
            }
        },
        (LaunchPhase::Open { job, cap }, LaunchEvent::Opened { sha }) => {
            effects::add_effect(&mut out, Effect::PinSha { job, sha });
            take_up(spec, &mut out);
            assert(effects::effects(out@) =~= launch_next(*spec, phase, event).0);
            (
                out,
                LaunchPhase::Run { job },
                LaunchAction::RunWorker { job, cap, told: tell(spec) },
            )
        },
        (LaunchPhase::Open { job, cap: _ }, LaunchEvent::OpenFailed { why }) => {
            let note = "workspace not created: ".to_owned().concat(&why);
            let msg = spec.prefix.clone().concat(": job ").concat(
                text::int_to_text(job).as_str(),
            ).concat(" ").concat(&note);
            effects::add_effect(&mut out, Effect::FailUnstarted { job, note: note.clone() });
            effects::add_effect(
                &mut out,
                effects::log("error", msg, Some(job), spec.finding_id),
            );
            let summary = CycleSummary {
                kind: Some(spec.kind),
                repo: Some(spec.repo_name.clone()),
                finding_id: spec.finding_id,
                job_id: Some(job),
                state: Some(JobState::Failed),
                failure: Some(note),
                ..CycleSummary::default()
            };
            assert(effects::effects(out@) =~= launch_next(*spec, phase, event).0);
            (out, LaunchPhase::Ended, LaunchAction::Finish { summary })
        },
        (LaunchPhase::Run { job: _ }, LaunchEvent::RunFailed { error }) => {
            if spec.holds_finding {
                if let Some(f) = spec.finding_id {
                    effects::add_effect(
                        &mut out,
                        Effect::FinalizeInProgress {
                            finding: f,
                            from: FindingStatus::Fixing,
                            to: FindingStatus::Queued,
                        },
                    );
                }
            }
            assert(effects::effects(out@) =~= launch_next(*spec, phase, event).0);
            (out, LaunchPhase::Ended, LaunchAction::Abort { error })
        },
        (LaunchPhase::Run { job }, LaunchEvent::RunDone { result }) => {
            let state = job_state(&result);
            let notes: Option<String> = if state != JobState::Done
                && !result.stdout_tail.as_str().is_empty() {
                Some(util::tail(&result.stdout_tail, 500).to_owned())
            } else {
                None
            };
            let gone = text::opt_is(&result.killed_reason, "resume-unavailable");
            let retire: Option<(i64, String)> = match &spec.resume {
                Some(p) => if gone {
                    Some((p.predecessor_id, gone_note(spec.kind, p)))
                } else {
                    None
                },
                None => None,
            };
            (
                out,
                LaunchPhase::Record { job, state, gone },
                LaunchAction::Record { job, state, notes, retire },
            )
        },
        (LaunchPhase::Record { job, state, gone }, LaunchEvent::Recorded) => {
            if gone {
                if let Some(p) = &spec.resume {
                    let note = gone_note(spec.kind, p);
                    effects::add_effect(
                        &mut out,
                        effects::log("error", note, Some(job), spec.finding_id),
                    );
                }
            }
            assert(effects::effects(out@) =~= recorded_effects(*spec, job, gone));
            (out, LaunchPhase::Ended, LaunchAction::Ran { job, state })
        },
        (LaunchPhase::Record { job, .. }, LaunchEvent::RecordFailed) => {
            (out, LaunchPhase::Ended, LaunchAction::Ran { job, state: JobState::Failed })
        },
        _ => (out, LaunchPhase::Ended, LaunchAction::Abort { error: "out of turn".to_owned() }),
    }
}

// ---------------------------------------------------------------------
// What each kind of job is launched as
// ---------------------------------------------------------------------

/// The class of budget and model that a kind runs under: what scans or
/// re-examines is a hunt, what works on a finding's change is a fix.
pub open spec fn class_of(kind: JobKind) -> JobClass {
    match kind {
        JobKind::Repo(_) => JobClass::Hunt,
        JobKind::Finding(FindingJobKind::Recheck) => JobClass::Hunt,
        JobKind::Finding(_) => JobClass::Fix,
    }
}

pub fn job_class(kind: JobKind) -> (r: JobClass)
    ensures
        r == class_of(kind),
{
    match kind {
        JobKind::Repo(_) => JobClass::Hunt,
        JobKind::Finding(FindingJobKind::Recheck) => JobClass::Hunt,
        JobKind::Finding(_) => JobClass::Fix,
    }
}

/// The tip of a branch, as a clone knows it from its origin.
pub fn tip_of(branch: &str) -> (r: String)
    ensures
        r@ == "origin/"@ + branch@,
{
    "origin/".to_owned().concat(branch)
}

/// The attempt that a plan continues.
pub fn resume_ref(plan: &ResumePlan) -> (r: ResumeRef)
    ensures
        r.predecessor_id == plan.predecessor_id,
        r.anticipated == plan.anticipated,
        r.repo@ == plan.repo@,
{
    ResumeRef {
        predecessor_id: plan.predecessor_id,
        anticipated: plan.anticipated,
        repo: plan.repo.clone(),
    }
}

/// The launch of a scan of a repository at a commit. Nothing overrides the
/// budget for it.
pub fn repo_launch(
    kind: RepoJobKind,
    repo: &Repo,
    at: &str,
    resume: Option<ResumeRef>,
) -> (r: LaunchSpec)
    ensures
        r.kind == JobKind::Repo(kind),
        r.repo_id == repo.id,
        r.repo_name@ == repo.name@,
        r.finding_id is None,
        !r.use_override,
        r.prefix@ == kind.text() + " "@ + repo.name@,
        r.resume == resume,
        r.tree@ == (TreeSpecView::Detached { at: at@ }),
        !r.views_pr,
        !r.holds_finding,
{
    LaunchSpec {
        kind: JobKind::Repo(kind),
        repo_id: repo.id,
        repo_name: repo.name.clone(),
        finding_id: None,
        use_override: false,
        prefix: kind.as_str().to_owned().concat(" ").concat(&repo.name),
        resume,
        tree: TreeSpec::Detached { at: at.to_owned() },
        views_pr: false,
        holds_finding: false,
    }
}

/// The tree that a kind of job works in: a fix on a branch of its own, an
/// answer on the branch of the pull request, the rest at the tip.
pub open spec fn tree_for(kind: FindingJobKind, branch: Seq<char>, default_branch: Seq<char>) -> TreeSpecView {
    match kind {
        FindingJobKind::Fix => TreeSpecView::Branch { name: branch, at: "origin/"@ + default_branch },
        FindingJobKind::Engage => TreeSpecView::PrHead { head_ref: branch },
        FindingJobKind::Harvest => TreeSpecView::Detached { at: "origin/"@ + default_branch },
        FindingJobKind::Recheck => TreeSpecView::Detached { at: "origin/"@ + default_branch },
    }
}

/// The launch of work on a finding. An override of the budget is used where
/// the finding has one; a pull request is looked at first where the work is
/// about one.
pub fn finding_launch(
    kind: FindingJobKind,
    f: &Finding,
    repo: &Repo,
    branch: &str,
    resume: Option<ResumeRef>,
) -> (r: LaunchSpec)
    ensures
        r.kind == JobKind::Finding(kind),
        r.repo_id == repo.id,
        r.repo_name@ == repo.name@,
        r.finding_id == Some(f.id),
        r.use_override == f.override_text() is Some,
        r.prefix@ == prepare::about(kind.text(), f.id),
        r.resume == resume,
        r.tree@ == tree_for(kind, branch@, repo.default_branch@),
        r.views_pr == (kind == FindingJobKind::Engage || kind == FindingJobKind::Harvest),
        r.holds_finding == (kind == FindingJobKind::Fix),
{
    let tree = match kind {
        FindingJobKind::Fix => TreeSpec::Branch {
            name: branch.to_owned(),
            at: tip_of(&repo.default_branch),
        },
        FindingJobKind::Engage => TreeSpec::PrHead { head_ref: branch.to_owned() },
        FindingJobKind::Harvest => TreeSpec::Detached { at: tip_of(&repo.default_branch) },
        FindingJobKind::Recheck => TreeSpec::Detached { at: tip_of(&repo.default_branch) },
    };
    LaunchSpec {
        kind: JobKind::Finding(kind),
        repo_id: repo.id,
        repo_name: repo.name.clone(),
        finding_id: Some(f.id),
        use_override: select::override_of(f).is_some(),
        prefix: prepare::about_text(kind.as_str(), f.id),
        resume,
        tree,
        views_pr: match kind {
            FindingJobKind::Engage => true,
            FindingJobKind::Harvest => true,
            _ => false,
        },
        holds_finding: match kind {
            FindingJobKind::Fix => true,
            _ => false,
        },
    }
}

// ---------------------------------------------------------------------
// Laws
// ---------------------------------------------------------------------

/// Work that the budget denies leaves nothing behind but the event: no job,
/// no workspace.
pub proof fn law_denied_work_leaves_nothing(spec: LaunchSpec, reason: String, retry_at: Option<i64>)
    ensures
        ({
            let step = launch_next(
                spec,
                LaunchPhase::Gate,
                LaunchEvent::Denied { reason, retry_at },
            );
            &&& step.0 == seq![
                effects::log_view("deny"@, spec.prefix@ + ": "@ + reason@, None, spec.finding_id),
            ]
            &&& step.1 == LaunchPhase::Ended
            &&& step.2 matches LaunchActionView::Finish { summary } && summary.denied == Some(
                reason@,
            ) && summary.retry_at == retry_at && summary.job_id is None
        }),
{
}

/// A resumed launch works in the tree of its chain as it is: no step makes
/// one.
pub proof fn law_resume_keeps_its_tree(spec: LaunchSpec, phase: LaunchPhase, event: LaunchEvent)
    requires
        spec.resume is Some,
    ensures
        !(launch_next(spec, phase, event).2 is OpenWorkspace),
{
}

/// A worker only starts after the job exists and its tree stands, under the
/// bound that was granted for it.
pub proof fn law_worker_starts_last(spec: LaunchSpec, phase: LaunchPhase, event: LaunchEvent)
    requires
        launch_next(spec, phase, event).2 is RunWorker,
    ensures
        (phase is Create && event is JobCreated && spec.resume is Some) || (phase is Open
            && event is Opened),
        launch_next(spec, phase, event).2->RunWorker_cap == match phase {
            LaunchPhase::Create { cap } => cap,
            LaunchPhase::Open { cap, .. } => cap,
            _ => None,
        },
{
}

/// Only a fresh worker is given its playbook: a resumed one is told to carry
/// on in its session.
pub proof fn law_only_fresh_workers_get_a_playbook(spec: LaunchSpec, phase: LaunchPhase, event: LaunchEvent)
    requires
        launch_next(spec, phase, event).2 is RunWorker,
    ensures
        launch_next(spec, phase, event).2->RunWorker_told == Told::Playbook <==> spec.resume is None,
{
}

/// The bound that is granted goes unchanged into the job.
pub proof fn law_grant_is_the_bound(spec: LaunchSpec, cap: Option<i64>, anticipated: i64)
    ensures
        launch_next(spec, LaunchPhase::Gate, LaunchEvent::Granted { cap, anticipated }).2
            == if spec.views_pr {
            LaunchActionView::ViewPr
        } else {
            create_action(spec, cap, anticipated)
        },
        launch_next(spec, LaunchPhase::View { cap, anticipated }, LaunchEvent::Viewed).2
            == create_action(spec, cap, anticipated),
        launch_next(spec, LaunchPhase::View { cap, anticipated }, LaunchEvent::Viewed).1
            == (LaunchPhase::Create { cap }),
{
}

/// Only a run that was stopped at its bound and left a transcript is paused;
/// only one that nothing stopped and that ended well is done.
pub proof fn law_only_capped_runs_are_paused(rr: RunResult)
    ensures
        state_after(rr) == JobState::Suspended <==> text::opt_text(rr.killed_reason) == Some(
            "cap"@,
        ) && rr.session_file is Some,
        state_after(rr) == JobState::Done <==> rr.killed_reason is None && rr.exit_code == Some(
            0i32,
        ),
        state_after(rr) != JobState::Running && state_after(rr) != JobState::Queued && state_after(
            rr,
        ) != JobState::Denied,
{
}

/// A finding that a launch holds does not stay held where the worker could
/// not be run.
pub proof fn law_failed_run_lets_go(spec: LaunchSpec, job: i64, error: String, finding: i64)
    requires
        spec.holds_finding,
        spec.finding_id == Some(finding),
    ensures
        launch_next(spec, LaunchPhase::Run { job }, LaunchEvent::RunFailed { error }).0 == seq![
            EffectView::FinalizeInProgress {
                finding,
                from: FindingStatus::Fixing,
                to: FindingStatus::Queued,
            },
        ],
{
}

/// How a run ended decides the job's state: stopped at its bound with a
/// transcript it is suspended, without one killed; where the transcript to
/// continue was gone it failed; stopped for any other reason it is killed; left
/// alone it is done with the exit code zero and failed with any other, or
/// none.
pub proof fn law_end_of_a_run_decides_the_state(rr: RunResult)
    ensures
        state_after(rr) == (match rr.killed_reason {
            None => match rr.exit_code {
                Some(c) => if c == 0 { JobState::Done } else { JobState::Failed },
                None => JobState::Failed,
            },
            Some(why) => if why@ == "resume-unavailable"@ {
                JobState::Failed
            } else if why@ == "cap"@ && rr.session_file is Some {
                JobState::Suspended
            } else {
                JobState::Killed
            },
        }),
{
    reveal_strlit("cap");
    reveal_strlit("resume-unavailable");
    assert("cap"@.len() == 3);
    assert("resume-unavailable"@.len() == 18);
}

/// What is recorded of a run: its own job and state, the end of its output
/// where it is not done, and the predecessor exactly where the transcript to
/// continue was gone.
pub proof fn law_run_is_recorded(spec: LaunchSpec, job: i64, result: RunResult)
    ensures
        ({
            let (v, next, action) = launch_next(
                spec,
                LaunchPhase::Run { job },
                LaunchEvent::RunDone { result },
            );
            let gone = result.killed_reason matches Some(why) && why@ == "resume-unavailable"@;
            &&& v.len() == 0
            &&& next == LaunchPhase::Record { job, state: state_after(result), gone }
            &&& action matches LaunchActionView::Record { job: j, state, notes, retire } && ({
                &&& j == job && state == state_after(result)
                &&& notes is Some <==> state != JobState::Done && result.stdout_tail@.len() > 0
                &&& notes matches Some(n) ==> n == util::tail_text(result.stdout_tail@, 500)
                &&& retire is Some <==> gone && spec.resume is Some
                &&& retire matches Some((p, _)) ==> p == spec.resume->0.predecessor_id
            })
        }),
{
}

/// A recorded run goes on to the conclusion of its kind with the state that
/// was recorded; where recording failed, as a failure.
pub proof fn law_recorded_run_is_concluded(spec: LaunchSpec, job: i64, state: JobState, gone: bool)
    ensures
        launch_next(spec, LaunchPhase::Record { job, state, gone }, LaunchEvent::Recorded).2 == (
        LaunchActionView::Ran { job, state }),
        launch_next(spec, LaunchPhase::Record { job, state, gone }, LaunchEvent::RecordFailed).2 == (
        LaunchActionView::Ran { job, state: JobState::Failed }),
        launch_next(spec, LaunchPhase::Record { job, state, gone }, LaunchEvent::Recorded).0.len() == (
        if gone && spec.resume is Some { 1int } else { 0 }),
{
}

/// A worker that starts takes its finding up as being fixed exactly where the
/// launch holds it. A fresh one has the commit of its tree pinned to its job.
pub proof fn law_worker_takes_its_finding_up(
    spec: LaunchSpec,
    job: i64,
    cap: Option<i64>,
    sha: String,
    superseded: Vec<i64>,
    finding: i64,
    was: FindingStatus,
)
    requires
        spec.finding_id == Some(finding),
    ensures
        ({
            let (v, next, action) = launch_next(
                spec,
                LaunchPhase::Open { job, cap },
                LaunchEvent::Opened { sha },
            );
            &&& effects::status_after(v, finding, was) == (if spec.holds_finding {
                FindingStatus::Fixing
            } else {
                was
            })
            &&& v[0] == EffectView::PinSha { job, sha: sha@ }
            &&& effects::keeps_to(v, finding, job)
            &&& next == LaunchPhase::Run { job }
            &&& action matches LaunchActionView::RunWorker { job: j, cap: c, .. } && j == job && c == cap
        }),
        spec.resume is Some ==> ({
            let (v, next, action) = launch_next(
                spec,
                LaunchPhase::Create { cap },
                LaunchEvent::JobCreated { id: job, superseded },
            );
            &&& effects::status_after(v, finding, was) == (if spec.holds_finding {
                FindingStatus::Fixing
            } else {
                was
            })
            &&& next == LaunchPhase::Run { job }
            &&& action matches LaunchActionView::RunWorker { job: j, cap: c, .. } && j == job && c == cap
        }),
        spec.resume is None ==> ({
            let (v, next, action) = launch_next(
                spec,
                LaunchPhase::Create { cap },
                LaunchEvent::JobCreated { id: job, superseded },
            );
            &&& v.len() == 0
            &&& next == LaunchPhase::Open { job, cap }
            &&& action matches LaunchActionView::OpenWorkspace { job: j, release, tree } && j == job && release
                == superseded@ && tree == spec.tree@
        }),
{
    let v = launch_next(spec, LaunchPhase::Open { job, cap }, LaunchEvent::Opened { sha }).0;
    effects::lemma_short_lists(v, finding, was);
    let w = launch_next(
        spec,
        LaunchPhase::Create { cap },
        LaunchEvent::JobCreated { id: job, superseded },
    ).0;
    effects::lemma_short_lists(w, finding, was);
}

/// A finding that was taken up goes back to the queue where the worker could
/// not be run; one that was not is left alone.
pub proof fn law_failed_start_puts_the_finding_back(
    spec: LaunchSpec,
    job: i64,
    error: String,
    finding: i64,
    was: FindingStatus,
)
    requires
        spec.finding_id == Some(finding),
    ensures
        ({
            let (v, next, action) = launch_next(
                spec,
                LaunchPhase::Run { job },
                LaunchEvent::RunFailed { error },
            );
            &&& effects::status_after(v, finding, was) == (if spec.holds_finding && was
                == FindingStatus::Fixing {
                FindingStatus::Queued
            } else {
                was
            })
            &&& next == LaunchPhase::Ended
            &&& action == LaunchActionView::Abort { error: error@ }
        }),
{
    let v = launch_next(spec, LaunchPhase::Run { job }, LaunchEvent::RunFailed { error }).0;
    effects::lemma_short_lists(v, finding, was);
}

/// A workspace that could not be made fails its job before it started, and
/// leaves the finding as it is.
pub proof fn law_unopened_workspace_fails_the_job(
    spec: LaunchSpec,
    job: i64,
    cap: Option<i64>,
    why: String,
    id: i64,
    was: FindingStatus,
)
    ensures
        ({
            let (v, next, action) = launch_next(
                spec,
                LaunchPhase::Open { job, cap },
                LaunchEvent::OpenFailed { why },
            );
            &&& v[0] == EffectView::FailUnstarted { job, note: "workspace not created: "@ + why@ }
            &&& effects::status_after(v, id, was) == was
            &&& next == LaunchPhase::Ended
            &&& action matches LaunchActionView::Finish { summary } && summary.job_id == Some(job)
                && summary.state == Some(JobState::Failed) && summary.finding_id == spec.finding_id
        }),
{
    let v = launch_next(spec, LaunchPhase::Open { job, cap }, LaunchEvent::OpenFailed { why }).0;
    effects::lemma_short_lists(v, id, was);
}

/// Scans and rechecks run under the terms of hunts; fixes, engages and
/// harvests under those of fixes.
pub proof fn law_kinds_have_their_class(kind: RepoJobKind)
    ensures
        class_of(JobKind::Repo(kind)) == JobClass::Hunt,
        class_of(JobKind::Finding(FindingJobKind::Recheck)) == JobClass::Hunt,
        class_of(JobKind::Finding(FindingJobKind::Fix)) == JobClass::Fix,
        class_of(JobKind::Finding(FindingJobKind::Engage)) == JobClass::Fix,
        class_of(JobKind::Finding(FindingJobKind::Harvest)) == JobClass::Fix,
{
}

/// Only a fix works on a branch of its own, which starts at the tip of the
/// default branch; only an engage works on the branch of its pull request.
pub proof fn law_trees_start_where_they_should(
    kind: FindingJobKind,
    branch: Seq<char>,
    default_branch: Seq<char>,
)
    ensures
        tree_for(kind, branch, default_branch) matches TreeSpecView::Branch { name, at } ==> kind
            == FindingJobKind::Fix && name == branch && at == "origin/"@ + default_branch,
        tree_for(kind, branch, default_branch) matches TreeSpecView::PrHead { head_ref } ==> kind
            == FindingJobKind::Engage && head_ref == branch,
        tree_for(kind, branch, default_branch) matches TreeSpecView::Detached { at } ==> at == "origin/"@
            + default_branch && (kind == FindingJobKind::Harvest || kind == FindingJobKind::Recheck),
{
}

} // verus!
