//! The engagement with the remarks on a pull request: what its result means.

use vstd::prelude::*;
use crate::domain::{FindingJobKind, FindingStatus, ForgeName, JobKind, JobState};
use crate::forge;
use crate::forge::Forge;
use crate::ingest::IngestResult;
use crate::scheduler::effects;
use crate::scheduler::effects::{CycleSummary, CycleSummaryView, Effect, EffectView};
use crate::scheduler::fix;
use crate::text;
use crate::text::Cut;
use crate::util;

verus! {

/// An engage whose worker has run.
#[derive(Debug, Clone)]
pub struct EngageRun {
    pub finding: i64,
    pub job: i64,
    /// The recorded state of the job.
    pub state: JobState,
    pub pr_number: i64,
    pub head_ref: String,
    pub worktree: String,
    pub repo_url: String,
    pub forge: ForgeName,
    pub tokens_new: i64,
    pub stdout_tail: String,
    pub override_once: bool,
    /// The stored latest activity, attention reason and head of the pull
    /// request.
    pub last_activity_at: Option<i64>,
    pub fingerprint: Option<String>,
    pub head_sha: Option<String>,
}

/// Where the conclusion of an engage stands.
#[derive(Debug, Clone)]
pub enum EngagePhase {
    /// Waiting for the file in which the worker withdraws the change.
    Withdraw,
    /// Waiting for the pull request to be closed.
    Close { reason: String },
    /// Waiting for the follow-ups of a withdrawn change.
    Followups,
    /// Waiting for the list of commits.
    Commits,
    Push,
    /// Waiting for the reply that the worker wrote.
    Reply { pushed: bool },
    /// Waiting for the reply to be posted.
    Comment { pushed: bool },
    Ended,
}

pub enum EngagePhaseView {
    Withdraw,
    Close { reason: Seq<char> },
    Followups,
    Commits,
    Push,
    Reply { pushed: bool },
    Comment { pushed: bool },
    Ended,
}

impl View for EngagePhase {
    type V = EngagePhaseView;

    open spec fn view(&self) -> EngagePhaseView {
        match *self {
            EngagePhase::Withdraw => EngagePhaseView::Withdraw,
            EngagePhase::Close { reason } => EngagePhaseView::Close { reason: reason@ },
            EngagePhase::Followups => EngagePhaseView::Followups,
            EngagePhase::Commits => EngagePhaseView::Commits,
            EngagePhase::Push => EngagePhaseView::Push,
            EngagePhase::Reply { pushed } => EngagePhaseView::Reply { pushed },
            EngagePhase::Comment { pushed } => EngagePhaseView::Comment { pushed },
            EngagePhase::Ended => EngagePhaseView::Ended,
        }
    }
}

/// What the driver does next.
#[derive(Debug, Clone)]
pub enum EngageAction {
    /// Read this file of the worktree.
    ReadFile { file: String },
    /// Close the pull request with this comment.
    ClosePr { comment: String },
    /// Ingest the follow-ups that the worker left.
    IngestFollowups,
    Command { argv: Vec<String>, timeout_s: u64 },
    /// Post this comment on the pull request.
    CommentPr { body: String },
    Finish { summary: CycleSummary },
}

pub enum EngageActionView {
    ReadFile { file: Seq<char> },
    ClosePr { comment: Seq<char> },
    IngestFollowups,
    Command { argv: Seq<Seq<char>>, timeout_s: u64 },
    CommentPr { body: Seq<char> },
    Finish { summary: CycleSummaryView },
}

impl View for EngageAction {
    type V = EngageActionView;

    open spec fn view(&self) -> EngageActionView {
        match *self {
            EngageAction::ReadFile { file } => EngageActionView::ReadFile { file: file@ },
            EngageAction::ClosePr { comment } => EngageActionView::ClosePr { comment: comment@ },
            EngageAction::IngestFollowups => EngageActionView::IngestFollowups,
            EngageAction::Command { argv, timeout_s } => EngageActionView::Command {
                argv: text::texts(argv@),
                timeout_s,
            },
            EngageAction::CommentPr { body } => EngageActionView::CommentPr { body: body@ },
            EngageAction::Finish { summary } => EngageActionView::Finish { summary: summary@ },
        }
    }
}

/// What came back.
#[derive(Debug, Clone)]
pub enum EngageEvent {
    /// The file was there, with this text.
    File { text: String },
    NoFile,
    Closed,
    CloseFailed,
    /// The follow-ups were ingested, or there were none.
    Ingested { counts: Option<IngestResult> },
    Done { rc: i32, out: String },
    Commented,
    CommentFailed { error: String },
}

/// The fields that every summary of a concluded engage has.
pub open spec fn engage_summary(run: EngageRun) -> CycleSummaryView {
    CycleSummaryView {
        kind: Some(JobKind::Finding(FindingJobKind::Engage)),
        finding_id: Some(run.finding),
        job_id: Some(run.job),
        state: Some(run.state),
        pr_number: Some(run.pr_number),
        tokens_new: Some(run.tokens_new),
        ..effects::blank()
    }
}

pub open spec fn pr_named(run: EngageRun) -> Seq<char> {
    "PR #"@ + text::int_text(run.pr_number as int)
}

/// The latest activity that is known to be dealt with.
pub open spec fn known_activity(run: EngageRun, now: i64) -> i64 {
    match run.last_activity_at {
        Some(t) => t,
        None => now,
    }
}

/// What is logged of ingested follow-ups: nothing where there were none.
pub open spec fn followups_log(
    kind: Seq<char>,
    finding: i64,
    job: i64,
    counts: Option<IngestResult>,
) -> Seq<EffectView> {
    match counts {
        Some(c) => if c.inserted > 0 || c.invalid > 0 || c.duplicates > 0 {
            seq![
                effects::log_view(
                    kind,
                    fix::numbered(finding) + ": +"@ + text::int_text(c.inserted as int)
                        + " follow-up(s) filed from deferred/superseded work ("@ + text::int_text(
                        c.duplicates as int,
                    ) + " dup / "@ + text::int_text(c.invalid as int) + " invalid)"@,
                    Some(job),
                    Some(finding),
                ),
            ]
        } else {
            Seq::empty()
        },
        None => Seq::empty(),
    }
}

/// The change is withdrawn: the finding is rejected with the reason.
pub open spec fn engage_withdrawn(run: EngageRun, reason: Seq<char>) -> (
    Seq<EffectView>,
    EngagePhaseView,
    EngageActionView,
) {
    (
        seq![
            EffectView::SetVerdict {
                finding: run.finding,
                status: FindingStatus::Rejected,
                reason: fix::reason_of(reason),
            },
            EffectView::MarkPrClosed { finding: run.finding, number: run.pr_number },
            effects::log_view(
                "verdict"@,
                fix::numbered(run.finding) + " withdrawn by engage worker: "@ + fix::headline(
                    reason,
                ),
                Some(run.job),
                Some(run.finding),
            ),
        ],
        EngagePhaseView::Followups,
        EngageActionView::IngestFollowups,
    )
}

/// The engage did not get through: it is tried again.
pub open spec fn engage_failed(run: EngageRun, failure: Seq<char>) -> (
    Seq<EffectView>,
    EngagePhaseView,
    EngageActionView,
) {
    let kept = if run.state == JobState::Suspended {
        "; worktree kept at "@ + run.worktree@ + " for the resume"@
    } else {
        Seq::empty()
    };
    let demoted = if run.state == JobState::Done {
        seq![EffectView::FailJob { job: run.job, reason: failure }]
    } else {
        Seq::<EffectView>::empty()
    };
    (
        demoted + seq![
            effects::log_view(
                "engage"@,
                fix::numbered(run.finding) + " incomplete ("@ + failure + ")"@ + kept
                    + ". tail: "@ + util::tail_text(run.stdout_tail@, 300),
                Some(run.job),
                Some(run.finding),
            ),
        ] + fix::spend_override(run.finding, run.override_once),
        EngagePhaseView::Ended,
        EngageActionView::Finish {
            summary: CycleSummaryView {
                outcome: Some("retry"@),
                failure: Some(failure),
                ..engage_summary(run)
            },
        },
    )
}

pub open spec fn what_was_done(pushed: bool, replied: bool) -> Seq<char> {
    if pushed && replied {
        "pushed, replied"@
    } else if pushed {
        "pushed"@
    } else if replied {
        "replied"@
    } else {
        "no-op"@
    }
}

/// The engage got through. A push resets what counts as addressed; a reply
/// moves the engaged mark past itself.
pub open spec fn engage_succeeded(run: EngageRun, pushed: bool, replied: bool, now: i64) -> (
    Seq<EffectView>,
    EngagePhaseView,
    EngageActionView,
) {
    (
        seq![
            EffectView::MarkPrEngaged {
                finding: run.finding,
                activity: if replied { (now + 3000) as i64 } else { known_activity(run, now) },
                fingerprint: if pushed { None } else { text::opt_text(run.fingerprint) },
                head_sha: if pushed { None } else { text::opt_text(run.head_sha) },
            },
            effects::log_view(
                "engage"@,
                fix::numbered(run.finding) + " "@ + pr_named(run) + " engaged ("@
                    + what_was_done(pushed, replied) + ")"@,
                Some(run.job),
                Some(run.finding),
            ),
        ] + fix::spend_override(run.finding, run.override_once),
        EngagePhaseView::Ended,
        EngageActionView::Finish {
            summary: CycleSummaryView { outcome: Some("engaged"@), ..engage_summary(run) },
        },
    )
}

/// One step of an engage's conclusion.
pub open spec fn engage_next(
    run: EngageRun,
    phase: EngagePhaseView,
    event: EngageEvent,
    now: i64,
) -> (Seq<EffectView>, EngagePhaseView, EngageActionView) {
    let quiet = Seq::<EffectView>::empty();
    match (phase, event) {
        (EngagePhaseView::Withdraw, EngageEvent::File { text }) => if forge::owner_repo_of(
            run.forge,
            run.repo_url@,
        ) is Some {
            (
                quiet,
                EngagePhaseView::Close { reason: text@ },
                EngageActionView::ClosePr { comment: text::first_chars(text@, 800) },
            )
        } else {
            engage_withdrawn(run, text@)
        },
        (EngagePhaseView::Withdraw, EngageEvent::NoFile) => if run.state != JobState::Done {
            engage_failed(run, "worker "@ + run.state.text())
        } else {
            (
                quiet,
                EngagePhaseView::Commits,
                EngageActionView::Command {
                    argv: fix::log_args(run.worktree@, "origin/"@ + run.head_ref@),
                    timeout_s: 30,
                },
            )
        },
        (EngagePhaseView::Close { reason }, EngageEvent::Closed) => engage_withdrawn(run, reason),
        (EngagePhaseView::Close { reason }, EngageEvent::CloseFailed) => (
            seq![
                EffectView::MarkPrEngaged {
                    finding: run.finding,
                    activity: known_activity(run, now),
                    fingerprint: text::opt_text(run.fingerprint),
                    head_sha: text::opt_text(run.head_sha),
                },
                effects::log_view(
                    "error"@,
                    fix::numbered(run.finding) + " withdrawal aborted: "@ + pr_named(run)
                        + " could not be closed (retries when the PR next changes)"@,
                    Some(run.job),
                    Some(run.finding),
                ),
            ] + fix::retire_concluded_view(run.job, run.state, "withdraw-failed"@),
            EngagePhaseView::Ended,
            EngageActionView::Finish {
                summary: CycleSummaryView {
                    outcome: Some("withdraw-failed"@),
                    ..engage_summary(run)
                },
            },
        ),
        (EngagePhaseView::Followups, EngageEvent::Ingested { counts }) => (
            followups_log("engage"@, run.finding, run.job, counts) + fix::retire_concluded_view(
                run.job,
                run.state,
                "withdrawn"@,
            ),
            EngagePhaseView::Ended,
            EngageActionView::Finish {
                summary: CycleSummaryView {
                    outcome: Some("withdrawn"@),
                    ingest: counts,
                    ..engage_summary(run)
                },
            },
        ),
        (EngagePhaseView::Commits, EngageEvent::Done { rc, out }) => if rc == 0 && text::trim(
            out@,
            Cut::White,
        ).len() > 0 {
            (
                quiet,
                EngagePhaseView::Push,
                EngageActionView::Command {
                    argv: seq![
                        "git"@,
                        "-C"@,
                        run.worktree@,
                        "push"@,
                        "--force"@,
                        forge::ssh_url_of(run.forge, run.repo_url@),
                        "HEAD:"@ + run.head_ref@,
                    ],
                    timeout_s: 600,
                },
            )
        } else {
            (
                quiet,
                EngagePhaseView::Reply { pushed: false },
                EngageActionView::ReadFile { file: "PR-REPLY.md"@ },
            )
        },
        (EngagePhaseView::Push, EngageEvent::Done { rc, out }) => if rc == 0 {
            (
                quiet,
                EngagePhaseView::Reply { pushed: true },
                EngageActionView::ReadFile { file: "PR-REPLY.md"@ },
            )
        } else {
            engage_failed(run, "push failed: "@ + util::tail_text(out@, 300))
        },
        (EngagePhaseView::Reply { pushed }, EngageEvent::File { text }) => (
            quiet,
            EngagePhaseView::Comment { pushed },
            EngageActionView::CommentPr { body: text@ },
        ),
        (EngagePhaseView::Reply { pushed }, EngageEvent::NoFile) => engage_succeeded(
            run,
            pushed,
            false,
            now,
        ),
        (EngagePhaseView::Comment { pushed }, EngageEvent::Commented) => engage_succeeded(
            run,
            pushed,
            true,
            now,
        ),
        (EngagePhaseView::Comment { pushed }, EngageEvent::CommentFailed { error }) => engage_failed(
            run,
            "PR comment failed: "@ + util::tail_text(error@, 300),
        ),
        _ => (
            quiet,
            EngagePhaseView::Ended,
            EngageActionView::Finish {
                summary: CycleSummaryView { error: Some("out of turn"@), ..engage_summary(run) },
            },
        ),
    }
}

/// The first action after an engage's worker has run.
pub fn engage_start() -> (r: EngageAction)
    ensures
        r@ == (EngageActionView::ReadFile { file: "WITHDRAW.md"@ }),
{
    EngageAction::ReadFile { file: "WITHDRAW.md".to_owned() }
}

fn base_summary(run: &EngageRun) -> (r: CycleSummary)
    ensures
        r@ == engage_summary(*run),
{
    CycleSummary {
        kind: Some(JobKind::Finding(FindingJobKind::Engage)),
        finding_id: Some(run.finding),
        job_id: Some(run.job),
        state: Some(run.state),
        pr_number: Some(run.pr_number),
        tokens_new: Some(run.tokens_new),
        ..CycleSummary::default()
    }
}

fn pr_name(run: &EngageRun) -> (r: String)
    ensures
        r@ == pr_named(*run),
{
    "PR #".to_owned().concat(text::int_to_text(run.pr_number).as_str())
}

/// Append what is logged of ingested follow-ups.
pub fn add_followups_log(
    out: &mut Vec<Effect>,
    kind: &str,
    finding: i64,
    job: i64,
    counts: Option<IngestResult>,
)
    ensures
        effects::effects(final(out)@) == effects::effects(old(out)@) + followups_log(
            kind@,
            finding,
            job,
            counts,
        ),
{
    if let Some(c) = counts {
        if c.inserted > 0 || c.invalid > 0 || c.duplicates > 0 {
            let msg = fix::numbered_text(finding).concat(": +").concat(
                text::int_to_text(c.inserted).as_str(),
            ).concat(" follow-up(s) filed from deferred/superseded work (").concat(
                text::int_to_text(c.duplicates).as_str(),
            ).concat(" dup / ").concat(text::int_to_text(c.invalid).as_str()).concat(" invalid)");
            effects::add_effect(out, effects::log(kind, msg, Some(job), Some(finding)));
        }
    }
    assert(effects::effects(out@) =~= effects::effects(old(out)@) + followups_log(
        kind@,
        finding,
        job,
        counts,
    ));
}

fn conclude_withdrawn(run: &EngageRun, reason: &str) -> (r: (
    Vec<Effect>,
    EngagePhase,
    EngageAction,
))
    ensures
        (effects::effects(r.0@), r.1@, r.2@) == engage_withdrawn(*run, reason@),
{
    let mut out = effects::no_effects();
    let short = text::take_chars(reason, 500);
    effects::add_effect(
        &mut out,
        Effect::SetVerdict { finding: run.finding, status: FindingStatus::Rejected, reason: short },
    );
    effects::add_effect(
        &mut out,
        Effect::MarkPrClosed { finding: run.finding, number: run.pr_number },
    );
    let first = text::first_line_of(reason);
    let line = text::take_chars(&first, 120);
    let msg = fix::numbered_text(run.finding).concat(" withdrawn by engage worker: ").concat(&line);
    effects::add_effect(&mut out, effects::log("verdict", msg, Some(run.job), Some(run.finding)));
    assert(effects::effects(out@) =~= engage_withdrawn(*run, reason@).0);
    (out, EngagePhase::Followups, EngageAction::IngestFollowups)
}

fn conclude_failed(run: &EngageRun, failure: String) -> (r: (
    Vec<Effect>,
    EngagePhase,
    EngageAction,
))
    ensures
        (effects::effects(r.0@), r.1@, r.2@) == engage_failed(*run, failure@),
{
    let mut out = effects::no_effects();
    if run.state == JobState::Done {
        effects::add_effect(
            &mut out,
            Effect::FailJob { job: run.job, reason: failure.clone() },
        );
    }
    let kept: String = if run.state == JobState::Suspended {
        "; worktree kept at ".to_owned().concat(&run.worktree).concat(" for the resume")
    } else {
        String::new()
    };
    let msg = fix::numbered_text(run.finding).concat(" incomplete (").concat(&failure).concat(
        ")",
    ).concat(&kept).concat(". tail: ").concat(util::tail(&run.stdout_tail, 300));
    effects::add_effect(&mut out, effects::log("engage", msg, Some(run.job), Some(run.finding)));
    fix::add_spend(&mut out, run.finding, run.override_once);
    assert(effects::effects(out@) =~= engage_failed(*run, failure@).0);
    let summary = CycleSummary {
        outcome: Some("retry".to_owned()),
        failure: Some(failure),
        ..base_summary(run)
    };
    (out, EngagePhase::Ended, EngageAction::Finish { summary })
}

fn conclude_succeeded(run: &EngageRun, pushed: bool, replied: bool, now: i64) -> (r: (
    Vec<Effect>,
    EngagePhase,
    EngageAction,
))
    requires
        now <= i64::MAX - 3000,
    ensures
        (effects::effects(r.0@), r.1@, r.2@) == engage_succeeded(*run, pushed, replied, now),
{
    let mut out = effects::no_effects();
    let activity: i64 = if replied {
        now + 3000
    } else {
        match run.last_activity_at {
            Some(t) => t,
            None => now,
        }
    };
    let fingerprint: Option<String> = if pushed {
        None
    } else {
        text::copy_opt(&run.fingerprint)
    };
    let head_sha: Option<String> = if pushed {
        None
    } else {
        text::copy_opt(&run.head_sha)
    };
    effects::add_effect(
        &mut out,
        Effect::MarkPrEngaged { finding: run.finding, activity, fingerprint, head_sha },
    );
    let did: &str = if pushed && replied {
        "pushed, replied"
    } else if pushed {
        "pushed"
    } else if replied {
        "replied"
    } else {
        "no-op"
    };
    let msg = fix::numbered_text(run.finding).concat(" ").concat(&pr_name(run)).concat(
        " engaged (",
    ).concat(did).concat(")");
    effects::add_effect(&mut out, effects::log("engage", msg, Some(run.job), Some(run.finding)));
    fix::add_spend(&mut out, run.finding, run.override_once);
    assert(effects::effects(out@) =~= engage_succeeded(*run, pushed, replied, now).0);
    let summary = CycleSummary { outcome: Some("engaged".to_owned()), ..base_summary(run) };
    (out, EngagePhase::Ended, EngageAction::Finish { summary })
}

/// One step of an engage's conclusion.
pub fn engage_step(run: &EngageRun, phase: EngagePhase, event: EngageEvent, now: i64) -> (r: (
    Vec<Effect>,
    EngagePhase,
    EngageAction,
))
    requires
        now <= i64::MAX - 3000,
    ensures
        (effects::effects(r.0@), r.1@, r.2@) == engage_next(*run, phase@, event, now),
{
    let mut out = effects::no_effects();
    match (phase, event) {
        (EngagePhase::Withdraw, EngageEvent::File { text }) => {
            if forge::forge_for(run.forge).owner_repo(&run.repo_url).is_some() {
                let comment = text::take_chars(&text, 800);
                (out, EngagePhase::Close { reason: text }, EngageAction::ClosePr { comment })
            } else {
                conclude_withdrawn(run, &text)
            }
        },
        (EngagePhase::Withdraw, EngageEvent::NoFile) => {
            if run.state != JobState::Done {
                conclude_failed(run, "worker ".to_owned().concat(run.state.as_str()))
            } else {
                let range = "origin/".to_owned().concat(&run.head_ref).concat("..HEAD");
                let mut v = text::no_texts();
                text::add_text(&mut v, "git");
                text::add_text(&mut v, "-C");
                text::add_text(&mut v, &run.worktree);
                text::add_text(&mut v, "log");
                text::add_text(&mut v, &range);
                text::add_text(&mut v, "--oneline");
                assert(text::texts(v@) =~= fix::log_args(
                    run.worktree@,
                    "origin/"@ + run.head_ref@,
                ));
                (out, EngagePhase::Commits, EngageAction::Command { argv: v, timeout_s: 30 })
            }
        },
        (EngagePhase::Close { reason }, EngageEvent::Closed) => conclude_withdrawn(run, &reason),
        (EngagePhase::Close { reason: _ }, EngageEvent::CloseFailed) => {
            let activity: i64 = match run.last_activity_at {
                Some(t) => t,
                None => now,
            };
            effects::add_effect(
                &mut out,
                Effect::MarkPrEngaged {
                    finding: run.finding,
                    activity,
                    fingerprint: text::copy_opt(&run.fingerprint),
                    head_sha: text::copy_opt(&run.head_sha),
                },
            );
            let msg = fix::numbered_text(run.finding).concat(" withdrawal aborted: ").concat(
                &pr_name(run),
            ).concat(" could not be closed (retries when the PR next changes)");
            effects::add_effect(
                &mut out,
                effects::log("error", msg, Some(run.job), Some(run.finding)),
            );
            fix::retire_concluded(&mut out, run.job, run.state, "withdraw-failed");
            assert(effects::effects(out@) =~= engage_next(*run, phase@, event, now).0);
            let summary = CycleSummary {
                outcome: Some("withdraw-failed".to_owned()),
                ..base_summary(run)
            };
            (out, EngagePhase::Ended, EngageAction::Finish { summary })
        },
        (EngagePhase::Followups, EngageEvent::Ingested { counts }) => {
            add_followups_log(&mut out, "engage", run.finding, run.job, counts);
            fix::retire_concluded(&mut out, run.job, run.state, "withdrawn");
            assert(effects::effects(out@) =~= engage_next(*run, phase@, event, now).0);
            let summary = CycleSummary {
                outcome: Some("withdrawn".to_owned()),
                ingest: counts,
                ..base_summary(run)
            };
            (out, EngagePhase::Ended, EngageAction::Finish { summary })
        },
        (EngagePhase::Commits, EngageEvent::Done { rc, out: printed }) => {
            let commits = text::trim_text(&printed, Cut::White);
            if rc == 0 && !commits.as_str().is_empty() {
                let remote = forge::forge_for(run.forge).ssh_url(&run.repo_url);
                let refspec = "HEAD:".to_owned().concat(&run.head_ref);
                let mut v = text::no_texts();
                text::add_text(&mut v, "git");
                text::add_text(&mut v, "-C");
                text::add_text(&mut v, &run.worktree);
                text::add_text(&mut v, "push");
                text::add_text(&mut v, "--force");
                text::add_text(&mut v, &remote);
                text::add_text(&mut v, &refspec);
                assert(text::texts(v@) =~= seq![
                    "git"@,
                    "-C"@,
                    run.worktree@,
                    "push"@,
                    "--force"@,
                    forge::ssh_url_of(run.forge, run.repo_url@),
                    "HEAD:"@ + run.head_ref@,
                ]);
                (out, EngagePhase::Push, EngageAction::Command { argv: v, timeout_s: 600 })
            } else {
                (
                    out,
                    EngagePhase::Reply { pushed: false },
                    EngageAction::ReadFile { file: "PR-REPLY.md".to_owned() },
                )
            }
        },
        (EngagePhase::Push, EngageEvent::Done { rc, out: printed }) => {
            if rc == 0 {
                (
                    out,
                    EngagePhase::Reply { pushed: true },
                    EngageAction::ReadFile { file: "PR-REPLY.md".to_owned() },
                )
            } else {
                conclude_failed(
                    run,
                    "push failed: ".to_owned().concat(util::tail(&printed, 300)),
                )
            }
        },
        (EngagePhase::Reply { pushed }, EngageEvent::File { text }) => {
            (out, EngagePhase::Comment { pushed }, EngageAction::CommentPr { body: text })
        },
        (EngagePhase::Reply { pushed }, EngageEvent::NoFile) => conclude_succeeded(
            run,
            pushed,
            false,
            now,
        ),
        (EngagePhase::Comment { pushed }, EngageEvent::Commented) => conclude_succeeded(
            run,
            pushed,
            true,
            now,
        ),
        (EngagePhase::Comment { pushed: _ }, EngageEvent::CommentFailed { error }) => {
            conclude_failed(
                run,
                "PR comment failed: ".to_owned().concat(util::tail(&error, 300)),
            )
        },
        _ => {
            let summary = CycleSummary {
                error: Some("out of turn".to_owned()),
                ..base_summary(run)
            };
            (out, EngagePhase::Ended, EngageAction::Finish { summary })
        },
    }
}

// ---------------------------------------------------------------------
// Laws
// ---------------------------------------------------------------------

/// A withdrawal that could not be carried out on the forge leaves the
/// finding's verdict alone.
pub proof fn law_failed_close_keeps_finding(run: EngageRun, reason: Seq<char>, now: i64)
    ensures
        forall|i: int|
            0 <= i < engage_next(
                run,
                EngagePhaseView::Close { reason },
                EngageEvent::CloseFailed,
                now,
            ).0.len() ==> {
                let e = #[trigger] engage_next(
                    run,
                    EngagePhaseView::Close { reason },
                    EngageEvent::CloseFailed,
                    now,
                ).0[i];
                !(e is SetVerdict) && !(e is MarkPrClosed) && !(e is SetStatus)
            },
{
}

/// Nothing is pushed, and nothing is posted, for a worker that did not
/// finish.
pub proof fn law_unfinished_engage_does_not_ship(run: EngageRun, event: EngageEvent, now: i64)
    requires
        run.state != JobState::Done,
    ensures
        !(engage_next(run, EngagePhaseView::Withdraw, event, now).1 is Commits),
        !(engage_next(run, EngagePhaseView::Withdraw, event, now).1 is Reply),
        !(engage_next(run, EngagePhaseView::Withdraw, event, now).2 is Command),
        !(engage_next(run, EngagePhaseView::Withdraw, event, now).2 is CommentPr),
{
}

/// After a push nothing counts as addressed: the next look judges the new
/// head afresh.
pub proof fn law_push_resets_addressed(run: EngageRun, replied: bool, now: i64)
    ensures
        engage_succeeded(run, true, replied, now).0[0] matches EffectView::MarkPrEngaged {
            fingerprint,
            head_sha,
            ..
        } && fingerprint is None && head_sha is None,
{
}

/// A withdrawn change rejects its finding with the beginning of the worker's
/// reason, and keeps the pull request as closed. It does so only once the
/// forge has closed it, or where no forge can be asked.
pub proof fn law_withdrawn_change_rejects_its_finding(run: EngageRun, reason: Seq<char>, now: i64, was: FindingStatus)
    ensures
        ({
            let (v, next, action) = engage_next(
                run,
                EngagePhaseView::Close { reason },
                EngageEvent::Closed,
                now,
            );
            &&& effects::keeps_to(v, run.finding, run.job)
            &&& effects::status_after(v, run.finding, was) == FindingStatus::Rejected
            &&& effects::reason_after(v, run.finding) == Some(
                if reason.len() <= 500 { reason } else { reason.take(500) },
            )
            &&& v.contains(EffectView::MarkPrClosed { finding: run.finding, number: run.pr_number })
            &&& next is Followups && action is IngestFollowups
        }),
{
    let v = engage_next(run, EngagePhaseView::Close { reason }, EngageEvent::Closed, now).0;
    effects::lemma_short_lists(v, run.finding, was);
    effects::lemma_first_reason(v, run.finding);
    assert(v[1] == EffectView::MarkPrClosed { finding: run.finding, number: run.pr_number });
    assert(fix::reason_of(reason) =~= (if reason.len() <= 500 { reason } else { reason.take(500) }));
}

/// A worker that withdraws has the pull request closed with the beginning of
/// its reason first; nothing is written of the finding before that.
pub proof fn law_withdrawal_closes_first(run: EngageRun, said: String, now: i64)
    requires
        forge::owner_repo_of(run.forge, run.repo_url@) is Some,
    ensures
        ({
            let (v, next, action) = engage_next(
                run,
                EngagePhaseView::Withdraw,
                EngageEvent::File { text: said },
                now,
            );
            &&& v.len() == 0
            &&& next == EngagePhaseView::Close { reason: said@ }
            &&& action matches EngageActionView::ClosePr { comment } && comment == (if said@.len() <= 800 {
                said@
            } else {
                said@.take(800)
            })
        }),
{
    assert(text::first_chars(said@, 800) =~= (if said@.len() <= 800 { said@ } else { said@.take(800) }));
}

/// An engage that got through moves the mark of what is dealt with: past its
/// own reply where it replied, else to the latest activity that was seen. It
/// leaves the finding's status alone.
pub proof fn law_engaged_mark_moves(run: EngageRun, pushed: bool, now: i64, was: FindingStatus)
    requires
        now <= i64::MAX - 3000,
    ensures
        ({
            let (v, next, action) = engage_next(
                run,
                EngagePhaseView::Comment { pushed },
                EngageEvent::Commented,
                now,
            );
            &&& next is Ended
            &&& effects::keeps_to(v, run.finding, run.job)
            &&& effects::status_after(v, run.finding, was) == was
            &&& effects::drops_override(v, run.finding) <==> run.override_once
            &&& v[0] matches EffectView::MarkPrEngaged { activity, .. } && activity == now + 3000
            &&& action matches EngageActionView::Finish { summary } && summary.outcome == Some("engaged"@)
        }),
        ({
            let (v, next, action) = engage_next(
                run,
                EngagePhaseView::Reply { pushed },
                EngageEvent::NoFile,
                now,
            );
            &&& next is Ended
            &&& effects::keeps_to(v, run.finding, run.job)
            &&& effects::status_after(v, run.finding, was) == was
            &&& effects::drops_override(v, run.finding) <==> run.override_once
            &&& v[0] matches EffectView::MarkPrEngaged { activity, .. } && (match run.last_activity_at {
                Some(t) => activity == t,
                None => activity == now,
            })
            &&& action matches EngageActionView::Finish { summary } && summary.outcome == Some("engaged"@)
        }),
{
    let gone = EffectView::ClearOverride { finding: run.finding };
    let v = engage_next(run, EngagePhaseView::Comment { pushed }, EngageEvent::Commented, now).0;
    effects::lemma_short_lists(v, run.finding, was);
    assert(run.override_once ==> v[2] == gone);
    let w = engage_next(run, EngagePhaseView::Reply { pushed }, EngageEvent::NoFile, now).0;
    effects::lemma_short_lists(w, run.finding, was);
    assert(run.override_once ==> w[2] == gone);
}

/// Without a push the reason and the head that were looked at count as
/// addressed, so that the same state is not flagged again.
pub proof fn law_unpushed_engage_addresses_the_head(run: EngageRun, replied: bool, now: i64)
    ensures
        engage_succeeded(run, false, replied, now).0[0] matches EffectView::MarkPrEngaged {
            finding,
            fingerprint,
            head_sha,
            ..
        } && finding == run.finding && fingerprint == text::opt_text(run.fingerprint) && head_sha
            == text::opt_text(run.head_sha),
{
}

/// An engage that did not get through moves no mark and decides nothing: the
/// pull request stays flagged. A finished worker's job is marked as failed,
/// with the reason.
pub proof fn law_failed_engage_decides_nothing(run: EngageRun, failure: Seq<char>)
    ensures
        ({
            let (v, next, action) = engage_failed(run, failure);
            &&& next is Ended
            &&& effects::keeps_to(v, run.finding, run.job)
            &&& forall|i: int|
                0 <= i < v.len() ==> #[trigger] v[i] is Log || v[i] is FailJob || v[i] is ClearOverride
            &&& v.contains(EffectView::FailJob { job: run.job, reason: failure }) <==> run.state
                == JobState::Done
            &&& effects::drops_override(v, run.finding) <==> run.override_once
            &&& action matches EngageActionView::Finish { summary } && summary.outcome == Some("retry"@)
                && summary.failure == Some(failure)
        }),
{
    let v = engage_failed(run, failure).0;
    let n = if run.state == JobState::Done { 1int } else { 0 };
    if run.state == JobState::Done {
        assert(v[0] == EffectView::FailJob { job: run.job, reason: failure });
    }
    assert(run.override_once ==> v[n + 1] == (EffectView::ClearOverride { finding: run.finding }));
}

/// What is pushed are commits that are there, to the branch of the pull
/// request; without commits the reply is read at once.
pub proof fn law_engage_pushes_only_commits(run: EngageRun, rc: i32, out: String, now: i64)
    ensures
        ({
            let (v, next, action) = engage_next(
                run,
                EngagePhaseView::Commits,
                EngageEvent::Done { rc, out },
                now,
            );
            let there = rc == 0 && text::trim(out@, Cut::White).len() > 0;
            &&& v.len() == 0
            &&& there ==> next is Push && (action matches EngageActionView::Command { argv, .. } && argv.len()
                == 7 && argv[0] == "git"@ && argv[2] == run.worktree@ && argv[3] == "push"@ && argv[5]
                == forge::ssh_url_of(run.forge, run.repo_url@) && argv[6] == "HEAD:"@ + run.head_ref@)
            &&& !there ==> next == (EngagePhaseView::Reply { pushed: false }) && action == (
            EngageActionView::ReadFile { file: "PR-REPLY.md"@ })
        }),
        engage_next(run, EngagePhaseView::Push, EngageEvent::Done { rc, out }, now).1 == (if rc == 0 {
            EngagePhaseView::Reply { pushed: true }
        } else {
            EngagePhaseView::Ended
        }),
{
}

/// What was followed up is logged where anything came of it.
pub proof fn law_followups_are_logged(kind: Seq<char>, finding: i64, job: i64, counts: Option<IngestResult>)
    requires
        counts matches Some(c) ==> c.inserted >= 0 && c.duplicates >= 0 && c.invalid >= 0,
    ensures
        followups_log(kind, finding, job, counts).len() == (match counts {
            Some(c) => if c.inserted + c.duplicates + c.invalid > 0 { 1int } else { 0 },
            None => 0,
        }),
        effects::keeps_to(followups_log(kind, finding, job, counts), finding, job),
{
}

/// A suspended worker whose change was withdrawn is not continued.
pub proof fn law_withdrawn_suspension_is_retired(run: EngageRun, counts: Option<IngestResult>, now: i64)
    requires
        run.state == JobState::Suspended,
    ensures
        ({
            let v = engage_next(run, EngagePhaseView::Followups, EngageEvent::Ingested { counts }, now).0;
            v.len() > 0 && (v.last() matches EffectView::RetireSuspended { job, state, .. } && job == run.job
                && state == JobState::Killed)
        }),
{
}

} // verus!
