//! The re-examination of a finding: what its verdict means.

use vstd::prelude::*;
use crate::domain::{FindingJobKind, FindingStatus, JobKind, JobState};
use crate::scheduler::effects;
use crate::scheduler::effects::{CycleSummary, CycleSummaryView, Effect, EffectView};
use crate::scheduler::fix;
use crate::text;

verus! {

/// The file that a worker leaves its verdict on a finding in.
pub fn verdict_name(finding: i64) -> (r: String)
    ensures
        r@ == "recheck"@ + text::int_text(finding as int) + ".json"@,
{
    "recheck".to_owned().concat(text::int_to_text(finding).as_str()).concat(".json")
}

/// A recheck whose worker has run.
#[derive(Debug, Clone)]
pub struct RecheckRun {
    pub finding: i64,
    pub job: i64,
    /// The recorded state of the job.
    pub state: JobState,
    pub worktree: String,
    pub tokens_new: i64,
    pub override_once: bool,
}

/// What the worker wrote of its verdict.
#[derive(Debug, Clone)]
pub struct RecheckVerdict {
    pub verdict: Option<String>,
    pub reason: Option<String>,
    pub updated_summary: Option<String>,
    pub updated_detail: Option<String>,
    pub updated_severity: Option<String>,
}

/// Where the conclusion of a recheck stands.
#[derive(Debug, Clone)]
pub enum RecheckPhase {
    /// Waiting for the verdict file.
    Verdict,
    /// Waiting for the length of the streak of this failure.
    Streak { failure: String },
    Ended,
}

pub enum RecheckPhaseView {
    Verdict,
    Streak { failure: Seq<char> },
    Ended,
}

impl View for RecheckPhase {
    type V = RecheckPhaseView;

    open spec fn view(&self) -> RecheckPhaseView {
        match *self {
            RecheckPhase::Verdict => RecheckPhaseView::Verdict,
            RecheckPhase::Streak { failure } => RecheckPhaseView::Streak { failure: failure@ },
            RecheckPhase::Ended => RecheckPhaseView::Ended,
        }
    }
}

/// What the driver does next.
#[derive(Debug, Clone)]
pub enum RecheckAction {
    ReadVerdict,
    /// Count this failure of a recheck.
    RecordFailure { failure: String },
    Finish { summary: CycleSummary },
}

pub enum RecheckActionView {
    ReadVerdict,
    RecordFailure { failure: Seq<char> },
    Finish { summary: CycleSummaryView },
}

impl View for RecheckAction {
    type V = RecheckActionView;

    open spec fn view(&self) -> RecheckActionView {
        match *self {
            RecheckAction::ReadVerdict => RecheckActionView::ReadVerdict,
            RecheckAction::RecordFailure { failure } => RecheckActionView::RecordFailure {
                failure: failure@,
            },
            RecheckAction::Finish { summary } => RecheckActionView::Finish { summary: summary@ },
        }
    }
}

/// What came back.
#[derive(Debug, Clone)]
pub enum RecheckEvent {
    NoFile,
    Unparseable,
    Verdict { value: RecheckVerdict },
    Streak { count: i64 },
}

/// The fields that every summary of a concluded recheck has.
pub open spec fn recheck_summary(run: RecheckRun) -> CycleSummaryView {
    CycleSummaryView {
        kind: Some(JobKind::Finding(FindingJobKind::Recheck)),
        finding_id: Some(run.finding),
        job_id: Some(run.job),
        state: Some(run.state),
        tokens_new: Some(run.tokens_new),
        ..effects::blank()
    }
}

/// The reason as it is kept: at most 500 characters, empty where there is
/// none.
pub open spec fn kept_reason(v: RecheckVerdict) -> Seq<char> {
    match v.reason {
        Some(r) => text::first_chars(r@, 500),
        None => Seq::empty(),
    }
}

/// A recheck without a usable verdict.
pub open spec fn recheck_failed(failure: Seq<char>) -> (
    Seq<EffectView>,
    RecheckPhaseView,
    RecheckActionView,
) {
    (
        Seq::empty(),
        RecheckPhaseView::Streak { failure },
        RecheckActionView::RecordFailure { failure },
    )
}

/// A verdict was reached: what it does to the finding, and the summary.
pub open spec fn recheck_decided(
    run: RecheckRun,
    verdict: Seq<char>,
    reason: Seq<char>,
    change: Seq<EffectView>,
) -> (Seq<EffectView>, RecheckPhaseView, RecheckActionView) {
    (
        change + seq![
            EffectView::ClearAttempts { finding: run.finding, kind: FindingJobKind::Recheck },
            effects::log_view(
                "recheck"@,
                fix::numbered(run.finding) + " "@ + verdict + ": "@ + reason,
                Some(run.job),
                Some(run.finding),
            ),
        ] + fix::spend_override(run.finding, run.override_once),
        RecheckPhaseView::Ended,
        RecheckActionView::Finish {
            summary: CycleSummaryView {
                outcome: Some(verdict),
                verdict: Some(verdict),
                reason: Some(reason),
                ..recheck_summary(run)
            },
        },
    )
}

/// The first step after a recheck's worker has run. A pause keeps its tree
/// and is not counted; only a finished worker's verdict is read.
pub open spec fn recheck_first(run: RecheckRun) -> (
    Seq<EffectView>,
    RecheckPhaseView,
    RecheckActionView,
) {
    if run.state == JobState::Suspended {
        (
            seq![
                effects::log_view(
                    "recheck"@,
                    fix::numbered(run.finding) + " suspended; worktree kept at "@ + run.worktree@
                        + " for the resume"@,
                    Some(run.job),
                    Some(run.finding),
                ),
            ] + fix::spend_override(run.finding, run.override_once),
            RecheckPhaseView::Ended,
            RecheckActionView::Finish {
                summary: CycleSummaryView {
                    outcome: Some("suspended"@),
                    worktree: Some(run.worktree@),
                    ..recheck_summary(run)
                },
            },
        )
    } else if run.state == JobState::Done {
        (Seq::empty(), RecheckPhaseView::Verdict, RecheckActionView::ReadVerdict)
    } else {
        recheck_failed("worker "@ + run.state.text())
    }
}

/// What a verdict does.
pub open spec fn recheck_verdict(run: RecheckRun, v: RecheckVerdict) -> (
    Seq<EffectView>,
    RecheckPhaseView,
    RecheckActionView,
) {
    match v.verdict {
        None => recheck_failed("missing verdict field"@),
        Some(raw) => if raw@ == "confirmed"@ {
            recheck_decided(
                run,
                "confirmed"@,
                kept_reason(v),
                seq![
                    EffectView::UpdateAnalysis {
                        finding: run.finding,
                        summary: text::opt_text(v.updated_summary),
                        detail: text::opt_text(v.updated_detail),
                        severity: text::opt_text(v.updated_severity),
                    },
                    EffectView::SetStatus { finding: run.finding, status: FindingStatus::New },
                ],
            )
        } else if raw@ == "stale"@ {
            recheck_decided(
                run,
                "stale"@,
                kept_reason(v),
                seq![
                    EffectView::SetVerdict {
                        finding: run.finding,
                        status: FindingStatus::Wontfix,
                        reason: "recheck: "@ + kept_reason(v),
                    },
                ],
            )
        } else if raw@ == "invalid"@ {
            recheck_decided(
                run,
                "invalid"@,
                kept_reason(v),
                seq![
                    EffectView::SetVerdict {
                        finding: run.finding,
                        status: FindingStatus::Rejected,
                        reason: "recheck: "@ + kept_reason(v),
                    },
                ],
            )
        } else {
            recheck_failed("invalid verdict value: "@ + text::debug_text(raw@))
        },
    }
}

/// One step of a recheck's conclusion.
pub open spec fn recheck_next(run: RecheckRun, phase: RecheckPhaseView, event: RecheckEvent) -> (
    Seq<EffectView>,
    RecheckPhaseView,
    RecheckActionView,
) {
    match (phase, event) {
        (RecheckPhaseView::Verdict, RecheckEvent::NoFile) => recheck_failed("no verdict file"@),
        (RecheckPhaseView::Verdict, RecheckEvent::Unparseable) => recheck_failed(
            "unparseable verdict file"@,
        ),
        (RecheckPhaseView::Verdict, RecheckEvent::Verdict { value }) => recheck_verdict(run, value),
        (RecheckPhaseView::Streak { failure }, RecheckEvent::Streak { count }) => if count
            >= fix::MAX_CONSECUTIVE_SAME_FAILURE {
            (
                seq![
                    EffectView::SetStatus { finding: run.finding, status: FindingStatus::New },
                    EffectView::ClearAttempts {
                        finding: run.finding,
                        kind: FindingJobKind::Recheck,
                    },
                    effects::log_view(
                        "recheck"@,
                        fix::numbered(run.finding) + " gave up after "@ + text::int_text(
                            count as int,
                        ) + " identical failures ("@ + failure
                            + "); back to inbox for human triage"@,
                        Some(run.job),
                        Some(run.finding),
                    ),
                ] + fix::spend_override(run.finding, run.override_once),
                RecheckPhaseView::Ended,
                RecheckActionView::Finish {
                    summary: CycleSummaryView { outcome: Some("stuck"@), ..recheck_summary(run) },
                },
            )
        } else {
            (
                seq![
                    effects::log_view(
                        "recheck"@,
                        fix::numbered(run.finding) + ": job "@ + text::int_text(run.job as int)
                            + " "@ + failure + " -- will retry"@,
                        Some(run.job),
                        Some(run.finding),
                    ),
                ] + fix::spend_override(run.finding, run.override_once),
                RecheckPhaseView::Ended,
                RecheckActionView::Finish {
                    summary: CycleSummaryView {
                        outcome: Some("requeued"@),
                        ..recheck_summary(run)
                    },
                },
            )
        },
        _ => (
            Seq::empty(),
            RecheckPhaseView::Ended,
            RecheckActionView::Finish {
                summary: CycleSummaryView { error: Some("out of turn"@), ..recheck_summary(run) },
            },
        ),
    }
}

fn base_summary(run: &RecheckRun) -> (r: CycleSummary)
    ensures
        r@ == recheck_summary(*run),
{
    CycleSummary {
        kind: Some(JobKind::Finding(FindingJobKind::Recheck)),
        finding_id: Some(run.finding),
        job_id: Some(run.job),
        state: Some(run.state),
        tokens_new: Some(run.tokens_new),
        ..CycleSummary::default()
    }
}

fn fail(failure: String) -> (r: (Vec<Effect>, RecheckPhase, RecheckAction))
    ensures
        (effects::effects(r.0@), r.1@, r.2@) == recheck_failed(failure@),
{
    (
        effects::no_effects(),
        RecheckPhase::Streak { failure: failure.clone() },
        RecheckAction::RecordFailure { failure },
    )
}

fn decide(run: &RecheckRun, verdict: &str, reason: String, change: Vec<Effect>) -> (r: (
    Vec<Effect>,
    RecheckPhase,
    RecheckAction,
))
    ensures
        (effects::effects(r.0@), r.1@, r.2@) == recheck_decided(
            *run,
            verdict@,
            reason@,
            effects::effects(change@),
        ),
{
    let ghost start = effects::effects(change@);
    let mut out = change;
    effects::add_effect(
        &mut out,
        Effect::ClearAttempts { finding: run.finding, kind: FindingJobKind::Recheck },
    );
    let msg = fix::numbered_text(run.finding).concat(" ").concat(verdict).concat(": ").concat(
        &reason,
    );
    effects::add_effect(&mut out, effects::log("recheck", msg, Some(run.job), Some(run.finding)));
    fix::add_spend(&mut out, run.finding, run.override_once);
    assert(effects::effects(out@) =~= recheck_decided(*run, verdict@, reason@, start).0);
    let summary = CycleSummary {
        outcome: Some(verdict.to_owned()),
        verdict: Some(verdict.to_owned()),
        reason: Some(reason),
        ..base_summary(run)
    };
    (out, RecheckPhase::Ended, RecheckAction::Finish { summary })
}

/// The first step after a recheck's worker has run.
pub fn recheck_start(run: &RecheckRun) -> (r: (Vec<Effect>, RecheckPhase, RecheckAction))
    ensures
        (effects::effects(r.0@), r.1@, r.2@) == recheck_first(*run),
{
    if run.state == JobState::Suspended {
        let mut out = effects::no_effects();
        let msg = fix::numbered_text(run.finding).concat(" suspended; worktree kept at ").concat(
            &run.worktree,
        ).concat(" for the resume");
        effects::add_effect(
            &mut out,
            effects::log("recheck", msg, Some(run.job), Some(run.finding)),
        );
        fix::add_spend(&mut out, run.finding, run.override_once);
        assert(effects::effects(out@) =~= recheck_first(*run).0);
        let summary = CycleSummary {
            outcome: Some("suspended".to_owned()),
            worktree: Some(run.worktree.clone()),
            ..base_summary(run)
        };
        (out, RecheckPhase::Ended, RecheckAction::Finish { summary })
    } else if run.state == JobState::Done {
        (effects::no_effects(), RecheckPhase::Verdict, RecheckAction::ReadVerdict)
    } else {
        fail("worker ".to_owned().concat(run.state.as_str()))
    }
}

fn judge(run: &RecheckRun, v: RecheckVerdict) -> (r: (Vec<Effect>, RecheckPhase, RecheckAction))
    ensures
        (effects::effects(r.0@), r.1@, r.2@) == recheck_verdict(*run, v),
{
    let reason: String = match &v.reason {
        Some(t) => text::take_chars(t, 500),
        None => String::new(),
    };
    match &v.verdict {
        None => fail("missing verdict field".to_owned()),
        Some(raw) => {
            let mut change = effects::no_effects();
            if text::same(raw, "confirmed") {
                effects::add_effect(
                    &mut change,
                    Effect::UpdateAnalysis {
                        finding: run.finding,
                        summary: text::copy_opt(&v.updated_summary),
                        detail: text::copy_opt(&v.updated_detail),
                        severity: text::copy_opt(&v.updated_severity),
                    },
                );
                effects::add_effect(
                    &mut change,
                    Effect::SetStatus { finding: run.finding, status: FindingStatus::New },
                );
                assert(effects::effects(change@) =~= seq![
                    EffectView::UpdateAnalysis {
                        finding: run.finding,
                        summary: text::opt_text(v.updated_summary),
                        detail: text::opt_text(v.updated_detail),
                        severity: text::opt_text(v.updated_severity),
                    },
                    EffectView::SetStatus { finding: run.finding, status: FindingStatus::New },
                ]);
                decide(run, "confirmed", reason, change)
            } else if text::same(raw, "stale") {
                let full = "recheck: ".to_owned().concat(&reason);
                effects::add_effect(
                    &mut change,
                    Effect::SetVerdict {
                        finding: run.finding,
                        status: FindingStatus::Wontfix,
                        reason: full,
                    },
                );
                assert(effects::effects(change@) =~= seq![
                    EffectView::SetVerdict {
                        finding: run.finding,
                        status: FindingStatus::Wontfix,
                        reason: "recheck: "@ + kept_reason(v),
                    },
                ]);
                decide(run, "stale", reason, change)
            } else if text::same(raw, "invalid") {
                let full = "recheck: ".to_owned().concat(&reason);
                effects::add_effect(
                    &mut change,
                    Effect::SetVerdict {
                        finding: run.finding,
                        status: FindingStatus::Rejected,
                        reason: full,
                    },
                );
                assert(effects::effects(change@) =~= seq![
                    EffectView::SetVerdict {
                        finding: run.finding,
                        status: FindingStatus::Rejected,
                        reason: "recheck: "@ + kept_reason(v),
                    },
                ]);
                decide(run, "invalid", reason, change)
            } else {
                fail("invalid verdict value: ".to_owned().concat(text::quoted(raw).as_str()))
            }
        },
    }
}

/// One step of a recheck's conclusion.
pub fn recheck_step(run: &RecheckRun, phase: RecheckPhase, event: RecheckEvent) -> (r: (
    Vec<Effect>,
    RecheckPhase,
    RecheckAction,
))
    ensures
        (effects::effects(r.0@), r.1@, r.2@) == recheck_next(*run, phase@, event),
{
    let mut out = effects::no_effects();
    match (phase, event) {
        (RecheckPhase::Verdict, RecheckEvent::NoFile) => fail("no verdict file".to_owned()),
        (RecheckPhase::Verdict, RecheckEvent::Unparseable) => fail(
            "unparseable verdict file".to_owned(),
        ),
        (RecheckPhase::Verdict, RecheckEvent::Verdict { value }) => judge(run, value),
        (RecheckPhase::Streak { failure }, RecheckEvent::Streak { count }) => {
            if count >= fix::MAX_CONSECUTIVE_SAME_FAILURE {
                effects::add_effect(
                    &mut out,
                    Effect::SetStatus { finding: run.finding, status: FindingStatus::New },
                );
                effects::add_effect(
                    &mut out,
                    Effect::ClearAttempts {
                        finding: run.finding,
                        kind: FindingJobKind::Recheck,
                    },
                );
                let msg = fix::numbered_text(run.finding).concat(" gave up after ").concat(
                    text::int_to_text(count).as_str(),
                ).concat(" identical failures (").concat(&failure).concat(
                    "); back to inbox for human triage",
                );
                effects::add_effect(
                    &mut out,
                    effects::log("recheck", msg, Some(run.job), Some(run.finding)),
                );
                fix::add_spend(&mut out, run.finding, run.override_once);
                assert(effects::effects(out@) =~= recheck_next(*run, phase@, event).0);
                let summary = CycleSummary {
                    outcome: Some("stuck".to_owned()),
                    ..base_summary(run)
                };
                (out, RecheckPhase::Ended, RecheckAction::Finish { summary })
            } else {
                let msg = fix::numbered_text(run.finding).concat(": job ").concat(
                    text::int_to_text(run.job).as_str(),
                ).concat(" ").concat(&failure).concat(" -- will retry");
                effects::add_effect(
                    &mut out,
                    effects::log("recheck", msg, Some(run.job), Some(run.finding)),
                );
                fix::add_spend(&mut out, run.finding, run.override_once);
                assert(effects::effects(out@) =~= recheck_next(*run, phase@, event).0);
                let summary = CycleSummary {
                    outcome: Some("requeued".to_owned()),
                    ..base_summary(run)
                };
                (out, RecheckPhase::Ended, RecheckAction::Finish { summary })
            }
        },
        _ => {
            let summary = CycleSummary {
                error: Some("out of turn".to_owned()),
                ..base_summary(run)
            };
            (out, RecheckPhase::Ended, RecheckAction::Finish { summary })
        },
    }
}

/// A pause is not a failure: it is neither counted nor does it touch the
/// finding's status, and no verdict is read.
pub proof fn law_suspended_recheck_is_not_counted(run: RecheckRun)
    requires
        run.state == JobState::Suspended,
    ensures
        recheck_first(run).1 is Ended,
        forall|i: int|
            0 <= i < recheck_first(run).0.len() ==> !(#[trigger] recheck_first(run).0[i]
                is SetStatus) && !(recheck_first(run).0[i] is SetVerdict),
{
}

/// No verdict is read of a worker that did not finish.
pub proof fn law_only_finished_verdicts_are_read(run: RecheckRun)
    ensures
        recheck_first(run).2 is ReadVerdict <==> run.state == JobState::Done,
{
}

/// What a verdict comes to: a confirmed finding is new again, with what the
/// worker wrote anew; a stale one is not going to be fixed, an invalid one is
/// rejected, both with the beginning of the worker's reason. Anything else
/// leaves the finding alone and is counted as a failure.
pub proof fn law_verdict_decides_the_finding(run: RecheckRun, value: RecheckVerdict, was: FindingStatus)
    ensures
        ({
            let (v, next, action) = recheck_next(
                run,
                RecheckPhaseView::Verdict,
                RecheckEvent::Verdict { value },
            );
            let after = effects::status_after(v, run.finding, was);
            let said = match value.verdict {
                Some(s) => s@,
                None => Seq::<char>::empty(),
            };
            let reason = match value.reason {
                Some(s) => if s@.len() <= 500 { s@ } else { s@.take(500) },
                None => Seq::<char>::empty(),
            };
            let decided = said == "confirmed"@ || said == "stale"@ || said == "invalid"@;
            &&& effects::keeps_to(v, run.finding, run.job)
            &&& said == "confirmed"@ ==> after == FindingStatus::New && effects::reason_after(v, run.finding)
                is None && v.contains(
                EffectView::UpdateAnalysis {
                    finding: run.finding,
                    summary: text::opt_text(value.updated_summary),
                    detail: text::opt_text(value.updated_detail),
                    severity: text::opt_text(value.updated_severity),
                },
            )
            &&& said == "stale"@ ==> after == FindingStatus::Wontfix && effects::reason_after(v, run.finding)
                == Some("recheck: "@ + reason)
            &&& said == "invalid"@ ==> after == FindingStatus::Rejected && effects::reason_after(v, run.finding)
                == Some("recheck: "@ + reason)
            &&& decided ==> next is Ended && effects::forgets(v, run.finding, FindingJobKind::Recheck) && (
            effects::drops_override(v, run.finding) <==> run.override_once) && (action matches
                RecheckActionView::Finish { summary } && summary.outcome == Some(said) && summary.reason
                == Some(reason))
            &&& !decided ==> v.len() == 0 && next is Streak && action is RecordFailure
        }),
{
    reveal_strlit("");
    reveal_strlit("confirmed");
    reveal_strlit("stale");
    reveal_strlit("invalid");
    assert("confirmed"@.len() == 9);
    assert("stale"@.len() == 5);
    assert("invalid"@.len() == 7);
    let (v, next, action) = recheck_next(
        run,
        RecheckPhaseView::Verdict,
        RecheckEvent::Verdict { value },
    );
    let gone = EffectView::ClearOverride { finding: run.finding };
    let forgotten = EffectView::ClearAttempts { finding: run.finding, kind: FindingJobKind::Recheck };
    effects::lemma_short_lists(v, run.finding, was);
    effects::lemma_first_reason(v, run.finding);
    if let Some(raw) = value.verdict {
        if raw@ == "confirmed"@ {
            assert(v[0] is UpdateAnalysis);
            assert(v[2] == forgotten);
            assert(run.override_once ==> v[4] == gone);
        } else if raw@ == "stale"@ || raw@ == "invalid"@ {
            assert(v[1] == forgotten);
            assert(run.override_once ==> v[3] == gone);
        }
    }
    assert(kept_reason(value) =~= (match value.reason {
        Some(s) => if s@.len() <= 500 { s@ } else { s@.take(500) },
        None => Seq::<char>::empty(),
    }));
}

/// A recheck that failed the same way is tried again below the third time;
/// from then on the finding is new again, for a person to look at. It is
/// never given a verdict on that account.
pub proof fn law_failed_recheck_goes_back_to_the_inbox(
    run: RecheckRun,
    failure: Seq<char>,
    count: i64,
    was: FindingStatus,
)
    ensures
        ({
            let (v, next, action) = recheck_next(
                run,
                RecheckPhaseView::Streak { failure },
                RecheckEvent::Streak { count },
            );
            &&& next is Ended
            &&& effects::keeps_to(v, run.finding, run.job)
            &&& effects::status_after(v, run.finding, was) == (if count >= 3 { FindingStatus::New } else { was })
            &&& effects::forgets(v, run.finding, FindingJobKind::Recheck) <==> count >= 3
            &&& effects::drops_override(v, run.finding) <==> run.override_once
            &&& forall|i: int| 0 <= i < v.len() ==> !(#[trigger] v[i] is SetVerdict)
            &&& action matches RecheckActionView::Finish { summary } && summary.outcome == Some(
                if count >= 3 { "stuck"@ } else { "requeued"@ },
            )
        }),
{
    let (v, next, action) = recheck_next(
        run,
        RecheckPhaseView::Streak { failure },
        RecheckEvent::Streak { count },
    );
    let gone = EffectView::ClearOverride { finding: run.finding };
    effects::lemma_short_lists(v, run.finding, was);
    if count >= 3 {
        assert(v[1] == EffectView::ClearAttempts {
            finding: run.finding,
            kind: FindingJobKind::Recheck,
        });
        assert(run.override_once ==> v[3] == gone);
    } else {
        assert(run.override_once ==> v[1] == gone);
    }
}

/// Without a verdict that can be read, the recheck failed: nothing is written
/// and the failure is counted.
pub proof fn law_unread_verdict_is_a_failure(run: RecheckRun)
    ensures
        recheck_next(run, RecheckPhaseView::Verdict, RecheckEvent::NoFile).0.len() == 0,
        recheck_next(run, RecheckPhaseView::Verdict, RecheckEvent::NoFile).2 == (
        RecheckActionView::RecordFailure { failure: "no verdict file"@ }),
        recheck_next(run, RecheckPhaseView::Verdict, RecheckEvent::Unparseable).0.len() == 0,
        recheck_next(run, RecheckPhaseView::Verdict, RecheckEvent::Unparseable).2 == (
        RecheckActionView::RecordFailure { failure: "unparseable verdict file"@ }),
        run.state != JobState::Done && run.state != JobState::Suspended ==> recheck_first(run).0.len() == 0
            && (recheck_first(run).2 matches RecheckActionView::RecordFailure { failure } && failure
            == "worker "@ + run.state.text()),
        run.state == JobState::Suspended ==> (effects::drops_override(recheck_first(run).0, run.finding)
            <==> run.override_once) && effects::keeps_to(recheck_first(run).0, run.finding, run.job) && (
        recheck_first(run).2 matches RecheckActionView::Finish { summary } && summary.outcome == Some(
            "suspended"@,
        ) && summary.worktree == Some(run.worktree@)),
{
    let v = recheck_first(run).0;
    if run.state == JobState::Suspended {
        assert(run.override_once ==> v[1] == (EffectView::ClearOverride { finding: run.finding }));
    }
}

} // verus!
