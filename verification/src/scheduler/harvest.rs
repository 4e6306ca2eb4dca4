//! The follow-up on a merged pull request: what its result means.

use vstd::prelude::*;
use crate::domain::{FindingJobKind, JobKind, JobState};
use crate::ingest::IngestResult;
use crate::scheduler::effects;
use crate::scheduler::effects::{CycleSummary, CycleSummaryView, Effect, EffectView};
use crate::scheduler::engage;
use crate::scheduler::fix;
use crate::scheduler::prepare;
use crate::text;

verus! {

/// A harvest whose worker has run and whose follow-ups were ingested.
#[derive(Debug, Clone)]
pub struct HarvestRun {
    pub finding: i64,
    pub job: i64,
    /// The recorded state of the job.
    pub state: JobState,
    pub pr_number: i64,
    pub worktree: String,
    pub followups: Option<IngestResult>,
    pub override_once: bool,
}

/// What the driver does next.
#[derive(Debug, Clone)]
pub enum HarvestAction {
    /// Count this failure of a harvest.
    RecordFailure { failure: String },
    Finish { summary: CycleSummary },
}

pub enum HarvestActionView {
    RecordFailure { failure: Seq<char> },
    Finish { summary: CycleSummaryView },
}

impl View for HarvestAction {
    type V = HarvestActionView;

    open spec fn view(&self) -> HarvestActionView {
        match *self {
            HarvestAction::RecordFailure { failure } => HarvestActionView::RecordFailure {
                failure: failure@,
            },
            HarvestAction::Finish { summary } => HarvestActionView::Finish { summary: summary@ },
        }
    }
}

/// The fields that every summary of a concluded harvest has.
pub open spec fn harvest_summary(run: HarvestRun) -> CycleSummaryView {
    CycleSummaryView {
        kind: Some(JobKind::Finding(FindingJobKind::Harvest)),
        finding_id: Some(run.finding),
        job_id: Some(run.job),
        state: Some(run.state),
        pr_number: Some(run.pr_number),
        ingest: run.followups,
        ..effects::blank()
    }
}

/// The merged pull request needs no further look.
pub open spec fn harvest_over(run: HarvestRun) -> Seq<EffectView> {
    seq![
        EffectView::MarkPrHarvested { finding: run.finding },
        EffectView::ClearAttempts { finding: run.finding, kind: FindingJobKind::Harvest },
    ]
}

/// The conclusion of a harvest, up to the count of its failures.
pub open spec fn harvest_first(run: HarvestRun) -> (Seq<EffectView>, HarvestActionView) {
    let seen = engage::followups_log("harvest"@, run.finding, run.job, run.followups);
    let spend = fix::spend_override(run.finding, run.override_once);
    if run.state == JobState::Suspended {
        (
            seen + seq![
                effects::log_view(
                    "harvest"@,
                    fix::numbered(run.finding) + " suspended; worktree kept at "@ + run.worktree@
                        + " for the resume"@,
                    Some(run.job),
                    Some(run.finding),
                ),
            ] + spend,
            HarvestActionView::Finish {
                summary: CycleSummaryView {
                    outcome: Some("suspended"@),
                    worktree: Some(run.worktree@),
                    ..harvest_summary(run)
                },
            },
        )
    } else if run.state != JobState::Done {
        (seen, HarvestActionView::RecordFailure { failure: "worker "@ + run.state.text() })
    } else {
        (
            seen + harvest_over(run) + seq![
                effects::log_view(
                    "harvest"@,
                    fix::numbered(run.finding) + " PR #"@ + text::int_text(run.pr_number as int)
                        + " reviewed for follow-ups"@,
                    Some(run.job),
                    Some(run.finding),
                ),
            ] + spend,
            HarvestActionView::Finish {
                summary: CycleSummaryView { outcome: Some("harvested"@), ..harvest_summary(run) },
            },
        )
    }
}

/// The conclusion of a harvest that failed `count` times in a row.
pub open spec fn harvest_counted(run: HarvestRun, count: i64) -> (Seq<EffectView>, CycleSummaryView) {
    let spend = fix::spend_override(run.finding, run.override_once);
    let failure = "worker "@ + run.state.text();
    if count >= fix::MAX_CONSECUTIVE_SAME_FAILURE {
        (
            harvest_over(run) + seq![
                effects::log_view(
                    "error"@,
                    prepare::about("harvest"@, run.finding) + ": gave up after "@ + text::int_text(
                        count as int,
                    ) + " identical failures ("@ + failure
                        + ") -- not reviewed, will not retry"@,
                    Some(run.job),
                    Some(run.finding),
                ),
            ] + spend,
            CycleSummaryView { outcome: Some("stuck"@), ..harvest_summary(run) },
        )
    } else {
        (
            seq![
                effects::log_view(
                    "error"@,
                    prepare::about("harvest"@, run.finding) + ": worker "@ + run.state.text()
                        + ", will retry"@,
                    Some(run.job),
                    Some(run.finding),
                ),
            ] + spend,
            CycleSummaryView { outcome: Some("retry"@), ..harvest_summary(run) },
        )
    }
}

fn base_summary(run: &HarvestRun) -> (r: CycleSummary)
    ensures
        r@ == harvest_summary(*run),
{
    CycleSummary {
        kind: Some(JobKind::Finding(FindingJobKind::Harvest)),
        finding_id: Some(run.finding),
        job_id: Some(run.job),
        state: Some(run.state),
        pr_number: Some(run.pr_number),
        ingest: run.followups,
        ..CycleSummary::default()
    }
}

fn add_over(out: &mut Vec<Effect>, run: &HarvestRun)
    ensures
        effects::effects(final(out)@) == effects::effects(old(out)@) + harvest_over(*run),
{
    effects::add_effect(out, Effect::MarkPrHarvested { finding: run.finding });
    effects::add_effect(
        out,
        Effect::ClearAttempts { finding: run.finding, kind: FindingJobKind::Harvest },
    );
    assert(effects::effects(out@) =~= effects::effects(old(out)@) + harvest_over(*run));
}

/// Conclude a harvest whose worker has run.
pub fn harvest_start(run: &HarvestRun) -> (r: (Vec<Effect>, HarvestAction))
    ensures
        (effects::effects(r.0@), r.1@) == harvest_first(*run),
{
    let mut out = effects::no_effects();
    engage::add_followups_log(&mut out, "harvest", run.finding, run.job, run.followups);
    if run.state == JobState::Suspended {
        let msg = fix::numbered_text(run.finding).concat(" suspended; worktree kept at ").concat(
            &run.worktree,
        ).concat(" for the resume");
        effects::add_effect(
            &mut out,
            effects::log("harvest", msg, Some(run.job), Some(run.finding)),
        );
        fix::add_spend(&mut out, run.finding, run.override_once);
        assert(effects::effects(out@) =~= harvest_first(*run).0);
        let summary = CycleSummary {
            outcome: Some("suspended".to_owned()),
            worktree: Some(run.worktree.clone()),
            ..base_summary(run)
        };
        (out, HarvestAction::Finish { summary })
    } else if run.state != JobState::Done {
        assert(effects::effects(out@) =~= harvest_first(*run).0);
        (
            out,
            HarvestAction::RecordFailure {
                failure: "worker ".to_owned().concat(run.state.as_str()),
            },
        )
    } else {
        add_over(&mut out, run);
        let msg = fix::numbered_text(run.finding).concat(" PR #").concat(
            text::int_to_text(run.pr_number).as_str(),
        ).concat(" reviewed for follow-ups");
        effects::add_effect(
            &mut out,
            effects::log("harvest", msg, Some(run.job), Some(run.finding)),
        );
        fix::add_spend(&mut out, run.finding, run.override_once);
        assert(effects::effects(out@) =~= harvest_first(*run).0);
        let summary = CycleSummary { outcome: Some("harvested".to_owned()), ..base_summary(run) };
        (out, HarvestAction::Finish { summary })
    }
}

/// Conclude a harvest that failed `count` times in a row.
pub fn harvest_streak(run: &HarvestRun, count: i64) -> (r: (Vec<Effect>, CycleSummary))
    ensures
        (effects::effects(r.0@), r.1@) == harvest_counted(*run, count),
{
    let mut out = effects::no_effects();
    if count >= fix::MAX_CONSECUTIVE_SAME_FAILURE {
        add_over(&mut out, run);
        let failure = "worker ".to_owned().concat(run.state.as_str());
        let msg = prepare::about_text("harvest", run.finding).concat(": gave up after ").concat(
            text::int_to_text(count).as_str(),
        ).concat(" identical failures (").concat(&failure).concat(
            ") -- not reviewed, will not retry",
        );
        effects::add_effect(&mut out, effects::log("error", msg, Some(run.job), Some(run.finding)));
        fix::add_spend(&mut out, run.finding, run.override_once);
        assert(effects::effects(out@) =~= harvest_counted(*run, count).0);
        (out, CycleSummary { outcome: Some("stuck".to_owned()), ..base_summary(run) })
    } else {
        let msg = prepare::about_text("harvest", run.finding).concat(": worker ").concat(
            run.state.as_str(),
        ).concat(", will retry");
        effects::add_effect(&mut out, effects::log("error", msg, Some(run.job), Some(run.finding)));
        fix::add_spend(&mut out, run.finding, run.override_once);
        assert(effects::effects(out@) =~= harvest_counted(*run, count).0);
        (out, CycleSummary { outcome: Some("retry".to_owned()), ..base_summary(run) })
    }
}

/// A pause is not a failure: it is not counted, and the pull request stays
/// unharvested for the resume.
pub proof fn law_suspended_harvest_is_not_counted(run: HarvestRun)
    requires
        run.state == JobState::Suspended,
    ensures
        harvest_first(run).1 is Finish,
        forall|i: int|
            0 <= i < harvest_first(run).0.len() ==> !(#[trigger] harvest_first(run).0[i]
                is MarkPrHarvested),
{
}

/// A harvest is over where its worker finished, or where it failed the same
/// way for the third time: the pull request is not looked at again, and the
/// failed attempts are forgotten. Below that it is looked at again.
pub proof fn law_harvest_is_over_once(run: HarvestRun, count: i64)
    ensures
        ({
            let v = harvest_first(run).0;
            let over = v.contains(EffectView::MarkPrHarvested { finding: run.finding });
            &&& over <==> run.state == JobState::Done
            &&& effects::forgets(v, run.finding, FindingJobKind::Harvest) <==> run.state == JobState::Done
            &&& effects::keeps_to(v, run.finding, run.job)
            &&& harvest_first(run).1 is RecordFailure <==> run.state != JobState::Done && run.state
                != JobState::Suspended
        }),
        ({
            let (v, summary) = harvest_counted(run, count);
            let over = v.contains(EffectView::MarkPrHarvested { finding: run.finding });
            &&& over <==> count >= 3
            &&& effects::forgets(v, run.finding, FindingJobKind::Harvest) <==> count >= 3
            &&& effects::drops_override(v, run.finding) <==> run.override_once
            &&& effects::keeps_to(v, run.finding, run.job)
            &&& summary.outcome == Some(if count >= 3 { "stuck"@ } else { "retry"@ })
        }),
{
    let v = harvest_first(run).0;
    let seen = engage::followups_log("harvest"@, run.finding, run.job, run.followups);
    let n = seen.len() as int;
    let marked = EffectView::MarkPrHarvested { finding: run.finding };
    let forgotten = EffectView::ClearAttempts { finding: run.finding, kind: FindingJobKind::Harvest };
    let gone = EffectView::ClearOverride { finding: run.finding };
    if run.state == JobState::Done {
        assert(v[n] == marked);
        assert(v[n + 1] == forgotten);
    }
    let w = harvest_counted(run, count).0;
    if count >= 3 {
        assert(w[0] == marked);
        assert(w[1] == forgotten);
        assert(run.override_once ==> w[3] == gone);
    } else {
        assert(run.override_once ==> w[1] == gone);
    }
}

/// A harvest never changes the status of a finding, and gives no verdict.
pub proof fn law_harvest_leaves_the_status(run: HarvestRun, count: i64, i: int)
    ensures
        0 <= i < harvest_first(run).0.len() ==> ({
            let e = harvest_first(run).0[i];
            e is MarkPrHarvested || e is ClearAttempts || e is Log || e is ClearOverride
        }),
        0 <= i < harvest_counted(run, count).0.len() ==> ({
            let e = harvest_counted(run, count).0[i];
            e is MarkPrHarvested || e is ClearAttempts || e is Log || e is ClearOverride
        }),
{
}

/// A finished or paused harvest spends a one-time override, and what it says
/// names the pull request and the counts of the follow-ups.
pub proof fn law_concluded_harvest_says_what_came_of_it(run: HarvestRun)
    requires
        run.state == JobState::Done || run.state == JobState::Suspended,
    ensures
        effects::drops_override(harvest_first(run).0, run.finding) <==> run.override_once,
        harvest_first(run).1 matches HarvestActionView::Finish { summary } && ({
            &&& summary.outcome == Some(
                if run.state == JobState::Done { "harvested"@ } else { "suspended"@ },
            )
            &&& summary.pr_number == Some(run.pr_number)
            &&& summary.ingest == run.followups
            &&& summary.finding_id == Some(run.finding)
            &&& summary.job_id == Some(run.job)
        }),
{
    let v = harvest_first(run).0;
    if run.override_once {
        assert(v.last() == EffectView::ClearOverride { finding: run.finding });
        assert(v[v.len() - 1] == v.last());
    }
}

} // verus!
