//! One cycle: what the picked candidate is dispatched to, what a turn that
//! came to nothing costs its kind, and the line that the log gets.

use vstd::prelude::*;
use crate::domain::{FindingJobKind, JobKind, JobState, RepoJobKind};
use crate::scheduler::effects;
use crate::scheduler::effects::{CycleSummary, CycleSummaryView, Effect, EffectView, SyncResult};
use crate::scheduler::resume;
use crate::scheduler::resume::{ResumePlan, ResumePlanView};
use crate::scheduler::select::{Candidate, CandidateView};
use crate::text;

verus! {

/// A cycle with nothing to do.
pub open spec fn idle(sync: Option<SyncResult>) -> (Seq<EffectView>, CycleSummaryView) {
    (
        seq![effects::log_view("cycle"@, "idle: nothing to do"@, None, None)],
        CycleSummaryView {
            idle: Some("no queued findings, no enabled repos"@),
            sync,
            ..effects::blank()
        },
    )
}

pub fn idle_cycle(sync: Option<SyncResult>) -> (r: (Vec<Effect>, CycleSummary))
    ensures
        (effects::effects(r.0@), r.1@) == idle(sync),
{
    (
        effects::one_effect(effects::log("cycle", "idle: nothing to do".to_owned(), None, None)),
        CycleSummary {
            idle: Some("no queued findings, no enabled repos".to_owned()),
            sync,
            ..CycleSummary::default()
        },
    )
}

/// A cycle that failed with an error, in the error's full and in its short
/// form.
pub fn crashed_cycle(full: &str, short: &str) -> (r: (Vec<Effect>, CycleSummary))
    ensures
        effects::effects(r.0@) == seq![
            effects::log_view("error"@, "cycle crashed: "@ + full@, None, None),
        ],
        r.1@ == (CycleSummaryView { error: Some(short@), ..effects::blank() }),
{
    let message = "cycle crashed: ".to_owned().concat(full);
    (
        effects::one_effect(effects::log("error", message, None, None)),
        CycleSummary { error: Some(short.to_owned()), ..CycleSummary::default() },
    )
}

// ---------------------------------------------------------------------
// Dispatch
// ---------------------------------------------------------------------

/// Which executor runs, and on what.
#[allow(inconsistent_fields)]
#[derive(Debug, Clone)]
pub enum Dispatch {
    Repo { kind: RepoJobKind, id: i64 },
    Finding { kind: FindingJobKind, id: i64 },
    /// A suspended attempt at a finding that names none.
    Corrupt { error: String },
}

#[allow(inconsistent_fields)]
pub enum DispatchView {
    Repo { kind: RepoJobKind, id: i64 },
    Finding { kind: FindingJobKind, id: i64 },
    Corrupt { error: Seq<char> },
}

impl View for Dispatch {
    type V = DispatchView;

    open spec fn view(&self) -> DispatchView {
        match *self {
            Dispatch::Repo { kind, id } => DispatchView::Repo { kind, id },
            Dispatch::Finding { kind, id } => DispatchView::Finding { kind, id },
            Dispatch::Corrupt { error } => DispatchView::Corrupt { error: error@ },
        }
    }
}

/// What the log says when a suspended attempt is taken up: the terms of its
/// reservation.
pub open spec fn resume_note(p: ResumePlanView) -> Seq<char> {
    "resume "@ + p.kind.text() + " "@ + p.repo + ": job "@ + text::int_text(p.predecessor_id as int)
        + " -> reserving "@ + text::int_text(p.anticipated as int) + " tok (ctx "@ + text::int_text(
        p.ctx as int,
    ) + " + max("@ + text::int_text(p.typical as int) + " - "@ + text::int_text(
        p.chain_spent as int,
    ) + ", "@ + text::int_text(resume::least_work(p.ctx as int)) + "))"@
}

/// The executor of a candidate. A suspended attempt goes to the executor of
/// its own kind, and is logged.
pub open spec fn dispatched(c: CandidateView) -> (Seq<EffectView>, DispatchView) {
    match c {
        CandidateView::Repo { kind, repo_id, .. } => (
            Seq::empty(),
            DispatchView::Repo { kind, id: repo_id },
        ),
        CandidateView::Finding { kind, finding_id, .. } => (
            Seq::empty(),
            DispatchView::Finding { kind, id: finding_id },
        ),
        CandidateView::Resume { plan, .. } => (
            seq![
                effects::log_view(
                    "resume"@,
                    resume_note(plan),
                    Some(plan.predecessor_id),
                    plan.finding_id,
                ),
            ],
            match (plan.kind, plan.finding_id) {
                (JobKind::Repo(kind), _) => DispatchView::Repo { kind, id: plan.repo_id },
                (JobKind::Finding(kind), Some(id)) => DispatchView::Finding { kind, id },
                (JobKind::Finding(kind), None) => DispatchView::Corrupt {
                    error: "resume of a "@ + kind.text() + " job with no finding"@,
                },
            },
        ),
    }
}

fn resume_log(p: &ResumePlan) -> (r: String)
    ensures
        r@ == resume_note(p@),
{
    "resume ".to_owned().concat(p.kind.as_str()).concat(" ").concat(&p.repo).concat(": job ").concat(
        text::int_to_text(p.predecessor_id).as_str(),
    ).concat(" -> reserving ").concat(text::int_to_text(p.anticipated).as_str()).concat(
        " tok (ctx ",
    ).concat(text::int_to_text(p.ctx).as_str()).concat(" + max(").concat(
        text::int_to_text(p.typical).as_str(),
    ).concat(" - ").concat(text::int_to_text(p.chain_spent).as_str()).concat(", ").concat(
        text::int_to_text(resume::min_useful(p.ctx)).as_str(),
    ).concat("))")
}

pub fn dispatch(c: &Candidate) -> (r: (Vec<Effect>, Dispatch))
    ensures
        (effects::effects(r.0@), r.1@) == dispatched(c@),
{
    match c {
        Candidate::Repo { kind, repo_id, .. } => (
            effects::no_effects(),
            Dispatch::Repo { kind: *kind, id: *repo_id },
        ),
        Candidate::Finding { kind, finding_id, .. } => (
            effects::no_effects(),
            Dispatch::Finding { kind: *kind, id: *finding_id },
        ),
        Candidate::Resume { plan, .. } => {
            let out = effects::one_effect(
                effects::log("resume", resume_log(plan), Some(plan.predecessor_id), plan.finding_id),
            );
            let to = match (plan.kind, plan.finding_id) {
                (JobKind::Repo(kind), _) => Dispatch::Repo { kind, id: plan.repo_id },
                (JobKind::Finding(kind), Some(id)) => Dispatch::Finding { kind, id },
                (JobKind::Finding(kind), None) => Dispatch::Corrupt {
                    error: "resume of a ".to_owned().concat(kind.as_str()).concat(
                        " job with no finding",
                    ),
                },
            };
            (out, to)
        },
    }
}

/// Why a dispatched candidate cannot be worked on: its row is gone.
pub open spec fn gone(d: DispatchView) -> Option<Seq<char>> {
    match d {
        DispatchView::Repo { id, .. } => Some("repo "@ + text::int_text(id as int) + " not found"@),
        DispatchView::Finding { id, .. } => Some(
            "finding "@ + text::int_text(id as int) + " not found"@,
        ),
        DispatchView::Corrupt { .. } => None,
    }
}

pub fn gone_note(d: &Dispatch) -> (r: Option<String>)
    ensures
        text::opt_text(r) == gone(d@),
{
    match d {
        Dispatch::Repo { id, .. } => Some(
            "repo ".to_owned().concat(text::int_to_text(*id).as_str()).concat(" not found"),
        ),
        Dispatch::Finding { id, .. } => Some(
            "finding ".to_owned().concat(text::int_to_text(*id).as_str()).concat(" not found"),
        ),
        Dispatch::Corrupt { .. } => None,
    }
}

// ---------------------------------------------------------------------
// The end of a cycle
// ---------------------------------------------------------------------

/// Whether a scan came to nothing: killed or failed, an error, done without
/// findings, or with none but invalid ones.
pub open spec fn came_to_nothing(s: CycleSummaryView) -> bool {
    ||| s.state == Some(JobState::Killed)
    ||| s.state == Some(JobState::Failed)
    ||| s.error is Some
    ||| s.state == Some(JobState::Done) && s.ingest is None
    ||| s.ingest matches Some(i) && i.inserted == 0 && i.invalid > 0
}

fn is_in_vain(s: &CycleSummary) -> (r: bool)
    ensures
        r == came_to_nothing(s@),
{
    let ended: bool = match s.state {
        Some(JobState::Killed) => true,
        Some(JobState::Failed) => true,
        _ => false,
    };
    let done: bool = match s.state {
        Some(JobState::Done) => true,
        _ => false,
    };
    let failed: bool = match &s.error {
        Some(_) => true,
        None => false,
    };
    match s.ingest {
        Some(i) => ended || failed || (i.inserted == 0 && i.invalid > 0),
        None => ended || failed || done,
    }
}

/// The turn that is recorded so that the other kinds get theirs: of a scan
/// in the rotation that came to nothing.
pub open spec fn bump(c: CandidateView, s: CycleSummaryView) -> Seq<EffectView> {
    match c {
        CandidateView::Repo { kind, repo_id, .. } => if !(kind is Hunt) && came_to_nothing(s) {
            seq![EffectView::SetLastKind { repo: repo_id, kind }]
        } else {
            Seq::empty()
        },
        _ => Seq::empty(),
    }
}

pub open spec fn part(name: Seq<char>, value: Option<Seq<char>>) -> Seq<Seq<char>> {
    match value {
        Some(v) => seq![name + "="@ + v],
        None => Seq::empty(),
    }
}

pub open spec fn number(n: Option<i64>) -> Option<Seq<char>> {
    match n {
        Some(v) => Some(text::int_text(v as int)),
        None => None,
    }
}

/// The parts of the log line that a summary has something to say about.
pub open spec fn parts(s: CycleSummaryView) -> Seq<Seq<char>> {
    part(
        "kind"@,
        match s.kind {
            Some(k) => Some(k.text()),
            None => None,
        },
    ) + part("repo"@, s.repo) + part("finding"@, number(s.finding_id)) + part(
        "job"@,
        number(s.job_id),
    ) + part(
        "state"@,
        match s.state {
            Some(k) => Some(k.text()),
            None => None,
        },
    ) + part("outcome"@, s.outcome) + part("skipped"@, s.skipped) + part("denied"@, s.denied) + part(
        "error"@,
        s.error,
    )
}

pub open spec fn sync_text(s: SyncResult) -> Seq<char> {
    "prsync "@ + text::int_text(s.synced as int) + "s/"@ + text::int_text(s.merged as int) + "m/"@
        + text::int_text(s.closed as int) + "c/"@ + text::int_text(s.attention as int) + "a/"@
        + text::int_text(s.errors as int) + "e"@
}

/// The line that the log gets of a cycle.
pub open spec fn line(s: CycleSummaryView) -> Seq<char> {
    let said = text::join(parts(s), ", "@);
    match s.sync {
        Some(r) => if said.len() == 0 { sync_text(r) } else { said + "; "@ + sync_text(r) },
        None => said,
    }
}

fn add_part(v: &mut Vec<String>, name: &str, value: &Option<String>)
    ensures
        text::texts(final(v)@) == text::texts(old(v)@) + part(name@, text::opt_text(*value)),
{
    if let Some(s) = value {
        let p = name.to_owned().concat("=").concat(s);
        text::add_text(v, &p);
    }
    assert(text::texts(v@) =~= text::texts(old(v)@) + part(name@, text::opt_text(*value)));
}

fn number_text(n: Option<i64>) -> (r: Option<String>)
    ensures
        text::opt_text(r) == number(n),
{
    match n {
        Some(v) => Some(text::int_to_text(v)),
        None => None,
    }
}

/// The line that the log gets of a cycle.
pub fn cycle_line(s: &CycleSummary) -> (r: String)
    ensures
        r@ == line(s@),
{
    let kind: Option<String> = match s.kind {
        Some(k) => Some(k.as_str().to_owned()),
        None => None,
    };
    let state: Option<String> = match s.state {
        Some(k) => Some(k.as_str().to_owned()),
        None => None,
    };
    let mut v = text::no_texts();
    add_part(&mut v, "kind", &kind);
    add_part(&mut v, "repo", &s.repo);
    add_part(&mut v, "finding", &number_text(s.finding_id));
    add_part(&mut v, "job", &number_text(s.job_id));
    add_part(&mut v, "state", &state);
    add_part(&mut v, "outcome", &s.outcome);
    add_part(&mut v, "skipped", &s.skipped);
    add_part(&mut v, "denied", &s.denied);
    add_part(&mut v, "error", &s.error);
    assert(text::texts(v@) =~= parts(s@));
    let said = text::join_texts(&v, ", ");
    match s.sync {
        Some(y) => {
            let t = "prsync ".to_owned().concat(text::int_to_text(y.synced).as_str()).concat(
                "s/",
            ).concat(text::int_to_text(y.merged).as_str()).concat("m/").concat(
                text::int_to_text(y.closed).as_str(),
            ).concat("c/").concat(text::int_to_text(y.attention).as_str()).concat("a/").concat(
                text::int_to_text(y.errors).as_str(),
            ).concat("e");
            if said.as_str().is_empty() {
                t
            } else {
                said.concat("; ").concat(&t)
            }
        },
        None => said,
    }
}

/// The summary of a cycle that also looked at the pull requests.
pub open spec fn with_sync(s: CycleSummaryView, sync: Option<SyncResult>) -> CycleSummaryView {
    if sync is Some { CycleSummaryView { sync, ..s } } else { s }
}

/// The end of a cycle: the recorded turn, the log line, and the summary.
pub fn conclude_cycle(c: &Candidate, summary: CycleSummary, sync: Option<SyncResult>) -> (r: (
    Vec<Effect>,
    CycleSummary,
))
    ensures
        effects::effects(r.0@) == bump(c@, summary@).push(
            effects::log_view("cycle"@, line(with_sync(summary@, sync)), None, None),
        ),
        r.1@ == with_sync(summary@, sync),
{
    let mut out = effects::no_effects();
    if let Candidate::Repo { kind, repo_id, .. } = c {
        if kind.is_analysis() && is_in_vain(&summary) {
            effects::add_effect(&mut out, Effect::SetLastKind { repo: *repo_id, kind: *kind });
        }
    }
    assert(effects::effects(out@) =~= bump(c@, summary@));
    let mut end = summary;
    if sync.is_some() {
        end.sync = sync;
    }
    let message = cycle_line(&end);
    effects::add_effect(&mut out, effects::log("cycle", message, None, None));
    (out, end)
}

// ---------------------------------------------------------------------
// Laws
// ---------------------------------------------------------------------

/// A suspended scan is no turn taken: without an error it records none,
/// unless it read findings of which none was valid.
pub proof fn law_suspension_takes_no_turn(c: CandidateView, s: CycleSummaryView)
    requires
        s.state == Some(JobState::Suspended),
        s.error is None,
        !(s.ingest matches Some(i) && i.inserted == 0 && i.invalid > 0),
    ensures
        bump(c, s) == Seq::<EffectView>::empty(),
{
}

/// A scan in the rotation that failed gives the turn away, so that the next
/// pick is another kind's.
pub proof fn law_failed_scan_gives_its_turn(
    kind: RepoJobKind,
    repo_id: i64,
    label: Option<Seq<char>>,
    s: CycleSummaryView,
)
    requires
        kind != RepoJobKind::Hunt,
        s.state == Some(JobState::Failed) || s.state == Some(JobState::Killed) || s.error is Some,
    ensures
        bump(CandidateView::Repo { kind, repo_id, label }, s) == seq![
            EffectView::SetLastKind { repo: repo_id, kind },
        ],
{
}

/// A continued attempt runs through the executor of the kind that was
/// suspended.
pub proof fn law_resume_keeps_its_kind(c: CandidateView)
    ensures
        match dispatched(c).1 {
            DispatchView::Repo { kind, .. } => c.kind_of() == JobKind::Repo(kind),
            DispatchView::Finding { kind, .. } => c.kind_of() == JobKind::Finding(kind),
            DispatchView::Corrupt { .. } => c is Resume && c.kind_of() is Finding,
        },
{
}

/// A candidate goes to the executor of its own kind, with the row that it
/// names: the repository of a scan, the finding of all other work. Only a
/// continued attempt is logged, with its predecessor and its finding.
pub proof fn law_candidate_goes_to_its_executor(c: CandidateView)
    ensures
        c matches CandidateView::Repo { kind, repo_id, .. } ==> dispatched(c) == (
            Seq::<EffectView>::empty(),
            DispatchView::Repo { kind, id: repo_id },
        ),
        c matches CandidateView::Finding { kind, finding_id, .. } ==> dispatched(c) == (
            Seq::<EffectView>::empty(),
            DispatchView::Finding { kind, id: finding_id },
        ),
        c matches CandidateView::Resume { plan, .. } ==> {
            &&& dispatched(c).0.len() == 1
            &&& dispatched(c).0[0] matches EffectView::Log { kind, job, finding, .. } && kind == "resume"@ && job
                == Some(plan.predecessor_id) && finding == plan.finding_id
            &&& dispatched(c).1 matches DispatchView::Repo { kind, id } ==> plan.kind == JobKind::Repo(kind) && id
                == plan.repo_id
            &&& dispatched(c).1 matches DispatchView::Finding { kind, id } ==> plan.kind == JobKind::Finding(
                kind,
            ) && plan.finding_id == Some(id)
            &&& dispatched(c).1 is Corrupt <==> plan.kind is Finding && plan.finding_id is None
        },
{
}

/// A turn is recorded exactly for a scan of the rotation that is no hunt and
/// that was killed or failed, ended in an error, finished without findings, or
/// left none but invalid ones. It is recorded for that kind and repository.
pub proof fn law_turn_is_recorded_in_vain_only(c: CandidateView, s: CycleSummaryView)
    ensures
        ({
            let vain = {
                ||| s.state == Some(JobState::Killed)
                ||| s.state == Some(JobState::Failed)
                ||| s.error is Some
                ||| s.state == Some(JobState::Done) && s.ingest is None
                ||| s.ingest matches Some(i) && i.inserted == 0 && i.invalid > 0
            };
            match c {
                CandidateView::Repo { kind, repo_id, .. } => if kind != RepoJobKind::Hunt && vain {
                    bump(c, s) == seq![EffectView::SetLastKind { repo: repo_id, kind }]
                } else {
                    bump(c, s).len() == 0
                },
                _ => bump(c, s).len() == 0,
            }
        }),
{
}

/// A scan that found something valid, or nothing at all, and ended well keeps
/// its turn as it was recorded.
pub proof fn law_good_scan_records_no_second_turn(c: CandidateView, s: CycleSummaryView)
    requires
        s.state == Some(JobState::Done),
        s.error is None,
        s.ingest matches Some(i) && (i.inserted > 0 || i.invalid <= 0),
    ensures
        bump(c, s).len() == 0,
{
}

/// The summary of a cycle keeps what its work came to; only the counts of the
/// pull requests are added, where they were looked at.
pub proof fn law_summary_keeps_its_work(s: CycleSummaryView, sync: Option<SyncResult>)
    ensures
        with_sync(s, sync).sync == (if sync is Some { sync } else { s.sync }),
        (CycleSummaryView { sync: s.sync, ..with_sync(s, sync) }) == s,
{
}

/// Each part of the log line names its field; a field without a value has no
/// part.
pub proof fn law_line_names_its_parts(name: Seq<char>, value: Option<Seq<char>>)
    ensures
        part(name, value).len() == (if value is Some { 1int } else { 0 }),
        value matches Some(v) ==> part(name, value)[0] == name + "="@ + v,
{
}

/// An idle cycle says so, keeps the counts of the pull requests, and names no
/// work.
pub proof fn law_idle_cycle_names_no_work(sync: Option<SyncResult>)
    ensures
        idle(sync).0.len() == 1,
        idle(sync).0[0] matches EffectView::Log { kind, job, finding, .. } && kind == "cycle"@ && job is None
            && finding is None,
        idle(sync).1.idle is Some,
        idle(sync).1.sync == sync,
        idle(sync).1.kind is None && idle(sync).1.job_id is None && idle(sync).1.finding_id is None
            && idle(sync).1.error is None,
{
}

} // verus!
