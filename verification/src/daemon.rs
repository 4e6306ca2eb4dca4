//! The loop around the cycles: what is said of one, and how long to rest
//! after it.

use vstd::prelude::*;
use crate::domain::{FindingStatus, JobState};
use crate::scheduler::effects;
use crate::scheduler::effects::{CycleSummary, CycleSummaryView, Effect, EffectView};
use crate::text;
use crate::types::{Finding, Job};

verus! {

/// Why a second daemon does not start.
pub fn lock_note(lock_path: &str) -> (r: String)
    ensures
        r@ == "another hunter process is already running (lock: "@ + lock_path@
            + ")\n  check: ps aux | grep '[h]unter --root'\n  or:    systemctl --user status hunter.service"@,
{
    "another hunter process is already running (lock: ".to_owned().concat(lock_path).concat(
        ")\n  check: ps aux | grep '[h]unter --root'\n  or:    systemctl --user status hunter.service",
    )
}

// ---------------------------------------------------------------------
// After a crash
// ---------------------------------------------------------------------

/// What is said of a finding that an earlier process was fixing when it
/// died.
pub open spec fn stuck_log(f: Finding) -> EffectView {
    effects::log_view(
        "error"@,
        "reconciled #"@ + text::int_text(f.id as int)
            + " stuck 'fixing' -> 'queued' -- prior process died mid-fix"@,
        None,
        Some(f.id),
    )
}

fn log_stuck(f: &Finding) -> (r: Effect)
    ensures
        r@ == stuck_log(*f),
{
    let message = "reconciled #".to_owned().concat(text::int_to_text(f.id).as_str()).concat(
        " stuck 'fixing' -> 'queued' -- prior process died mid-fix",
    );
    effects::log("error", message, None, Some(f.id))
}

pub open spec fn shown_option(n: Option<i64>) -> Seq<char> {
    match n {
        Some(v) => "Some("@ + text::int_text(v as int) + ")"@,
        None => "None"@,
    }
}

fn show_option(n: Option<i64>) -> (r: String)
    ensures
        r@ == shown_option(n),
{
    match n {
        Some(v) => "Some(".to_owned().concat(text::int_to_text(v).as_str()).concat(")"),
        None => "None".to_owned(),
    }
}

/// What is said of a job that was running when an earlier process died.
pub open spec fn orphan_log(j: Job) -> EffectView {
    effects::log_view(
        "error"@,
        "reconciled orphaned "@ + j.kind.text() + " job #"@ + text::int_text(j.id as int)
            + " (finding "@ + shown_option(j.finding_id) + ") -- prior process died mid-job"@,
        Some(j.id),
        j.finding_id,
    )
}

fn log_orphan(j: &Job) -> (r: Effect)
    ensures
        r@ == orphan_log(*j),
{
    let message = "reconciled orphaned ".to_owned().concat(j.kind.as_str()).concat(" job #").concat(
        text::int_to_text(j.id).as_str(),
    ).concat(" (finding ").concat(show_option(j.finding_id).as_str()).concat(
        ") -- prior process died mid-job",
    );
    effects::log("error", message, Some(j.id), j.finding_id)
}

/// A stuck finding goes back to the queue.
pub open spec fn requeue(f: Finding) -> EffectView {
    EffectView::SetStatus { finding: f.id, status: FindingStatus::Queued }
}

/// An orphaned job is recorded as one.
pub open spec fn orphan(j: Job) -> EffectView {
    EffectView::OrphanJob {
        job: j.id,
        note: "reconciled at cycle startup -- prior process died mid-job"@,
    }
}

/// What is written of the findings that were being fixed and the jobs that
/// were running when an earlier process died: first where they go, then what
/// is said of them.
pub open spec fn reconciled(stuck: Seq<Finding>, orphans: Seq<Job>) -> Seq<EffectView> {
    stuck.map_values(|f: Finding| requeue(f)) + orphans.map_values(|j: Job| orphan(j))
        + stuck.map_values(|f: Finding| stuck_log(f)) + orphans.map_values(|j: Job| orphan_log(j))
}

fn add_for_findings(out: &mut Vec<Effect>, stuck: &Vec<Finding>, said: bool)
    ensures
        effects::effects(final(out)@) == effects::effects(old(out)@) + stuck@.map_values(
            |f: Finding| if said { stuck_log(f) } else { requeue(f) },
        ),
{
    let ghost each = |f: Finding| if said { stuck_log(f) } else { requeue(f) };
    let ghost before = effects::effects(out@);
    let mut i: usize = 0;
    assert(stuck@.take(0).map_values(each) =~= Seq::<EffectView>::empty());
    assert(before + Seq::<EffectView>::empty() =~= before);
    while i < stuck.len()
        invariant
            i <= stuck@.len(),
            each == (|f: Finding| if said { stuck_log(f) } else { requeue(f) }),
            effects::effects(out@) == before + stuck@.take(i as int).map_values(each),
        decreases stuck@.len() - i,
    {
        let f = &stuck[i];
        let e: Effect = if said {
            log_stuck(f)
        } else {
            Effect::SetStatus { finding: f.id, status: FindingStatus::Queued }
        };
        effects::add_effect(out, e);
        assert((before + stuck@.take(i as int).map_values(each)).push(each(stuck@[i as int]))
            =~= before + stuck@.take(i + 1).map_values(each));
        i = i + 1;
    }
    assert(stuck@.take(stuck@.len() as int) =~= stuck@);
}

fn add_for_jobs(out: &mut Vec<Effect>, orphans: &Vec<Job>, said: bool)
    ensures
        effects::effects(final(out)@) == effects::effects(old(out)@) + orphans@.map_values(
            |j: Job| if said { orphan_log(j) } else { orphan(j) },
        ),
{
    let ghost each = |j: Job| if said { orphan_log(j) } else { orphan(j) };
    let ghost before = effects::effects(out@);
    let mut i: usize = 0;
    assert(orphans@.take(0).map_values(each) =~= Seq::<EffectView>::empty());
    assert(before + Seq::<EffectView>::empty() =~= before);
    while i < orphans.len()
        invariant
            i <= orphans@.len(),
            each == (|j: Job| if said { orphan_log(j) } else { orphan(j) }),
            effects::effects(out@) == before + orphans@.take(i as int).map_values(each),
        decreases orphans@.len() - i,
    {
        let j = &orphans[i];
        let e: Effect = if said {
            log_orphan(j)
        } else {
            Effect::OrphanJob {
                job: j.id,
                note: "reconciled at cycle startup -- prior process died mid-job".to_owned(),
            }
        };
        effects::add_effect(out, e);
        assert((before + orphans@.take(i as int).map_values(each)).push(each(orphans@[i as int]))
            =~= before + orphans@.take(i + 1).map_values(each));
        i = i + 1;
    }
    assert(orphans@.take(orphans@.len() as int) =~= orphans@);
}

/// Put back what an earlier process was working on when it died.
pub fn reconcile_and_log(stuck: &Vec<Finding>, orphans: &Vec<Job>) -> (r: Vec<Effect>)
    ensures
        effects::effects(r@) == reconciled(stuck@, orphans@),
{
    let mut out = effects::no_effects();
    add_for_findings(&mut out, stuck, false);
    add_for_jobs(&mut out, orphans, false);
    add_for_findings(&mut out, stuck, true);
    add_for_jobs(&mut out, orphans, true);
    assert(effects::effects(out@) =~= reconciled(stuck@, orphans@));
    out
}

/// After a crash no finding stays in the fixing status and no job stays
/// running: each is written, and each is said.
pub proof fn law_nothing_is_left_running(stuck: Seq<Finding>, orphans: Seq<Job>)
    ensures
        forall|i: int| 0 <= i < stuck.len() ==> #[trigger] reconciled(stuck, orphans).contains(
            requeue(stuck[i]),
        ),
        forall|i: int| 0 <= i < stuck.len() ==> #[trigger] reconciled(stuck, orphans).contains(
            stuck_log(stuck[i]),
        ),
        forall|i: int| 0 <= i < orphans.len() ==> #[trigger] reconciled(stuck, orphans).contains(
            orphan(orphans[i]),
        ),
        forall|i: int| 0 <= i < orphans.len() ==> #[trigger] reconciled(stuck, orphans).contains(
            orphan_log(orphans[i]),
        ),
{
    let all = reconciled(stuck, orphans);
    let n = stuck.len() as int;
    let m = orphans.len() as int;
    assert forall|i: int| 0 <= i < stuck.len() implies #[trigger] all.contains(requeue(stuck[i])) by {
        assert(all[i] == requeue(stuck[i]));
    }
    assert forall|i: int| 0 <= i < stuck.len() implies #[trigger] all.contains(
        stuck_log(stuck[i]),
    ) by {
        assert(all[n + m + i] == stuck_log(stuck[i]));
    }
    assert forall|i: int| 0 <= i < orphans.len() implies #[trigger] all.contains(
        orphan(orphans[i]),
    ) by {
        assert(all[n + i] == orphan(orphans[i]));
    }
    assert forall|i: int| 0 <= i < orphans.len() implies #[trigger] all.contains(
        orphan_log(orphans[i]),
    ) by {
        assert(all[n + m + n + i] == orphan_log(orphans[i]));
    }
}

// ---------------------------------------------------------------------
// What is said of a cycle
// ---------------------------------------------------------------------

/// Whether a cycle ran a job to an end.
pub open spec fn ran(s: CycleSummaryView) -> bool {
    s.state == Some(JobState::Done) || s.state == Some(JobState::Killed) || s.state == Some(
        JobState::Failed,
    )
}

fn did_run(s: &CycleSummary) -> (r: bool)
    ensures
        r == ran(s@),
{
    match s.state {
        Some(JobState::Done) => true,
        Some(JobState::Killed) => true,
        Some(JobState::Failed) => true,
        _ => false,
    }
}

/// What a cycle worked on.
pub open spec fn target(s: CycleSummaryView) -> Seq<char> {
    match s.finding_id {
        Some(f) => "#"@ + text::int_text(f as int),
        None => match s.repo {
            Some(r) => "("@ + r + ")"@,
            None => "(?)"@,
        },
    }
}

/// What came of it, where that is more than done.
pub open spec fn ending(s: CycleSummaryView) -> Seq<char> {
    match s.outcome {
        Some(o) => " -> "@ + o,
        None => if s.state == Some(JobState::Done) {
            ""@
        } else {
            " "@ + match s.state {
                Some(x) => x.text(),
                None => ""@,
            }
        },
    }
}

/// The scheduler's state after a cycle, and the detail of it.
pub open spec fn described(s: CycleSummaryView) -> (Seq<char>, Seq<char>) {
    if s.error is Some {
        ("error"@, text::first_chars(s.error->0, 200))
    } else if s.idle is Some {
        ("idle"@, s.idle->0)
    } else if s.skipped is Some {
        ("idle"@, s.skipped->0)
    } else if s.denied is Some {
        ("denied"@, "last: "@ + s.denied->0)
    } else if ran(s) && s.kind is Some {
        ("idle"@, "last: "@ + (s.kind->0.text() + " "@ + target(s) + ending(s)))
    } else {
        ("idle"@, "cycle produced no actionable outcome"@)
    }
}

fn target_of(s: &CycleSummary) -> (r: String)
    ensures
        r@ == target(s@),
{
    match s.finding_id {
        Some(f) => "#".to_owned().concat(text::int_to_text(f).as_str()),
        None => match &s.repo {
            Some(r) => "(".to_owned().concat(r).concat(")"),
            None => "(?)".to_owned(),
        },
    }
}

fn ending_of(s: &CycleSummary) -> (r: String)
    ensures
        r@ == ending(s@),
{
    match &s.outcome {
        Some(o) => " -> ".to_owned().concat(o),
        None => match s.state {
            Some(JobState::Done) => "".to_owned(),
            Some(x) => " ".to_owned().concat(x.as_str()),
            None => " ".to_owned().concat(""),
        },
    }
}

/// The scheduler's state after a cycle, and the detail of it.
pub fn describe_cycle(summary: &CycleSummary) -> (r: (String, String))
    ensures
        (r.0@, r.1@) == described(summary@),
{
    if let Some(e) = &summary.error {
        return ("error".to_owned(), text::take_chars(e, 200));
    }
    if let Some(v) = &summary.idle {
        return ("idle".to_owned(), v.clone());
    }
    if let Some(v) = &summary.skipped {
        return ("idle".to_owned(), v.clone());
    }
    if let Some(d) = &summary.denied {
        return ("denied".to_owned(), "last: ".to_owned().concat(d));
    }
    if did_run(summary) {
        if let Some(k) = summary.kind {
            let bits = k.as_str().to_owned().concat(" ").concat(target_of(summary).as_str()).concat(
                ending_of(summary).as_str(),
            );
            return ("idle".to_owned(), "last: ".to_owned().concat(&bits));
        }
    }
    ("idle".to_owned(), "cycle produced no actionable outcome".to_owned())
}

/// The detail of a loop that failed.
pub fn crash_note(error: &str) -> (r: String)
    ensures
        r@ == text::first_chars("daemon loop crashed: "@ + error@, 200),
{
    text::take_chars(&"daemon loop crashed: ".to_owned().concat(error), 200)
}

// ---------------------------------------------------------------------
// How long to rest
// ---------------------------------------------------------------------

/// After an error, and between looks at the pull requests.
pub const FIVE_MINUTES_MS: i64 = 300_000;

pub const QUARTER_HOUR_MS: i64 = 900_000;

pub const HALF_HOUR_MS: i64 = 1_800_000;

pub open spec fn between(n: int, low: int, high: int) -> int {
    if n < low {
        low
    } else if n > high {
        high
    } else {
        n
    }
}

pub open spec fn inserted(s: CycleSummaryView) -> int {
    match s.ingest {
        Some(i) => i.inserted as int,
        None => 0,
    }
}

/// How long to rest, apart from the looks at the pull requests. `queued`
/// fixes wait, and `enabled` repositories take part in the rotation.
pub open spec fn rest(s: CycleSummaryView, queued: i64, enabled: i64, now_ms: i64) -> int {
    if s.error is Some {
        FIVE_MINUTES_MS as int
    } else if ran(s) {
        if queued > 0 {
            0
        } else if inserted(s) > 0 {
            5_000
        } else if enabled > 0 {
            60_000
        } else {
            QUARTER_HOUR_MS as int
        }
    } else if s.denied is Some {
        match s.retry_at {
            Some(at) => if at > 0 {
                between(at - now_ms + 30_000, 60_000, 3_600_000)
            } else {
                HALF_HOUR_MS as int
            },
            None => HALF_HOUR_MS as int,
        }
    } else {
        QUARTER_HOUR_MS as int
    }
}

/// How long to rest after a cycle, in milliseconds: where pull requests are
/// open, no longer than until the next look at them. A denial is waited out.
pub open spec fn sleep_ms(s: CycleSummaryView, queued: i64, enabled: i64, now_ms: i64) -> int {
    let r = rest(s, queued, enabled, now_ms);
    if s.sync is Some && s.denied is None && r > FIVE_MINUTES_MS { FIVE_MINUTES_MS as int } else { r }
}

/// How long to rest after a cycle, in milliseconds.
pub fn compute_sleep_ms(s: &CycleSummary, queued: i64, enabled: i64, now_ms: i64) -> (r: i64)
    ensures
        r == sleep_ms(s@, queued, enabled, now_ms),
        0 <= r <= 3_600_000,
{
    let base: i64 = if s.error.is_some() {
        FIVE_MINUTES_MS
    } else if did_run(s) {
        let new: i64 = match s.ingest {
            Some(i) => i.inserted,
            None => 0,
        };
        if queued > 0 {
            0
        } else if new > 0 {
            5_000
        } else if enabled > 0 {
            60_000
        } else {
            QUARTER_HOUR_MS
        }
    } else if s.denied.is_some() {
        match s.retry_at {
            Some(at) => if at > 0 {
                let until: i128 = at as i128 - now_ms as i128 + 30_000;
                if until < 60_000 {
                    60_000
                } else if until > 3_600_000 {
                    3_600_000
                } else {
                    until as i64
                }
            } else {
                HALF_HOUR_MS
            },
            None => HALF_HOUR_MS,
        }
    } else {
        QUARTER_HOUR_MS
    };
    if s.sync.is_some() && s.denied.is_none() && base > FIVE_MINUTES_MS {
        FIVE_MINUTES_MS
    } else {
        base
    }
}

// ---------------------------------------------------------------------
// Laws
// ---------------------------------------------------------------------

/// While fixes are queued, the loop goes on at once after a job.
pub proof fn law_queued_work_is_not_kept_waiting(s: CycleSummaryView, queued: i64, enabled: i64, now_ms: i64)
    requires
        s.error is None,
        ran(s),
        queued > 0,
    ensures
        sleep_ms(s, queued, enabled, now_ms) == 0,
{
}

/// A denial is waited out: the looks at the pull requests do not cut it
/// short.
pub proof fn law_denial_is_waited_out(s: CycleSummaryView, queued: i64, enabled: i64, now_ms: i64)
    requires
        s.denied is Some,
    ensures
        sleep_ms(s, queued, enabled, now_ms) == rest(s, queued, enabled, now_ms),
{
}

/// With open pull requests and no denial, the loop looks again within five
/// minutes.
pub proof fn law_open_pull_requests_are_looked_at(s: CycleSummaryView, queued: i64, enabled: i64, now_ms: i64)
    requires
        s.sync is Some,
        s.denied is None,
    ensures
        sleep_ms(s, queued, enabled, now_ms) <= FIVE_MINUTES_MS,
{
}

/// What writes come to where each either leaves a finding's status alone or
/// queues it.
proof fn lemma_only_queued(v: Seq<EffectView>, id: i64, was: FindingStatus)
    requires
        forall|i: int|
            0 <= i < v.len() ==> (#[trigger] v[i] is OrphanJob || v[i] is Log || (v[i] matches EffectView::SetStatus {
                status,
                ..
            } && status == FindingStatus::Queued)),
    ensures
        (exists|i: int|
            0 <= i < v.len() && #[trigger] v[i] == (EffectView::SetStatus {
                finding: id,
                status: FindingStatus::Queued,
            })) ==> effects::status_after(v, id, was) == FindingStatus::Queued,
        (forall|i: int|
            0 <= i < v.len() ==> #[trigger] v[i] != (EffectView::SetStatus {
                finding: id,
                status: FindingStatus::Queued,
            })) ==> effects::status_after(v, id, was) == was,
    decreases v.len(),
{
    if v.len() > 0 {
        let rest = v.drop_last();
        assert(v[v.len() - 1] == v.last());
        assert(forall|i: int| 0 <= i < rest.len() ==> rest[i] == v[i]);
        lemma_only_queued(rest, id, was);
        let put = EffectView::SetStatus { finding: id, status: FindingStatus::Queued };
        if v.last() != put && exists|i: int| 0 <= i < v.len() && #[trigger] v[i] == put {
            let i = choose|i: int| 0 <= i < v.len() && #[trigger] v[i] == put;
            assert(rest[i] == put);
        }
    }
}

/// After a crash a finding that was being fixed is queued again, and every
/// other stays as it is. Each job that was running is recorded as orphaned,
/// and no other is.
pub proof fn law_interrupted_fixes_are_queued_again(
    stuck: Seq<Finding>,
    orphans: Seq<Job>,
    id: i64,
    was: FindingStatus,
)
    ensures
        effects::status_after(reconciled(stuck, orphans), id, was) == (if exists|i: int|
            0 <= i < stuck.len() && (#[trigger] stuck[i]).id == id {
            FindingStatus::Queued
        } else {
            was
        }),
        forall|k: int|
            0 <= k < reconciled(stuck, orphans).len() ==> (#[trigger] reconciled(stuck, orphans)[k] matches
                EffectView::OrphanJob { job, .. } ==> exists|i: int|
                0 <= i < orphans.len() && (#[trigger] orphans[i]).id == job),
{
    let v = reconciled(stuck, orphans);
    let n = stuck.len() as int;
    let m = orphans.len() as int;
    let put = EffectView::SetStatus { finding: id, status: FindingStatus::Queued };
    assert forall|k: int| 0 <= k < v.len() implies (#[trigger] v[k] is OrphanJob || v[k] is Log || (v[k] matches
        EffectView::SetStatus { status, .. } && status == FindingStatus::Queued)) && (v[k] == put ==> k < n
        && stuck[k].id == id) && (v[k] matches EffectView::OrphanJob { job, .. } ==> n <= k < n + m && orphans[k
        - n].id == job) by {
        if k < n {
            assert(v[k] == requeue(stuck[k]));
        } else if k < n + m {
            assert(v[k] == orphan(orphans[k - n]));
        } else if k < n + m + n {
            assert(v[k] == stuck_log(stuck[k - n - m]));
        } else {
            assert(v[k] == orphan_log(orphans[k - n - m - n]));
        }
    }
    lemma_only_queued(v, id, was);
    if exists|i: int| 0 <= i < stuck.len() && (#[trigger] stuck[i]).id == id {
        let i = choose|i: int| 0 <= i < stuck.len() && (#[trigger] stuck[i]).id == id;
        assert(v[i] == requeue(stuck[i]));
        assert(v[i] == put);
    }
}

/// How long the loop rests, in milliseconds. After an error five minutes.
/// After a job nothing while fixes are queued, five seconds where it filed
/// findings, a minute while repositories take part, else a quarter of an hour.
/// A denial is waited out until half a minute after its end, a minute at least
/// and an hour at most; half an hour where its end is not known. Otherwise a
/// quarter of an hour. With open pull requests and no denial it is never more
/// than five minutes.
pub proof fn law_rest_follows_the_outcome(s: CycleSummaryView, queued: i64, enabled: i64, now_ms: i64)
    ensures
        ({
            let r = sleep_ms(s, queued, enabled, now_ms);
            let ran_one = s.state == Some(JobState::Done) || s.state == Some(JobState::Killed) || s.state
                == Some(JobState::Failed);
            let filed = s.ingest matches Some(i) && i.inserted > 0;
            let looks = s.sync is Some && s.denied is None;
            &&& s.error is Some ==> r == 300_000
            &&& s.error is None && ran_one && queued > 0 ==> r == 0
            &&& s.error is None && ran_one && queued <= 0 && filed ==> r == 5_000
            &&& s.error is None && ran_one && queued <= 0 && !filed && enabled > 0 ==> r == 60_000
            &&& s.error is None && ran_one && queued <= 0 && !filed && enabled <= 0 ==> r == (if looks {
                300_000int
            } else {
                900_000
            })
            &&& s.error is None && !ran_one && s.denied is Some ==> (match s.retry_at {
                Some(at) => if at <= 0 {
                    r == 1_800_000
                } else if at + 30_000 <= now_ms + 60_000 {
                    r == 60_000
                } else if at + 30_000 >= now_ms + 3_600_000 {
                    r == 3_600_000
                } else {
                    r == at + 30_000 - now_ms
                },
                None => r == 1_800_000,
            })
            &&& s.error is None && !ran_one && s.denied is None ==> r == (if looks { 300_000int } else { 900_000 })
        }),
{
}

/// What is said of a cycle: an error before anything else, then that it was
/// idle or skipped, then a denial, then the job that ran, by its kind and what
/// it was about.
pub proof fn law_cycle_is_described_by_its_worst(s: CycleSummaryView)
    ensures
        s.error matches Some(e) ==> described(s).0 == "error"@ && described(s).1 == (if e.len() <= 200 {
            e
        } else {
            e.take(200)
        }),
        s.error is None ==> (s.idle matches Some(x) ==> described(s) == ("idle"@, x)),
        s.error is None && s.idle is None ==> (s.skipped matches Some(x) ==> described(s) == ("idle"@, x)),
        s.error is None && s.idle is None && s.skipped is None ==> (s.denied matches Some(x) ==> described(s) == (
            "denied"@,
            "last: "@ + x,
        )),
        s.error is None && s.idle is None && s.skipped is None && s.denied is None && s.state == Some(
            JobState::Done,
        ) && s.outcome is None ==> (s.kind matches Some(k) ==> (s.finding_id matches Some(f) ==> described(s).1
            =~= "last: "@ + k.text() + " #"@ + text::int_text(f as int))),
{
    reveal_strlit("");
    if let Some(e) = s.error {
        assert(text::first_chars(e, 200) =~= (if e.len() <= 200 { e } else { e.take(200) }));
    }
    if let (Some(k), Some(f)) = (s.kind, s.finding_id) {
        reveal_strlit(" #");
        reveal_strlit(" ");
        reveal_strlit("#");
        assert(" #"@ =~= " "@ + "#"@);
        assert("last: "@ + (k.text() + " "@ + ("#"@ + text::int_text(f as int)) + ""@) =~= "last: "@ + k.text()
            + " #"@ + text::int_text(f as int));
    }
}

} // verus!
