use hunter::domain::{
    FindingJobKind, FindingStatus, FindingType, ForgeName, JobKind, JobState, RepoJobKind, Severity,
};
use hunter::forge::{GhAuthor, GhCheckRun, GhComment, Mergeable, PrView, ReviewDecision};
use hunter::ingest::IngestResult;
use hunter::scheduler::clone::{clone_start, clone_step, CloneAction, ClonePhase, CloneRun};
use hunter::scheduler::cycle::{
    conclude_cycle, crashed_cycle, cycle_line, dispatch, gone_note, idle_cycle, Dispatch,
};
use hunter::scheduler::effects::{CycleSummary, Effect};
use hunter::scheduler::hunt::{
    conclude_free_scan, conclude_hunt, conclude_scan, finding_type_of, first_hunt_by_age,
    first_hunt_by_count, free_scan_name, hunt_scope, is_rehunt_due, needs_worker, not_cloned, out_name, unresolved,
    HuntRun, HuntScope, ScanRun,
};
use hunter::scheduler::resume::{
    anticipated_tokens, cold_reservation, min_useful, plan_fits, resume_plan, resume_prompt, resume_reservation,
    ChainStats, ResumeDecision, ResumeFacts, MAX_RESUME_ATTEMPTS, MIN_PROGRESS_TOKENS,
};
use hunter::scheduler::select::{
    attention_key, candidate_reservation, continue_with, finding_candidate, forced_repo, harvest_key,
    is_once, next_for_finding, next_resumable, oldest_first, override_of, pick_next, repo_candidate,
    resume_in_background, rotation, work_for, Intervals, Next, Queue, Tiers,
};
use hunter::scheduler::sync::{
    attention_fingerprint, checks_summary, latest_activity_ms, sync_answer, sync_plan, sync_totals,
    SyncPass, SyncPlan, SyncTally,
};
use hunter::types::{Finding, Job, PrState, Repo};

fn finding(id: i64, status: FindingStatus) -> Finding {
    Finding {
        id,
        kind: FindingType::Bug,
        repo_id: 1,
        fingerprint: format!("fp-{id}"),
        file: None,
        symbol: None,
        line: None,
        severity: Severity::Medium,
        summary: "Off by one!".to_owned(),
        detail: None,
        status,
        pr_url: Some("https://github.com/o/demo/pull/12".to_owned()),
        created_at: 0,
        updated_at: 0,
        bug_class: None,
        evidence_plan: None,
        introduced_by: None,
        rung_achieved: None,
        verdict_reason: None,
        budget_override: None,
        fix_attempts: 0,
        last_fix_failure: None,
        recheck_attempts: 0,
        last_recheck_failure: None,
        ecosystem: None,
        package: None,
        current_version: None,
        latest_version: None,
        update_type: None,
        security_advisory: None,
        missing_tests: None,
        test_file: None,
        smell_type: None,
        suggested_refactor: None,
        modernization_class: None,
        current_approach: None,
        proposed_approach: None,
    }
}

fn repo() -> Repo {
    Repo {
        id: 1,
        name: "demo".to_owned(),
        url: "https://github.com/o/demo".to_owned(),
        path: "/repos/1".to_owned(),
        forge: ForgeName::Github,
        default_branch: "main".to_owned(),
        last_hunt_sha: None,
        last_hunt_at: None,
        enabled: 1,
        added_at: 0,
        last_full_hunt_at: None,
        last_test_gap_at: None,
        last_dep_update_at: None,
        last_refactor_at: None,
        last_modernization_at: None,
        last_standards_at: None,
    }
}

fn pr_state() -> PrState {
    PrState {
        finding_id: 7,
        pr_number: Some(12),
        state: Some("OPEN".to_owned()),
        mergeable: None,
        checks: None,
        head_ref: Some("fix/off-by-one-7".to_owned()),
        last_activity_at: None,
        last_engaged_activity_at: None,
        needs_attention: None,
        attention_since: None,
        attention_fingerprint: None,
        addressed_fingerprint: None,
        head_sha: None,
        addressed_head_sha: None,
        synced_at: None,
        harvested_at: None,
        harvest_attempts: 0,
        last_harvest_failure: None,
    }
}

const DAY: i64 = 86_400_000;

fn view() -> PrView {
    PrView {
        state: hunter::forge::PrState::Open,
        mergeable: Mergeable::Mergeable,
        review_decision: ReviewDecision::Undecided,
        head_ref: "fix/off-by-one-7".to_owned(),
        head_sha: "abc".to_owned(),
        updated_at: "1970-01-01T00:00:10Z".to_owned(),
        title: "t".to_owned(),
        body: "b".to_owned(),
        status_check_rollup: vec![],
        comments: vec![],
        reviews: vec![],
    }
}

fn check(name: &str, end: &str) -> GhCheckRun {
    GhCheckRun {
        name: Some(name.to_owned()),
        context: None,
        conclusion: Some(end.to_owned()),
        state: None,
    }
}

fn job(id: i64, finding_id: Option<i64>, session: Option<&str>) -> Job {
    Job {
        id,
        kind: match finding_id {
            Some(_) => JobKind::Finding(FindingJobKind::Fix),
            None => JobKind::Repo(RepoJobKind::Hunt),
        },
        repo_id: 1,
        finding_id,
        state: JobState::Suspended,
        pid: None,
        session_file: session.map(str::to_owned),
        cap_tokens: None,
        tokens_new: None,
        calls: None,
        exit_code: None,
        killed_reason: None,
        notes: None,
        model: None,
        started_at: None,
        finished_at: None,
        repo_name: "demo".to_owned(),
    }
}

fn facts() -> ResumeFacts {
    ResumeFacts {
        origin_job_id: 5,
        pinned_sha: Some("abc".to_owned()),
        tree_there: true,
        typical: 100_000,
        chain: ChainStats { total: 60_000, max_single: 60_000, attempts: 1 },
        ctx: Some(40_000),
    }
}

fn intervals() -> Intervals {
    Intervals { scan_ms: DAY, modernization_days: 30, standards_days: 30 }
}

fn logs(effects: &[Effect]) -> Vec<String> {
    effects
        .iter()
        .filter_map(|e| match e {
            Effect::Log { message, .. } => Some(message.clone()),
            _ => None,
        })
        .collect()
}

// -- hunts -------------------------------------------------------------

#[test]
fn a_hunt_without_new_commits_is_skipped() {
    let mut r = repo();
    r.last_hunt_sha = Some("0123456789abcdef".to_owned());
    let (effects, scope, due) = hunt_scope(&r, "0123456789abcdef", false, 0, 90);
    assert!(!due);
    assert_eq!(logs(&effects), ["demo: no new commits since 0123456789ab -- skipped"]);
    assert!(matches!(scope, HuntScope::Skip { .. }));
}

#[test]
fn a_resumed_hunt_keeps_its_range() {
    let mut r = repo();
    r.last_hunt_sha = Some("aaa".to_owned());
    r.last_full_hunt_at = Some(0);
    let (effects, scope, due) = hunt_scope(&r, "aaa", true, 1000 * DAY, 90);
    assert!(!due);
    assert!(effects.is_empty());
    match scope {
        HuntScope::Range { diff_range, .. } => assert_eq!(diff_range, "aaa..aaa"),
        _ => panic!("no range"),
    }
}

#[test]
fn an_old_hunt_is_made_anew() {
    let mut r = repo();
    r.last_hunt_sha = Some("aaa".to_owned());
    r.last_full_hunt_at = Some(0);
    let (effects, scope, due) = hunt_scope(&r, "bbb", false, 91 * DAY, 90);
    assert!(due);
    assert!(matches!(effects[0], Effect::ClearLastHunt { repo: 1 }));
    match scope {
        HuntScope::Range { diff_range, .. } => {
            assert_eq!(diff_range, "4b825dc642cb6eb9a060e54bf8d69288fbee4904..bbb")
        }
        _ => panic!("no range"),
    }
}

#[test]
fn a_first_hunt_looks_back() {
    assert!(matches!(hunt_scope(&repo(), "bbb", false, 0, 90).1, HuntScope::First));
    let (range, _) = first_hunt_by_age("bbb", "aaa\n").unwrap();
    assert!(range.ends_with("..bbb"));
    assert!(first_hunt_by_age("bbb", "").is_none());
    let (range, _) = first_hunt_by_count("bbb", 0, "ccc\n");
    assert_eq!(range, "ccc..bbb");
}

fn hunt_run(state: JobState) -> HuntRun {
    HuntRun {
        repo: 1,
        name: "demo".to_owned(),
        job: 3,
        state,
        diff_range: "aaa..bbb".to_owned(),
        tokens_new: 10,
        head: "bbb".to_owned(),
        pinned: "bbb".to_owned(),
        full_rehunt: false,
        had_full: true,
    }
}

#[test]
fn only_a_clean_hunt_moves_the_mark() {
    let clean = IngestResult { inserted: 2, duplicates: 1, invalid: 0 };
    let (effects, _) = conclude_hunt(&hunt_run(JobState::Done), Some(clean));
    assert_eq!(
        logs(&effects),
        ["demo: job 3 done over aaa..bbb... +2 new / 1 dup / 0 invalid (10 tok)"]
    );
    assert!(effects.iter().any(|e| matches!(e, Effect::SetLastHunt { sha, .. } if sha == "bbb")));
    let spoilt = IngestResult { inserted: 2, duplicates: 1, invalid: 1 };
    let (effects, _) = conclude_hunt(&hunt_run(JobState::Done), Some(spoilt));
    assert!(!effects.iter().any(|e| matches!(e, Effect::SetLastHunt { .. })));
    let (effects, _) = conclude_hunt(&hunt_run(JobState::Suspended), Some(clean));
    assert!(!effects.iter().any(|e| matches!(e, Effect::SetLastHunt { .. })));
    let (effects, _) = conclude_hunt(&hunt_run(JobState::Failed), None);
    assert_eq!(logs(&effects), ["demo: job 3 failed, no findings file (10 tok)"]);
}

#[test]
fn a_scan_records_its_turn() {
    let run = ScanRun {
        kind: RepoJobKind::TestGap,
        repo: 1,
        name: "demo".to_owned(),
        job: 3,
        state: JobState::Done,
        tokens_new: 10,
    };
    let clean = IngestResult { inserted: 0, duplicates: 0, invalid: 0 };
    let (effects, _) = conclude_scan(&run, Some(clean));
    assert!(effects.iter().any(|e| matches!(
        e,
        Effect::SetLastKind { repo: 1, kind: RepoJobKind::TestGap }
    )));
    assert!(needs_worker(true, Some(5)) && needs_worker(false, None) && needs_worker(false, Some(0)));
    assert!(!needs_worker(false, Some(5)));
    let (effects, summary) = conclude_free_scan(1, "demo", clean);
    assert_eq!(logs(&effects), ["demo: renovate scan +0 new / 0 dup / 0 invalid (0 tok)"]);
    assert_eq!(summary.kind, Some(JobKind::Repo(RepoJobKind::DepUpdate)));
    assert_eq!(finding_type_of(RepoJobKind::TestGap), FindingType::TestGap);
}

#[test]
fn a_scan_without_a_tree_is_refused() {
    let gone = not_cloned(RepoJobKind::Refactor, "demo");
    assert_eq!(gone.error, "repo not cloned");
    assert_eq!(logs(&gone.effects).len(), 1);
    let lost = unresolved("demo", "main");
    assert_eq!(lost.error, "origin/main does not resolve");
    assert_eq!(logs(&lost.effects), ["hunt demo: origin/main does not resolve"]);
    assert_eq!(free_scan_name(4), "dep_scan_4.json");
}

#[test]
fn a_candidate_reserves_what_it_planned() {
    let mut f = finding(5, FindingStatus::Queued);
    assert!(!is_once(&f));
    f.budget_override = Some("once".to_owned());
    assert!(is_once(&f));
    f.budget_override = Some("always".to_owned());
    assert!(!is_once(&f));
    let c = finding_candidate(FindingJobKind::Fix, &f);
    assert_eq!(candidate_reservation(&c, 1_000_000), cold_reservation(1_000_000));
}

#[test]
fn a_resumed_worker_writes_where_it_was_told_first() {
    assert_eq!(out_name(9, Some(5), "findings"), out_name(5, None, "findings"));
    assert_ne!(out_name(9, None, "findings"), out_name(5, None, "findings"));
}

// -- pull requests -----------------------------------------------------

#[test]
fn checks_are_summed_up() {
    let v = vec![check("b", "FAILURE"), check("a", "FAILURE"), check("c", "SUCCESS"), check("d", "")];
    let (text, failing, names) = checks_summary(&v);
    assert_eq!(text.as_deref(), Some("1 pass / 2 fail / 1 pending"));
    assert!(failing);
    assert_eq!(names, ["a", "b"]);
    assert_eq!(checks_summary(&vec![]).0, None);
    let mut pr = view();
    pr.review_decision = ReviewDecision::ChangesRequested;
    assert_eq!(
        attention_fingerprint(&pr, &names).as_deref(),
        Some("review:CHANGES_REQUESTED|checks:a,b")
    );
    assert_eq!(attention_fingerprint(&view(), &vec![]), None);
}

fn synced(effects: &[Effect]) -> hunter::store::SyncPrData {
    match &effects[0] {
        Effect::SyncPrOpen { data, .. } => data.clone(),
        _ => panic!("not synced"),
    }
}

#[test]
fn a_first_look_flags_no_remarks() {
    let mut pr = view();
    pr.comments = vec![GhComment {
        author: Some(GhAuthor { login: "u".to_owned() }),
        body: "hi".to_owned(),
        created_at: "1970-01-01T00:00:20Z".to_owned(),
    }];
    assert_eq!(latest_activity_ms(&pr), 20_000);
    let (effects, tally) = sync_answer(7, "u", 12, Ok(pr.clone()), &None, 99);
    assert_eq!(tally, SyncTally::Synced { attention: false });
    assert_eq!(synced(&effects).last_engaged_activity_at, 20_000);
    let mut prev = pr_state();
    prev.last_engaged_activity_at = Some(10_000);
    let (effects, tally) = sync_answer(7, "u", 12, Ok(pr), &Some(prev), 99);
    assert_eq!(tally, SyncTally::Synced { attention: true });
    let data = synced(&effects);
    assert_eq!(data.needs_attention.as_deref(), Some("new_comments"));
    assert_eq!(data.attention_since, Some(Some(99)));
}

#[test]
fn a_declined_reason_stays_quiet_until_a_push() {
    let mut pr = view();
    pr.status_check_rollup = vec![check("ci", "FAILURE")];
    let mut prev = pr_state();
    prev.last_engaged_activity_at = Some(0);
    prev.addressed_fingerprint = Some("checks:ci".to_owned());
    prev.addressed_head_sha = Some("abc".to_owned());
    let (effects, _) = sync_answer(7, "u", 12, Ok(pr.clone()), &Some(prev.clone()), 99);
    assert_eq!(synced(&effects).needs_attention, None);
    pr.head_sha = "def".to_owned();
    let (effects, _) = sync_answer(7, "u", 12, Ok(pr), &Some(prev), 99);
    let data = synced(&effects);
    assert_eq!(data.needs_attention.as_deref(), Some("checks_failing"));
    assert!(data.clear_addressed);
}

#[test]
fn an_old_reason_keeps_its_age() {
    let mut pr = view();
    pr.mergeable = Mergeable::Conflicting;
    let mut prev = pr_state();
    prev.last_engaged_activity_at = Some(0);
    prev.needs_attention = Some("conflict".to_owned());
    let (effects, _) = sync_answer(7, "u", 12, Ok(pr), &Some(prev), 99);
    assert_eq!(synced(&effects).attention_since, None);
    assert_eq!(effects.len(), 1);
}

#[test]
fn answers_settle_a_finding() {
    let mut pr = view();
    pr.state = hunter::forge::PrState::Merged;
    assert_eq!(sync_answer(7, "u", 12, Ok(pr.clone()), &None, 99).1, SyncTally::Merged);
    pr.state = hunter::forge::PrState::Closed;
    assert_eq!(sync_answer(7, "u", 12, Ok(pr), &None, 99).1, SyncTally::Closed);
    let (effects, tally) = sync_answer(7, "u", 12, Err("timeout".to_owned()), &None, 99);
    assert_eq!(logs(&effects), ["sync #7: PR view failed: timeout"]);
    assert_eq!(tally, SyncTally::Error);
    let t = sync_totals(&vec![
        SyncTally::Merged,
        SyncTally::Synced { attention: true },
        SyncTally::Error,
        SyncTally::Requeued,
    ]);
    assert_eq!((t.merged, t.attention, t.errors, t.closed), (1, 1, 1, 0));
}

#[test]
fn a_finding_is_planned() {
    let f = finding(7, FindingStatus::PrOpen);
    assert!(matches!(sync_plan(&f, &Some(repo())), SyncPlan::View { number: 12 }));
    let mut none = f.clone();
    none.pr_url = None;
    assert!(matches!(
        sync_plan(&none, &Some(repo())),
        SyncPlan::Settled { tally: SyncTally::Requeued, .. }
    ));
    assert!(matches!(sync_plan(&f, &None), SyncPlan::Settled { tally: SyncTally::Error, .. }));
    let mut odd = f;
    odd.pr_url = Some("x\"y".to_owned());
    match sync_plan(&odd, &Some(repo())) {
        SyncPlan::Settled { effects, .. } => {
            assert_eq!(logs(&effects), ["sync #7: unparseable pr_url \"x\\\"y\""])
        }
        SyncPlan::View { .. } => panic!("viewed"),
    }
}

// -- clones ------------------------------------------------------------

fn clone_run() -> CloneRun {
    CloneRun {
        url: "https://github.com/o/demo".to_owned(),
        path: "/repos/1".to_owned(),
        prefix: "hunt demo".to_owned(),
        finding_id: None,
    }
}

#[test]
fn a_clone_is_made_and_fetched() {
    let run = clone_run();
    let (phase, action) = clone_start(&run, false);
    match action {
        CloneAction::Git { argv, timeout_s } => {
            assert_eq!(argv, ["git", "clone", "--", "https://github.com/o/demo", "/repos/1"]);
            assert_eq!(timeout_s, 600);
        }
        _ => panic!("no command"),
    }
    let (_, phase, action) = clone_step(&run, phase, 0, "");
    match action {
        CloneAction::Git { argv, .. } => assert_eq!(argv, ["git", "-C", "/repos/1", "fetch", "origin"]),
        CloneAction::Ready => assert_eq!(phase, ClonePhase::Ended),
        CloneAction::Failed { error } => panic!("{error}"),
    }
}

#[test]
fn a_foreign_clone_is_refused() {
    let run = clone_run();
    let (phase, _) = clone_start(&run, true);
    let (effects, _, action) = clone_step(&run, phase, 0, "https://github.com/other/demo\n");
    assert_eq!(effects.len(), 1);
    match action {
        CloneAction::Failed { error } => assert!(error.contains("different repository")),
        _ => panic!("accepted"),
    }
    let (phase, _) = clone_start(&run, true);
    let (_, _, action) = clone_step(&run, phase, 0, "https://github.com/o/demo\n");
    assert!(matches!(action, CloneAction::Git { .. }));
}

// -- the pick ----------------------------------------------------------

#[test]
fn an_override_jumps_the_queue() {
    let mut late = finding(9, FindingStatus::Queued);
    late.budget_override = Some("once".to_owned());
    assert_eq!(override_of(&late).as_deref(), Some("once"));
    let t = Tiers {
        attention: vec![finding(1, FindingStatus::PrOpen)],
        pending_harvest: vec![],
        rechecking: vec![],
        queued: vec![finding(8, FindingStatus::Queued), late],
    };
    assert_eq!(t.pick(None), Some((FindingJobKind::Fix, 1)));
}

#[test]
fn attention_comes_first_and_a_pick_keeps_to_its_repo() {
    let mut other = finding(2, FindingStatus::Queued);
    other.repo_id = 2;
    let t = Tiers {
        attention: vec![finding(1, FindingStatus::PrOpen)],
        pending_harvest: vec![],
        rechecking: vec![],
        queued: vec![other],
    };
    assert_eq!(t.pick(None), Some((FindingJobKind::Engage, 0)));
    assert_eq!(t.pick(Some(2)), Some((FindingJobKind::Fix, 0)));
    assert_eq!(t.pick(Some(3)), None);
}

#[test]
fn disabled_repos_rest() {
    let mut r = repo();
    r.enabled = 0;
    assert_eq!(rotation(&vec![r], &vec![true], None, &intervals(), DAY), None);
    assert_eq!(
        rotation(&vec![repo()], &vec![false], None, &intervals(), DAY),
        Some((RepoJobKind::Hunt, 0))
    );
}

#[test]
fn scans_take_turns_and_rest() {
    let now = 1000 * DAY;
    assert_eq!(work_for(&repo(), true, &intervals(), now), Some(RepoJobKind::Hunt));
    let mut r = repo();
    r.last_hunt_at = Some(now - 5 * DAY);
    assert_eq!(work_for(&r, true, &intervals(), now), Some(RepoJobKind::TestGap));
    r.last_test_gap_at = Some(now - 1);
    r.last_dep_update_at = Some(now - 1);
    r.last_refactor_at = Some(now - 1);
    r.last_modernization_at = Some(now - 1);
    r.last_standards_at = Some(now - 1);
    assert_eq!(work_for(&r, true, &intervals(), now), Some(RepoJobKind::Hunt));
    r.last_hunt_at = Some(now - 1);
    assert_eq!(work_for(&r, true, &intervals(), now), None);
}

#[test]
fn the_oldest_comes_first() {
    let order = oldest_first(&vec![Some(Some(5)), None, Some(Some(2))]);
    assert_eq!(order, vec![2, 0]);
    let mut ps = pr_state();
    ps.attention_since = Some(4);
    assert_eq!(attention_key(&Some(ps.clone())), None);
    ps.needs_attention = Some("conflict".to_owned());
    assert_eq!(attention_key(&Some(ps.clone())), Some(Some(4)));
    assert_eq!(attention_key(&None), None);
    assert_eq!(harvest_key(&None), None);
}

#[test]
fn suspended_jobs_are_found() {
    let jobs = vec![job(1, None, Some("/s")), job(2, Some(7), Some("/s")), job(3, Some(7), Some("/s"))];
    assert_eq!(next_for_finding(&jobs, 0, FindingJobKind::Fix, 7), Some(1));
    assert_eq!(next_for_finding(&jobs, 2, FindingJobKind::Fix, 7), Some(2));
    assert_eq!(next_for_finding(&jobs, 0, FindingJobKind::Engage, 7), None);
    assert_eq!(next_resumable(&jobs, 0, None), Some(0));
    assert_eq!(next_resumable(&jobs, 3, None), None);
}

#[test]
fn a_waiting_finding_outranks_suspended_work() {
    let tiers = Tiers {
        attention: vec![],
        pending_harvest: vec![],
        rechecking: vec![],
        queued: vec![finding(7, FindingStatus::Queued)],
    };
    let jobs = vec![job(1, None, Some("/s")), job(2, Some(7), Some("/w/jobs/5/session/a.jsonl"))];
    let mut q = Queue { tiers, jobs, force: None };
    assert!(matches!(pick_next(&q, 0), Next::Try { job: 1 }));
    let plan = match resume_plan(&q.jobs[1], &repo(), "/w", &facts()) {
        ResumeDecision::Continue { plan } => plan,
        _ => panic!("not continued"),
    };
    assert_eq!(continue_with(&q, plan).label().as_deref(), Some("Off by one!"));
    match pick_next(&q, 2) {
        Next::Start { candidate } => assert_eq!(candidate.target_id(), 7),
        _ => panic!("not started"),
    }
    q.tiers.queued = vec![];
    assert!(matches!(pick_next(&q, 0), Next::Try { job: 0 }));
    assert!(matches!(pick_next(&q, 2), Next::Rotate));
    q.force = Some(9);
    assert!(matches!(pick_next(&q, 0), Next::Rotate));
}

#[test]
fn a_forced_repo_is_known() {
    assert_eq!(forced_repo(None, None), Ok(None));
    assert_eq!(forced_repo(Some("demo"), Some(4)), Ok(Some(4)));
    assert_eq!(forced_repo(Some("demo"), None), Err("unknown repo \"demo\"".to_owned()));
}

// -- resumes -----------------------------------------------------------

#[test]
fn reservations_follow_their_formulas() {
    assert_eq!(min_useful(10), MIN_PROGRESS_TOKENS);
    assert_eq!(min_useful(40_000), 40_000);
    assert_eq!(resume_reservation(40_000, 100_000, 30_000), 110_000);
    assert_eq!(resume_reservation(40_000, 100_000, 90_000), 80_000);
    assert_eq!(cold_reservation(0), 40_000);
    assert_eq!(cold_reservation(90_000), 90_000);
    let history: Vec<i64> = (1..=10).collect();
    assert_eq!(anticipated_tokens(&history, true), 6);
    assert_eq!(anticipated_tokens(&history, false), 10);
    assert_eq!(anticipated_tokens(&vec![], true), 0);
    assert!(!resume_prompt().is_empty());
}

#[test]
fn a_first_suspension_is_continued() {
    let j = job(5, Some(7), Some("/w/jobs/5/session/a.jsonl"));
    assert!(plan_fits(&j, &repo(), "/w", &facts()));
    let mut endless = facts();
    endless.ctx = Some(i64::MAX);
    assert!(!plan_fits(&j, &repo(), "/w", &endless));
    endless.tree_there = false;
    assert!(plan_fits(&j, &repo(), "/w", &endless));
    match resume_plan(&j, &repo(), "/w", &facts()) {
        ResumeDecision::Continue { plan } => {
            assert_eq!((plan.predecessor_id, plan.origin_job_id), (5, 5));
            assert_eq!(plan.pinned_sha, "abc");
            assert_eq!(plan.ctx, 40_000);
            assert_eq!(plan.anticipated, 40_000 + 40_000);
            let c = resume_in_background(plan);
            let (effects, to) = dispatch(&c);
            assert_eq!(
                logs(&effects),
                ["resume fix demo: job 5 -> reserving 80000 tok (ctx 40000 + max(100000 - 60000, 40000))"]
            );
            assert!(matches!(to, Dispatch::Finding { kind: FindingJobKind::Fix, id: 7 }));
        }
        _ => panic!("not continued"),
    }
}

#[test]
fn attempts_are_bounded() {
    let j = job(5, Some(7), Some("/w/jobs/5/session/a.jsonl"));
    let mut f = facts();
    f.chain.attempts = MAX_RESUME_ATTEMPTS;
    match resume_plan(&j, &repo(), "/w", &f) {
        ResumeDecision::Retire { effects } => assert!(effects.iter().any(|e| matches!(
            e,
            Effect::RetireSuspended { job: 5, state: JobState::Failed, reason: Some(r), .. } if r == "give-up"
        ))),
        _ => panic!("not retired"),
    }
    let mut f = facts();
    f.tree_there = false;
    match resume_plan(&j, &repo(), "/w", &f) {
        ResumeDecision::Retire { effects } => assert!(effects.iter().any(|e| matches!(
            e,
            Effect::RetireSuspended { reason: Some(r), .. } if r == "workdir-gone"
        ))),
        _ => panic!("not retired"),
    }
    assert!(matches!(
        resume_plan(&job(5, Some(7), None), &repo(), "/w", &facts()),
        ResumeDecision::Skip
    ));
}

// -- cycles ------------------------------------------------------------

#[test]
fn a_failed_scan_gives_its_turn() {
    let c = repo_candidate(RepoJobKind::TestGap, &repo());
    let failed = CycleSummary {
        kind: Some(JobKind::Repo(RepoJobKind::TestGap)),
        state: Some(JobState::Failed),
        ..CycleSummary::default()
    };
    let (effects, _) = conclude_cycle(&c, failed, None);
    assert!(effects.iter().any(|e| matches!(
        e,
        Effect::SetLastKind { repo: 1, kind: RepoJobKind::TestGap }
    )));
    let paused = CycleSummary {
        kind: Some(JobKind::Repo(RepoJobKind::TestGap)),
        state: Some(JobState::Suspended),
        ..CycleSummary::default()
    };
    let (effects, _) = conclude_cycle(&c, paused, None);
    assert!(!effects.iter().any(|e| matches!(e, Effect::SetLastKind { .. })));
}

#[test]
fn cycles_have_lines() {
    let c = finding_candidate(FindingJobKind::Fix, &finding(7, FindingStatus::Queued));
    let (_, to) = dispatch(&c);
    assert_eq!(gone_note(&to).as_deref(), Some("finding 7 not found"));
    let (_, idle) = idle_cycle(None);
    assert!(idle.idle.is_some());
    let (effects, crashed) = crashed_cycle("full story", "short");
    assert_eq!(logs(&effects), ["cycle crashed: full story"]);
    assert_eq!(crashed.error.as_deref(), Some("short"));
    assert!(!cycle_line(&crashed).is_empty());
}

#[test]
fn only_a_commit_that_is_named_is_shortened() {
    let message = "fatal: mauv\u{e9} commit";
    assert!(!message.is_char_boundary(12));
    let (range, note) = first_hunt_by_count("bbb", 128, message);
    assert!(range.ends_with("..bbb"));
    assert_eq!(note, "First hunt for this repo: the full history (small repo).");
    assert!(first_hunt_by_age(message, message).is_none());
    let mut r = repo();
    r.last_hunt_sha = Some(message.to_owned());
    r.last_full_hunt_at = Some(0);
    assert!(is_rehunt_due(&r, false, 91 * DAY, 90));
    assert!(!is_rehunt_due(&r, true, 91 * DAY, 90));
    assert!(hunt_scope(&r, "bbb", false, 91 * DAY, 90).2);
}

#[test]
fn every_open_pull_request_is_counted() {
    let mut none = finding(8, FindingStatus::PrOpen);
    none.pr_url = None;
    let mut pass = SyncPass::new(vec![finding(7, FindingStatus::PrOpen), none]);
    assert_eq!(pass.next().map(|f| f.id), Some(7));
    assert!(matches!(pass.plan(&Some(repo())), SyncPlan::View { number: 12 }));
    assert_eq!(pass.next().map(|f| f.id), Some(7));
    let effects = pass.answer(Err("timeout".to_owned()), &None, 99);
    assert_eq!(logs(&effects), ["sync #7: PR view failed: timeout"]);
    assert_eq!(pass.next().map(|f| f.id), Some(8));
    assert!(matches!(pass.plan(&None), SyncPlan::Settled { tally: SyncTally::Requeued, .. }));
    assert!(pass.next().is_none());
    let t = pass.result();
    assert_eq!((t.synced, t.merged, t.closed, t.attention, t.errors), (0, 0, 0, 0, 1));
}
