use hunter::backend::JobClass;
use hunter::domain::{
    FindingJobKind, FindingStatus, FindingType, ForgeName, JobKind, JobState, RepoJobKind, Severity,
};
use hunter::ingest::IngestResult;
use hunter::scheduler::effects::{CycleSummary, Effect};
use hunter::scheduler::engage::{
    engage_start, engage_step, EngageAction, EngageEvent, EngagePhase, EngageRun,
};
use hunter::scheduler::fix::{
    branch_name, extract_pr_url, fix_start, fix_step, status_check, FixAction, FixEvent, FixPhase,
    FixRun, MAX_CONSECUTIVE_SAME_FAILURE,
};
use hunter::scheduler::harvest::{harvest_start, harvest_streak, HarvestAction, HarvestRun};
use hunter::scheduler::launch::{
    finding_launch, job_class, job_state, launch_start, launch_step, repo_launch, tip_of, LaunchAction,
    LaunchEvent, LaunchPhase, LaunchSpec, ResumeRef, Told,
};
use hunter::scheduler::prepare::{engage_check, fetch_outcome, harvest_check, repo_missing};
use hunter::scheduler::recheck::{
    recheck_start, recheck_step, verdict_name, RecheckAction, RecheckEvent, RecheckPhase, RecheckRun,
    RecheckVerdict,
};
use hunter::types::{Finding, PrState, Repo, RunResult};
use hunter::workspace::TreeSpec;

fn finding(id: i64, status: FindingStatus) -> Finding {
    Finding {
        id,
        kind: FindingType::Bug,
        repo_id: 1,
        fingerprint: format!("fp-{id}"),
        file: None,
        symbol: None,
        line: None,
        severity: Severity::Medium,
        summary: "Off by one!".to_owned(),
        detail: None,
        status,
        pr_url: Some("https://github.com/o/demo/pull/12".to_owned()),
        created_at: 0,
        updated_at: 0,
        bug_class: None,
        evidence_plan: None,
        introduced_by: None,
        rung_achieved: None,
        verdict_reason: None,
        budget_override: None,
        fix_attempts: 0,
        last_fix_failure: None,
        recheck_attempts: 0,
        last_recheck_failure: None,
        ecosystem: None,
        package: None,
        current_version: None,
        latest_version: None,
        update_type: None,
        security_advisory: None,
        missing_tests: None,
        test_file: None,
        smell_type: None,
        suggested_refactor: None,
        modernization_class: None,
        current_approach: None,
        proposed_approach: None,
    }
}

fn repo() -> Repo {
    Repo {
        id: 1,
        name: "demo".to_owned(),
        url: "https://github.com/o/demo".to_owned(),
        path: "/repos/1".to_owned(),
        forge: ForgeName::Github,
        default_branch: "main".to_owned(),
        last_hunt_sha: None,
        last_hunt_at: None,
        enabled: 1,
        added_at: 0,
        last_full_hunt_at: None,
        last_test_gap_at: None,
        last_dep_update_at: None,
        last_refactor_at: None,
        last_modernization_at: None,
        last_standards_at: None,
    }
}

fn pr_state() -> PrState {
    PrState {
        finding_id: 7,
        pr_number: Some(12),
        state: Some("OPEN".to_owned()),
        mergeable: None,
        checks: None,
        head_ref: Some("fix/off-by-one-7".to_owned()),
        last_activity_at: None,
        last_engaged_activity_at: None,
        needs_attention: None,
        attention_since: None,
        attention_fingerprint: None,
        addressed_fingerprint: None,
        head_sha: None,
        addressed_head_sha: None,
        synced_at: None,
        harvested_at: None,
        harvest_attempts: 0,
        last_harvest_failure: None,
    }
}

fn fix_run(state: JobState) -> FixRun {
    FixRun {
        finding: 7,
        kind: FindingType::Bug,
        job: 3,
        state,
        branch: "fix/off-by-one-7".to_owned(),
        default_branch: "main".to_owned(),
        repo_url: "https://github.com/o/demo".to_owned(),
        forge: ForgeName::Github,
        worktree: "/jobs/3/tree".to_owned(),
        tokens_new: 100,
        stdout_tail: "tail".to_owned(),
        override_once: true,
    }
}

fn ended(action: FixAction) -> CycleSummary {
    match action {
        FixAction::Finish { summary } => summary,
        _ => panic!("goes on"),
    }
}

fn put_back(effects: &[Effect]) -> bool {
    effects.iter().any(|e| {
        matches!(
            e,
            Effect::FinalizeInProgress {
                finding: 7,
                from: FindingStatus::Fixing,
                to: FindingStatus::Queued
            }
        )
    })
}

fn logs(effects: &[Effect]) -> Vec<String> {
    effects
        .iter()
        .filter_map(|e| match e {
            Effect::Log { message, .. } => Some(message.clone()),
            _ => None,
        })
        .collect()
}

fn done(out: &str) -> FixEvent {
    FixEvent::Done { rc: 0, out: out.to_owned() }
}

#[test]
fn a_branch_is_named_after_its_finding() {
    assert_eq!(branch_name(&finding(7, FindingStatus::Queued)), "fix/off-by-one-7");
}

#[test]
fn a_finding_elsewhere_is_skipped() {
    assert!(status_check(FindingJobKind::Fix, &finding(7, FindingStatus::Queued), FindingStatus::Queued).is_none());
    let s = status_check(FindingJobKind::Fix, &finding(7, FindingStatus::New), FindingStatus::Queued).unwrap();
    assert_eq!(s.skipped.as_deref(), Some("finding #7 is new, not queued"));
}

#[test]
fn an_address_is_found_in_an_error() {
    assert_eq!(
        extract_pr_url("a pull request already exists: https://github.com/o/r/pull/9").as_deref(),
        Some("https://github.com/o/r/pull/9")
    );
    assert_eq!(extract_pr_url("nothing here"), None);
}

#[test]
fn a_fix_that_ships_opens_a_pull_request() {
    let run = fix_run(JobState::Done);
    match fix_start(&run) {
        FixAction::ReadOutcome { decline, blocked } => {
            assert_eq!((decline.as_str(), blocked.as_str()), ("NOT-A-BUG.md", "BLOCKED.md"))
        }
        _ => panic!("no outcome"),
    }
    let (_, phase, action) = fix_step(&run, FixPhase::Outcome, FixEvent::NoOutcome);
    match action {
        FixAction::Command { argv, .. } => assert_eq!(
            argv,
            ["git", "-C", "/jobs/3/tree", "log", "origin/main..HEAD", "--oneline"]
        ),
        _ => panic!("no command"),
    }
    let (_, phase, _) = fix_step(&run, phase, done("abc fix\n"));
    let (_, phase, action) = fix_step(&run, phase, FixEvent::Found { yes: true });
    match action {
        FixAction::Command { argv, .. } => {
            assert!(argv.iter().any(|a| a == "git@github.com:o/demo.git"))
        }
        _ => panic!("no push"),
    }
    let (_, phase, _) = fix_step(&run, phase, done(""));
    let (_, phase, action) = fix_step(&run, phase, done("Fix it\n"));
    match action {
        FixAction::CreatePr { head, base, title } => {
            assert_eq!((head.as_str(), base.as_str(), title.as_str()), ("fix/off-by-one-7", "main", "Fix it"))
        }
        _ => panic!("no pull request"),
    }
    let (effects, _, action) =
        fix_step(&run, phase, FixEvent::PrCreated { url: "https://github.com/o/demo/pull/12".to_owned() });
    assert!(put_back(&effects));
    assert!(effects.iter().any(|e| matches!(e, Effect::SetPrOpen { finding: 7, .. })));
    assert!(effects.iter().any(|e| matches!(e, Effect::ClearOverride { finding: 7 })));
    assert_eq!(ended(action).outcome.as_deref(), Some("pr_open"));
}

#[test]
fn a_declined_fix_is_rejected() {
    let event = FixEvent::Declined { blocked: false, text: "works as designed".to_owned() };
    let (effects, _, action) = fix_step(&fix_run(JobState::Done), FixPhase::Outcome, event);
    assert!(put_back(&effects));
    assert!(effects.iter().any(|e| matches!(
        e,
        Effect::SetVerdict { status: FindingStatus::Rejected, .. }
    )));
    assert_eq!(ended(action).outcome.as_deref(), Some("rejected"));
}

#[test]
fn a_suspended_fix_is_not_counted() {
    let run = fix_run(JobState::Suspended);
    let phase = FixPhase::Commits { retried: false };
    let (effects, _, action) = fix_step(&run, phase, done(""));
    assert!(put_back(&effects));
    assert!(!effects.iter().any(|e| matches!(e, Effect::SetVerdict { .. })));
    assert_eq!(ended(action).outcome.as_deref(), Some("suspended"));
}

#[test]
fn a_suspension_after_the_work_is_retired() {
    let event = FixEvent::Declined { blocked: true, text: "x".to_owned() };
    let (effects, _, _) = fix_step(&fix_run(JobState::Suspended), FixPhase::Outcome, event);
    assert!(effects.iter().any(|e| matches!(
        e,
        Effect::RetireSuspended { job: 3, state: JobState::Killed, .. }
    )));
}

#[test]
fn the_same_failure_gives_up_in_the_end() {
    let run = fix_run(JobState::Done);
    let (_, phase, action) = fix_step(&run, FixPhase::Commits { retried: false }, done(""));
    match action {
        FixAction::RecordFailure { failure } => assert_eq!(failure, "no commits"),
        _ => panic!("not counted"),
    }
    let early = FixEvent::Streak { count: MAX_CONSECUTIVE_SAME_FAILURE - 1 };
    let (_, _, action) = fix_step(&run, phase.clone(), early);
    assert_eq!(ended(action).outcome.as_deref(), Some("requeued"));
    let late = FixEvent::Streak { count: MAX_CONSECUTIVE_SAME_FAILURE };
    let (effects, _, action) = fix_step(&run, phase, late);
    assert!(put_back(&effects));
    assert_eq!(ended(action).outcome.as_deref(), Some("stuck"));
    assert!(effects.iter().any(|e| matches!(
        e,
        Effect::SetVerdict { reason, .. }
            if reason == "stuck: 3 consecutive fix attempts hit the same failure: no commits"
    )));
}

#[test]
fn a_pull_request_that_exists_is_recovered() {
    let event = FixEvent::PrFailed {
        error: "a pull request already exists: https://github.com/o/demo/pull/12".to_owned(),
    };
    let (_, _, action) = fix_step(&fix_run(JobState::Done), FixPhase::Create, event);
    let s = ended(action);
    assert_eq!(s.pr_url.as_deref(), Some("https://github.com/o/demo/pull/12"));
}

#[test]
fn a_push_that_failed_is_quoted() {
    let event = FixEvent::Done { rc: 1, out: "denied".to_owned() };
    let (_, _, action) = fix_step(&fix_run(JobState::Done), FixPhase::Push, event);
    match action {
        FixAction::RecordFailure { failure } => assert_eq!(failure, "push failed: denied"),
        _ => panic!("not counted"),
    }
    let mut run = fix_run(JobState::Done);
    run.repo_url = "non\"sense".to_owned();
    let (_, _, action) = fix_step(&run, FixPhase::Push, done(""));
    match action {
        FixAction::RecordFailure { failure } => {
            assert_eq!(failure, "unparseable repo url for PR: \"non\\\"sense\"")
        }
        _ => panic!("not counted"),
    }
}

#[test]
fn an_event_out_of_turn_ends_a_fix() {
    let (_, _, action) =
        fix_step(&fix_run(JobState::Done), FixPhase::Outcome, FixEvent::Streak { count: 1 });
    assert_eq!(ended(action).error.as_deref(), Some("out of turn"));
}

// -- launches ----------------------------------------------------------

fn spec(resume: Option<ResumeRef>) -> LaunchSpec {
    LaunchSpec {
        kind: JobKind::Finding(FindingJobKind::Fix),
        repo_id: 1,
        repo_name: "demo".to_owned(),
        finding_id: Some(7),
        use_override: false,
        prefix: "fix #7".to_owned(),
        resume,
        tree: TreeSpec::Detached { at: "main".to_owned() },
        views_pr: false,
        holds_finding: true,
    }
}

fn result(exit: Option<i32>, killed: Option<&str>, session: Option<&str>) -> RunResult {
    RunResult {
        exit_code: exit,
        killed_reason: killed.map(str::to_owned),
        tokens_new: 5,
        calls: 1,
        session_file: session.map(str::to_owned),
        stdout_tail: "out".to_owned(),
    }
}

#[test]
fn the_state_of_a_job_follows_its_run() {
    assert_eq!(job_state(&result(Some(0), None, None)), JobState::Done);
    assert_eq!(job_state(&result(Some(1), None, None)), JobState::Failed);
    assert_eq!(job_state(&result(None, Some("cap"), Some("/s"))), JobState::Suspended);
    assert_eq!(job_state(&result(None, Some("cap"), None)), JobState::Killed);
    assert_eq!(job_state(&result(None, Some("resume-unavailable"), None)), JobState::Failed);
    assert_eq!(job_state(&result(None, Some("wallclock"), Some("/s"))), JobState::Killed);
}

#[test]
fn a_launch_runs_its_course() {
    let s = spec(None);
    assert!(matches!(launch_start(&s), LaunchAction::Gate { reserve: None, use_override: false }));
    let (_, phase, action) = launch_step(
        &s, LaunchPhase::Gate, LaunchEvent::Granted { cap: Some(9), anticipated: 4 },
    );
    assert!(matches!(
        action,
        LaunchAction::CreateJob { cap: Some(9), anticipated: 4, resume_of: None }
    ));
    let (_, phase, action) =
        launch_step(&s, phase, LaunchEvent::JobCreated { id: 3, superseded: vec![1] });
    match action {
        LaunchAction::OpenWorkspace { job, release, .. } => assert_eq!((job, release), (3, vec![1])),
        _ => panic!("no workspace"),
    }
    let (effects, phase, action) =
        launch_step(&s, phase, LaunchEvent::Opened { sha: "abc".to_owned() });
    assert!(effects.iter().any(|e| matches!(e, Effect::PinSha { job: 3, .. })));
    assert!(effects.iter().any(|e| matches!(
        e,
        Effect::SetInProgress { finding: 7, status: FindingStatus::Fixing }
    )));
    assert!(matches!(action, LaunchAction::RunWorker { job: 3, cap: Some(9), told: Told::Playbook }));
    let (_, phase, action) =
        launch_step(&s, phase, LaunchEvent::RunDone { result: result(Some(0), None, None) });
    assert!(matches!(action, LaunchAction::Record { job: 3, state: JobState::Done, .. }));
    let (_, _, action) = launch_step(&s, phase, LaunchEvent::Recorded);
    assert!(matches!(action, LaunchAction::Ran { job: 3, state: JobState::Done }));
}

#[test]
fn a_denied_launch_is_logged() {
    let event = LaunchEvent::Denied { reason: "over".to_owned(), retry_at: Some(5) };
    let (effects, _, action) = launch_step(&spec(None), LaunchPhase::Gate, event);
    assert_eq!(logs(&effects), ["fix #7: over"]);
    match action {
        LaunchAction::Finish { summary } => {
            assert_eq!((summary.denied.as_deref(), summary.retry_at), (Some("over"), Some(5)))
        }
        _ => panic!("goes on"),
    }
}

#[test]
fn a_workspace_that_is_not_made_fails_the_job() {
    let phase = LaunchPhase::Open { job: 3, cap: None };
    let (effects, _, action) =
        launch_step(&spec(None), phase, LaunchEvent::OpenFailed { why: "no".to_owned() });
    assert!(effects.iter().any(|e| matches!(e, Effect::FailUnstarted { job: 3, .. })));
    match action {
        LaunchAction::Finish { summary } => {
            assert_eq!(summary.failure.as_deref(), Some("workspace not created: no"))
        }
        _ => panic!("goes on"),
    }
}

#[test]
fn a_worker_that_cannot_run_releases_the_finding() {
    let (effects, _, action) = launch_step(
        &spec(None), LaunchPhase::Run { job: 3 }, LaunchEvent::RunFailed { error: "io".to_owned() },
    );
    assert!(put_back(&effects));
    assert!(matches!(action, LaunchAction::Abort { error } if error == "io"));
}

#[test]
fn a_resume_reserves_its_own_and_retires_a_gone_session() {
    let s = spec(Some(ResumeRef { predecessor_id: 2, anticipated: 55, repo: "demo".to_owned() }));
    assert!(matches!(launch_start(&s), LaunchAction::Gate { reserve: Some(55), .. }));
    let created = LaunchEvent::JobCreated { id: 3, superseded: vec![] };
    let (_, _, action) = launch_step(&s, LaunchPhase::Create { cap: None }, created);
    assert!(matches!(action, LaunchAction::RunWorker { told: Told::CarryOnChecked, .. }));
    let (_, phase, action) = launch_step(
        &s,
        LaunchPhase::Run { job: 3 },
        LaunchEvent::RunDone { result: result(None, Some("resume-unavailable"), None) },
    );
    let told = "resume fix demo: session gone, predecessor job 2 marked killed";
    match action {
        LaunchAction::Record { retire: Some((id, note)), .. } => {
            assert_eq!(id, 2);
            assert_eq!(note, told);
        }
        _ => panic!("nothing retired"),
    }
    let (effects, _, action) = launch_step(&s, phase, LaunchEvent::Recorded);
    assert!(logs(&effects).contains(&told.to_owned()));
    assert!(matches!(action, LaunchAction::Ran { job: 3, state: JobState::Failed }));
}

#[test]
fn each_kind_is_launched_on_its_own_tree() {
    assert_eq!(tip_of("main"), "origin/main");
    let scan = repo_launch(RepoJobKind::Hunt, &repo(), "abc", None);
    assert_eq!((scan.prefix.as_str(), scan.finding_id, scan.holds_finding), ("hunt demo", None, false));
    assert!(matches!(scan.tree, TreeSpec::Detached { at } if at == "abc"));
    let f = finding(7, FindingStatus::Queued);
    let fix = finding_launch(FindingJobKind::Fix, &f, &repo(), "fix/x-7", None);
    assert!(fix.holds_finding && !fix.views_pr);
    assert!(matches!(
        fix.tree,
        TreeSpec::Branch { name, at } if name == "fix/x-7" && at == "origin/main"
    ));
    let engage = finding_launch(FindingJobKind::Engage, &f, &repo(), "fix/x-7", None);
    assert!(engage.views_pr && !engage.holds_finding);
    assert!(matches!(engage.tree, TreeSpec::PrHead { head_ref } if head_ref == "fix/x-7"));
    let recheck = finding_launch(FindingJobKind::Recheck, &f, &repo(), "", None);
    assert!(matches!(recheck.tree, TreeSpec::Detached { at } if at == "origin/main"));
    assert!(matches!(job_class(JobKind::Repo(RepoJobKind::Refactor)), JobClass::Hunt));
    assert!(matches!(job_class(JobKind::Finding(FindingJobKind::Recheck)), JobClass::Hunt));
    assert!(matches!(job_class(JobKind::Finding(FindingJobKind::Engage)), JobClass::Fix));
    assert_eq!(verdict_name(7), "recheck7.json");
}

#[test]
fn a_refused_job_is_skipped() {
    let (_, _, action) = launch_step(
        &spec(None),
        LaunchPhase::Create { cap: None },
        LaunchEvent::JobRefused { message: "repo deleted".to_owned() },
    );
    match action {
        LaunchAction::Finish { summary } => {
            assert_eq!(summary.skipped.as_deref(), Some("repo deleted"))
        }
        _ => panic!("goes on"),
    }
}

// -- rechecks ----------------------------------------------------------

fn recheck_run(state: JobState) -> RecheckRun {
    RecheckRun {
        finding: 7,
        job: 3,
        state,
        worktree: "/jobs/3/tree".to_owned(),
        tokens_new: 10,
        override_once: false,
    }
}

fn verdict(word: Option<&str>) -> RecheckEvent {
    RecheckEvent::Verdict {
        value: RecheckVerdict {
            verdict: word.map(str::to_owned),
            reason: Some("because".to_owned()),
            updated_summary: None,
            updated_detail: None,
            updated_severity: None,
        },
    }
}

#[test]
fn verdicts_move_a_finding() {
    let run = recheck_run(JobState::Done);
    let (effects, _, _) = recheck_step(&run, RecheckPhase::Verdict, verdict(Some("confirmed")));
    assert!(effects.iter().any(|e| matches!(
        e,
        Effect::SetStatus { finding: 7, status: FindingStatus::New }
    )));
    let (effects, _, _) = recheck_step(&run, RecheckPhase::Verdict, verdict(Some("stale")));
    assert!(effects.iter().any(|e| matches!(
        e,
        Effect::SetVerdict { status: FindingStatus::Wontfix, reason, .. } if reason == "recheck: because"
    )));
    let (effects, _, _) = recheck_step(&run, RecheckPhase::Verdict, verdict(Some("invalid")));
    assert!(effects.iter().any(|e| matches!(
        e,
        Effect::SetVerdict { status: FindingStatus::Rejected, .. }
    )));
}

#[test]
fn verdicts_that_cannot_be_used_are_failures() {
    let run = recheck_run(JobState::Done);
    for (event, why) in [
        (verdict(None), "missing verdict field"),
        (verdict(Some("ma\"ybe")), "invalid verdict value: \"ma\\\"ybe\""),
        (RecheckEvent::NoFile, "no verdict file"),
        (RecheckEvent::Unparseable, "unparseable verdict file"),
    ] {
        match recheck_step(&run, RecheckPhase::Verdict, event).2 {
            RecheckAction::RecordFailure { failure } => assert_eq!(failure, why),
            _ => panic!("not counted"),
        }
    }
}

#[test]
fn a_suspended_recheck_is_a_pause() {
    let (effects, _, action) = recheck_start(&recheck_run(JobState::Suspended));
    assert!(!effects.iter().any(|e| matches!(e, Effect::SetStatus { .. } | Effect::SetVerdict { .. })));
    match action {
        RecheckAction::Finish { summary } => assert_eq!(summary.outcome.as_deref(), Some("suspended")),
        _ => panic!("goes on"),
    }
    assert!(matches!(recheck_start(&recheck_run(JobState::Done)).2, RecheckAction::ReadVerdict));
    assert!(matches!(
        recheck_start(&recheck_run(JobState::Killed)).2,
        RecheckAction::RecordFailure { failure } if failure == "worker killed"
    ));
}

#[test]
fn a_recheck_gives_up_in_the_end() {
    let phase = RecheckPhase::Streak { failure: "f".to_owned() };
    let (effects, _, action) = recheck_step(
        &recheck_run(JobState::Done), phase, RecheckEvent::Streak { count: MAX_CONSECUTIVE_SAME_FAILURE },
    );
    assert_eq!(
        logs(&effects),
        ["#7 gave up after 3 identical failures (f); back to inbox for human triage"]
    );
    assert!(matches!(action, RecheckAction::Finish { .. }));
}

// -- engagements -------------------------------------------------------

fn engage_run(state: JobState) -> EngageRun {
    EngageRun {
        finding: 7,
        job: 3,
        state,
        pr_number: 12,
        head_ref: "fix/off-by-one-7".to_owned(),
        worktree: "/jobs/3/tree".to_owned(),
        repo_url: "https://github.com/o/demo".to_owned(),
        forge: ForgeName::Github,
        tokens_new: 10,
        stdout_tail: "tail".to_owned(),
        override_once: false,
        last_activity_at: Some(50),
        fingerprint: Some("checks:ci".to_owned()),
        head_sha: Some("abc".to_owned()),
    }
}

fn engage_done(rc: i32, out: &str) -> EngageEvent {
    EngageEvent::Done { rc, out: out.to_owned() }
}

#[test]
fn an_engagement_that_pushes_resets_what_is_addressed() {
    let run = engage_run(JobState::Done);
    assert!(matches!(engage_start(), EngageAction::ReadFile { .. }));
    let (_, phase, _) = engage_step(&run, EngagePhase::Withdraw, EngageEvent::NoFile, 1000);
    let (_, phase, action) = engage_step(&run, phase, engage_done(0, "abc\n"), 1000);
    match action {
        EngageAction::Command { argv, .. } => {
            assert_eq!(argv.last().map(String::as_str), Some("HEAD:fix/off-by-one-7"))
        }
        _ => panic!("no push"),
    }
    let (_, phase, _) = engage_step(&run, phase, engage_done(0, ""), 1000);
    let (effects, _, action) = engage_step(&run, phase, EngageEvent::NoFile, 1000);
    assert!(effects.iter().any(|e| matches!(
        e,
        Effect::MarkPrEngaged { activity: 50, fingerprint: None, head_sha: None, .. }
    )));
    assert_eq!(logs(&effects), ["#7 PR #12 engaged (pushed)"]);
    assert!(matches!(action, EngageAction::Finish { .. }));
}

#[test]
fn a_reply_moves_the_mark_past_itself() {
    let run = engage_run(JobState::Done);
    let phase = EngagePhase::Reply { pushed: false };
    let (_, phase, action) = engage_step(&run, phase, EngageEvent::File { text: "thanks".to_owned() }, 1000);
    assert!(matches!(action, EngageAction::CommentPr { .. }));
    let (effects, _, _) = engage_step(&run, phase, EngageEvent::Commented, 1000);
    assert!(effects.iter().any(|e| matches!(
        e,
        Effect::MarkPrEngaged { activity: 4000, fingerprint: Some(_), .. }
    )));
}

#[test]
fn a_withdrawal_that_cannot_close_keeps_the_finding() {
    let run = engage_run(JobState::Done);
    let file = EngageEvent::File { text: "wrong approach".to_owned() };
    let (_, phase, action) = engage_step(&run, EngagePhase::Withdraw, file, 1000);
    assert!(matches!(action, EngageAction::ClosePr { .. }));
    let (effects, _, _) = engage_step(&run, phase.clone(), EngageEvent::CloseFailed, 1000);
    assert!(!effects.iter().any(|e| matches!(e, Effect::SetVerdict { .. })));
    let (effects, phase, _) = engage_step(&run, phase, EngageEvent::Closed, 1000);
    assert!(effects.iter().any(|e| matches!(
        e,
        Effect::SetVerdict { status: FindingStatus::Rejected, .. }
    )));
    let counts = IngestResult { inserted: 1, duplicates: 0, invalid: 0 };
    let (effects, _, _) =
        engage_step(&run, phase, EngageEvent::Ingested { counts: Some(counts) }, 1000);
    assert_eq!(
        logs(&effects),
        ["#7: +1 follow-up(s) filed from deferred/superseded work (0 dup / 0 invalid)"]
    );
}

#[test]
fn an_unfinished_engagement_does_not_ship() {
    let (effects, _, action) =
        engage_step(&engage_run(JobState::Killed), EngagePhase::Withdraw, EngageEvent::NoFile, 1000);
    assert_eq!(logs(&effects), ["#7 incomplete (worker killed). tail: tail"]);
    match action {
        EngageAction::Finish { summary } => assert_eq!(summary.outcome.as_deref(), Some("retry")),
        _ => panic!("goes on"),
    }
}

// -- harvests ----------------------------------------------------------

fn harvest_run(state: JobState) -> HarvestRun {
    HarvestRun {
        finding: 7,
        job: 3,
        state,
        pr_number: 12,
        worktree: "/jobs/3/tree".to_owned(),
        followups: None,
        override_once: false,
    }
}

#[test]
fn a_harvest_is_counted_only_where_it_failed() {
    let (effects, action) = harvest_start(&harvest_run(JobState::Done));
    assert!(effects.iter().any(|e| matches!(e, Effect::MarkPrHarvested { finding: 7 })));
    assert!(matches!(action, HarvestAction::Finish { .. }));
    let (effects, action) = harvest_start(&harvest_run(JobState::Suspended));
    assert!(!effects.iter().any(|e| matches!(e, Effect::MarkPrHarvested { .. })));
    assert!(matches!(action, HarvestAction::Finish { .. }));
    let (_, action) = harvest_start(&harvest_run(JobState::Failed));
    assert!(matches!(action, HarvestAction::RecordFailure { failure } if failure == "worker failed"));
}

#[test]
fn a_harvest_gives_up_in_the_end() {
    let (effects, summary) = harvest_streak(&harvest_run(JobState::Failed), MAX_CONSECUTIVE_SAME_FAILURE);
    assert!(effects.iter().any(|e| matches!(e, Effect::MarkPrHarvested { .. })));
    assert_eq!(summary.outcome.as_deref(), Some("stuck"));
    let (effects, _) = harvest_streak(&harvest_run(JobState::Failed), 1);
    assert!(!effects.iter().any(|e| matches!(e, Effect::MarkPrHarvested { .. })));
}

// -- preparations ------------------------------------------------------

#[test]
fn an_engagement_spares_the_default_branch() {
    let f = finding(7, FindingStatus::PrOpen);
    let ready = engage_check(&f, &repo(), &Some(pr_state())).unwrap();
    assert_eq!((ready.number, ready.healed, ready.branch.as_str()), (12, false, "fix/off-by-one-7"));
    let mut ps = pr_state();
    ps.head_ref = Some("main".to_owned());
    ps.pr_number = None;
    let refusal = engage_check(&f, &repo(), &Some(ps)).unwrap_err();
    assert_eq!(refusal.error, "head_ref equals default branch");
    assert!(matches!(refusal.effects[0], Effect::SetPrNumber { finding: 7, number: 12 }));
    assert_eq!(engage_check(&f, &repo(), &None).unwrap_err().error, "no pr_state");
}

#[test]
fn a_missing_number_is_read_from_the_address() {
    let f = finding(7, FindingStatus::Merged);
    let mut ps = pr_state();
    ps.pr_number = None;
    let ready = harvest_check(&f, &repo(), &Some(ps.clone())).unwrap();
    assert_eq!((ready.number, ready.healed), (12, true));
    let mut lost = f.clone();
    lost.pr_url = None;
    assert_eq!(harvest_check(&lost, &repo(), &Some(ps)).unwrap_err().error, "no pr_number");
}

#[test]
fn what_is_missing_is_logged() {
    let r = repo_missing("fix", &finding(7, FindingStatus::Queued));
    assert_eq!(r.error, "repo missing");
    assert!(logs(&r.effects)[0].ends_with(": repo 1 missing"));
    assert!(fetch_outcome("engage", 7, "b", 0, "").is_none());
    assert!(fetch_outcome("engage", 7, "b", 1, "boom").is_some());
    assert_eq!(JobKind::Repo(RepoJobKind::Hunt).as_str(), "hunt");
}
