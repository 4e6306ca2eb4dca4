use hunter::cli::{parse_args, Command};
use hunter::config::{backend_refusal, resolve_path, Config, Fractions, RawConfig, MAX_DAYS};
use hunter::daemon::{compute_sleep_ms, crash_note, describe_cycle, lock_note, reconcile_and_log};
use hunter::dep_scan::{
    first_of_each, normalize_update_type, parse_record, parse_renovate_output, scan_args,
};
use hunter::domain::{
    FindingJobKind, FindingStatus, FindingType, JobKind, JobState, RepoJobKind, Severity,
};
use hunter::ingest::IngestResult;
use hunter::json::Json;
use hunter::scheduler::effects::{CycleSummary, Effect, SyncResult};
use hunter::types::{Finding, Job};

fn raw() -> RawConfig {
    RawConfig {
        work_root: None,
        db_path: None,
        omp_bin: None,
        session_grace_s: None,
        serve_port: None,
        model_default: Some("base".to_owned()),
        model_smol: None,
        model_hunt: Some("hunter".to_owned()),
        model_fix: None,
        backend_type: None,
        hunt_max_wall_s: None,
        hunt_max_findings: None,
        hunt_rehunt_days: None,
        fix_max_wall_s: None,
    }
}

fn fractions() -> Fractions {
    Fractions {
        poll_ok: true,
        poll_shown: "2".to_owned(),
        stale_ok: true,
        stale_shown: "300".to_owned(),
        scan_ms: Some(86_400_000),
        scan_shown: "1".to_owned(),
        modernization_days: Some(30),
        modernization_shown: "30".to_owned(),
        standards_days: Some(30),
        standards_shown: "30".to_owned(),
    }
}

fn args(v: &[&str]) -> Vec<String> {
    v.iter().map(|s| (*s).to_owned()).collect()
}

fn ran() -> CycleSummary {
    CycleSummary {
        kind: Some(JobKind::Repo(RepoJobKind::Hunt)),
        repo: Some("demo".to_owned()),
        state: Some(JobState::Done),
        ..CycleSummary::default()
    }
}

#[test]
fn a_silent_file_has_its_defaults() {
    let c = Config::load("/srv/hunter", raw(), fractions()).unwrap();
    assert_eq!(c.work_root, "/srv/hunter/data");
    assert_eq!(c.db_path, "/srv/hunter/data/hunter.db");
    assert_eq!(c.ui_dir, "/srv/hunter/ui");
    assert_eq!((c.serve_port, c.session_grace_s), (8377, 120));
    assert_eq!((c.hunt_max_wall_s, c.fix_max_wall_s), (1800, 2700));
    assert_eq!((c.hunt_max_findings, c.hunt_rehunt_days), (8, 90));
    assert_eq!((c.omp_bin.as_str(), c.backend_type.as_str()), ("omp", "omp-scavenge"));
    assert_eq!(c.scan_interval_ms, 86_400_000);
    assert_eq!(c.model_for("hunt"), Some("hunter"));
    assert_eq!(c.model_for("fix"), Some("base"));
}

#[test]
fn absolute_paths_stay() {
    assert_eq!(resolve_path("/a", "/x/y"), "/x/y");
    assert_eq!(resolve_path("/a", "x/y"), "/a/x/y");
}

#[test]
fn limits_out_of_range_are_refused_in_order() {
    let mut r = raw();
    r.hunt_max_wall_s = Some(0);
    r.fix_max_wall_s = Some(-1);
    assert_eq!(
        Config::load("/a", r, fractions()).unwrap_err(),
        "/a/config.json: hunt.maxWallS must be greater than 0 (got 0)"
    );
    let mut r = raw();
    r.fix_max_wall_s = Some(-1);
    assert_eq!(
        Config::load("/a", r, fractions()).unwrap_err(),
        "/a/config.json: fix.maxWallS must be greater than 0 (got -1)"
    );
    let mut r = raw();
    r.session_grace_s = Some(0);
    assert_eq!(
        Config::load("/a", r, fractions()).unwrap_err(),
        "/a/config.json: sessionGraceS must be greater than 0"
    );
}

#[test]
fn fractions_out_of_range_are_refused() {
    let mut f = fractions();
    f.poll_ok = false;
    f.poll_shown = "NaN".to_owned();
    assert_eq!(
        Config::load("/a", raw(), f).unwrap_err(),
        "/a/config.json: pollS must be a finite number greater than 0 (got NaN)"
    );
    let mut f = fractions();
    f.stale_ok = false;
    f.stale_shown = "-1".to_owned();
    assert_eq!(
        Config::load("/a", raw(), f).unwrap_err(),
        "/a/config.json: budget.staleAfterS must be a finite number greater than or equal to 0 (got -1)"
    );
    let mut f = fractions();
    f.scan_ms = Some(0);
    f.scan_shown = "0".to_owned();
    assert_eq!(
        Config::load("/a", raw(), f).unwrap_err(),
        format!(
            "/a/config.json: scan.intervalDays must be a finite number greater than 0 and at most {MAX_DAYS} (got 0)"
        )
    );
    let mut f = fractions();
    f.standards_days = None;
    f.standards_shown = "0.5".to_owned();
    assert_eq!(
        Config::load("/a", raw(), f).unwrap_err(),
        format!(
            "/a/config.json: standards.intervalDays must be a whole number of days, at least 1 and at most {MAX_DAYS} (got 0.5)"
        )
    );
    assert_eq!(MAX_DAYS, i64::MAX / 86_400_000);
}

#[test]
fn an_unknown_backend_is_quoted() {
    assert_eq!(backend_refusal("omp-scavenge"), None);
    assert_eq!(backend_refusal("a\"b").as_deref(), Some("unknown backend_type: \"a\\\"b\""));
}

#[test]
fn a_command_line_is_read() {
    let c = parse_args(&args(&["daemon", "--root", "/a", "--port", "80", "--root", "/b"])).unwrap();
    assert_eq!((c.command, c.root.as_str(), c.port), (Command::Daemon, "/b", Some(80)));
    let c = parse_args(&args(&["serve"])).unwrap();
    assert_eq!((c.command, c.root.as_str(), c.port), (Command::Serve, "../hunter", None));
}

#[test]
fn a_wrong_command_line_is_refused() {
    for (line, why) in [
        (vec![], "missing subcommand (expected: serve or daemon)"),
        (vec!["serve", "--root"], "--root requires a value"),
        (vec!["serve", "--port"], "--port requires a value"),
        (vec!["serve", "--port", "70000"], "invalid port \"70000\""),
        (vec!["serve", "daemon"], "unknown argument \"daemon\""),
        (vec!["--what"], "unknown argument \"--what\""),
    ] {
        assert_eq!(parse_args(&args(&line)).unwrap_err(), why);
    }
}

#[test]
fn cycles_are_described() {
    let idle = ("idle".to_owned(), "last: hunt (demo)".to_owned());
    assert_eq!(describe_cycle(&ran()), idle);
    let mut s = ran();
    s.state = Some(JobState::Failed);
    assert_eq!(describe_cycle(&s).1, "last: hunt (demo) failed");
    s.outcome = Some("requeued".to_owned());
    s.finding_id = Some(7);
    assert_eq!(describe_cycle(&s).1, "last: hunt #7 -> requeued");
    s.denied = Some("over".to_owned());
    assert_eq!(describe_cycle(&s), ("denied".to_owned(), "last: over".to_owned()));
    s.skipped = Some("no new commits".to_owned());
    assert_eq!(describe_cycle(&s).1, "no new commits");
    s.error = Some("e".repeat(300));
    assert_eq!(describe_cycle(&s), ("error".to_owned(), "e".repeat(200)));
    let none = CycleSummary::default();
    assert_eq!(describe_cycle(&none).1, "cycle produced no actionable outcome");
    assert_eq!(crash_note(&"x".repeat(300)).len(), 200);
}

#[test]
fn the_rest_after_a_cycle_depends_on_what_is_left() {
    assert_eq!(compute_sleep_ms(&ran(), 1, 1, 0), 0);
    assert_eq!(compute_sleep_ms(&ran(), 0, 1, 0), 60_000);
    assert_eq!(compute_sleep_ms(&ran(), 0, 0, 0), 900_000);
    let mut s = ran();
    s.ingest = Some(IngestResult { inserted: 1, duplicates: 0, invalid: 0 });
    assert_eq!(compute_sleep_ms(&s, 0, 1, 0), 5_000);
    s.error = Some("e".to_owned());
    assert_eq!(compute_sleep_ms(&s, 5, 5, 0), 300_000);
    assert_eq!(compute_sleep_ms(&CycleSummary::default(), 0, 0, 0), 900_000);
}

#[test]
fn a_denial_is_waited_out() {
    let sync = Some(SyncResult { synced: 1, merged: 0, closed: 0, attention: 0, errors: 0 });
    let mut s = CycleSummary { denied: Some("over".to_owned()), sync, ..CycleSummary::default() };
    assert_eq!(compute_sleep_ms(&s, 0, 0, 0), 1_800_000);
    s.retry_at = Some(1_000_000);
    assert_eq!(compute_sleep_ms(&s, 0, 0, 400_000), 630_000);
    assert_eq!(compute_sleep_ms(&s, 0, 0, 2_000_000), 60_000);
    s.retry_at = Some(100_000_000);
    assert_eq!(compute_sleep_ms(&s, 0, 0, 0), 3_600_000);
}

#[test]
fn open_pull_requests_are_looked_at_every_five_minutes() {
    let sync = Some(SyncResult { synced: 1, merged: 0, closed: 0, attention: 0, errors: 0 });
    let s = CycleSummary { sync, ..CycleSummary::default() };
    assert_eq!(compute_sleep_ms(&s, 0, 0, 0), 300_000);
}

#[test]
fn what_a_crash_left_is_told() {
    assert!(lock_note("/w/hunter.lock").starts_with(
        "another hunter process is already running (lock: /w/hunter.lock)\n  check:"
    ));
    let job = Job {
        id: 8,
        kind: JobKind::Finding(FindingJobKind::Fix),
        repo_id: 1,
        finding_id: Some(5),
        state: JobState::Running,
        pid: None,
        session_file: None,
        cap_tokens: None,
        tokens_new: None,
        calls: None,
        exit_code: None,
        killed_reason: None,
        notes: None,
        model: None,
        started_at: None,
        finished_at: None,
        repo_name: "demo".to_owned(),
    };
    let f = Finding {
        id: 5,
        kind: FindingType::Bug,
        repo_id: 1,
        fingerprint: "fp".to_owned(),
        file: None,
        symbol: None,
        line: None,
        severity: Severity::Low,
        summary: "s".to_owned(),
        detail: None,
        status: FindingStatus::Fixing,
        pr_url: None,
        created_at: 0,
        updated_at: 0,
        bug_class: None,
        evidence_plan: None,
        introduced_by: None,
        rung_achieved: None,
        verdict_reason: None,
        budget_override: None,
        fix_attempts: 0,
        last_fix_failure: None,
        recheck_attempts: 0,
        last_recheck_failure: None,
        ecosystem: None,
        package: None,
        current_version: None,
        latest_version: None,
        update_type: None,
        security_advisory: None,
        missing_tests: None,
        test_file: None,
        smell_type: None,
        suggested_refactor: None,
        modernization_class: None,
        current_approach: None,
        proposed_approach: None,
    };
    let effects = reconcile_and_log(&vec![f], &vec![job]);
    assert_eq!(effects.len(), 4);
    assert!(matches!(effects[0], Effect::SetStatus { finding: 5, status: FindingStatus::Queued }));
    match &effects[1] {
        Effect::OrphanJob { job, note } => {
            assert_eq!(*job, 8);
            assert_eq!(note, "reconciled at cycle startup -- prior process died mid-job");
        }
        _ => panic!("left running"),
    }
    match &effects[2] {
        Effect::Log { message, .. } => {
            assert_eq!(message, "reconciled #5 stuck 'fixing' -> 'queued' -- prior process died mid-fix")
        }
        _ => panic!("no log"),
    }
    match &effects[3] {
        Effect::Log { message, job, finding, .. } => {
            assert_eq!(message, "reconciled orphaned fix job #8 (finding Some(5)) -- prior process died mid-job");
            assert_eq!((*job, *finding), (Some(8), Some(5)));
        }
        _ => panic!("no log"),
    }
    assert!(reconcile_and_log(&vec![], &vec![]).is_empty());
}

fn word(value: &str) -> Json {
    Json::Text { value: value.to_owned(), text: format!("\"{value}\"") }
}

fn list(items: Vec<Json>) -> Json {
    Json::List { items, text: String::new() }
}

fn record(fields: Vec<(&str, Json)>) -> Json {
    let names = fields.iter().map(|(n, _)| (*n).to_owned()).collect();
    let values = fields.into_iter().map(|(_, v)| v).collect();
    Json::Record { names, values, text: String::new() }
}

#[test]
fn a_record_of_the_log_lists_its_updates() {
    let update = record(vec![("newVersion", word("1.1")), ("updateType", word("minor"))]);
    let dep = record(vec![
        ("depName", word("serde")),
        ("currentVersion", word("^1.0")),
        ("updates", list(vec![update])),
    ]);
    let file = record(vec![("packageFile", word("Cargo.toml")), ("deps", list(vec![dep]))]);
    let doc = record(vec![("config", record(vec![("cargo", list(vec![file]))]))]);
    let found = parse_record(&doc, "demo");
    assert_eq!(found.len(), 1);
    assert!(parse_record(&record(vec![("config", word("x"))]), "demo").is_empty());
    assert!(parse_record(&Json::Null, "demo").is_empty());
    let again = parse_record(&doc, "demo");
    assert_eq!(first_of_each(found.into_iter().chain(again).collect()).len(), 1);
}

const LOG: &str = "noise\n{\"config\":{\"cargo\":[{\"packageFile\":\"Cargo.toml\",\"deps\":[\
    {\"depName\":\"serde\",\"currentValue\":\"^1.0\",\"datasource\":\"crate\",\"updates\":[\
    {\"newVersion\":\"1.1\",\"updateType\":\"minor\"},{\"newValue\":\"2\",\"updateType\":\"major\"}]},\
    {\"packageName\":\"left\",\"currentVersion\":\"=3\",\"updates\":[{\"newVersion\":\"4\",\"updateType\":\"pin\",\
    \"isVulnerabilityAlert\":true}]},{\"depName\":5,\"packageName\":\"x\",\"updates\":[{}]}]}]}}\n";

#[test]
fn updates_are_read_from_the_log() {
    let v = parse_renovate_output(LOG, "demo");
    assert_eq!(v.len(), 3);
    assert_eq!(v[0].fingerprint, "demo:crate:serde:^1.0\u{2192}1.1");
    assert_eq!((v[0].severity.as_str(), v[0].confidence_pct), ("medium", 85));
    assert_eq!(v[0].current_version, "1.0");
    assert_eq!(v[0].summary, "serde: minor update ^1.0 \u{2192} 1.1");
    assert_eq!(v[0].detail, "serde (crate/cargo)\nCurrent: ^1.0\nAvailable: 1.1\nType: minor");
    assert_eq!(v[0].file, "Cargo.toml");
    assert_eq!((v[1].severity.as_str(), v[1].confidence_pct), ("high", 70));
    assert_eq!((v[1].update_type.as_str(), v[1].latest_version.as_str()), ("major", "2"));
    assert_eq!(v[2].fingerprint, "demo:cargo:left:=3\u{2192}4");
    assert_eq!((v[2].update_type.as_str(), v[2].severity.as_str()), ("patch", "high"));
    assert_eq!((v[2].current_version.as_str(), v[2].confidence_pct), ("3", 95));
}

#[test]
fn an_update_is_listed_once() {
    let twice = format!("{LOG}{LOG}");
    assert_eq!(parse_renovate_output(&twice, "demo").len(), 3);
    let v = parse_renovate_output(LOG, "demo");
    let mut again = v.clone();
    again.extend(v);
    assert_eq!(first_of_each(again).len(), 3);
}

#[test]
fn housekeeping_counts_as_a_patch() {
    for t in ["pin", "pinDigest", "digest", "lockFileMaintenance", "lockfileUpdate"] {
        assert_eq!(normalize_update_type(t), "patch");
    }
    assert_eq!(normalize_update_type("major"), "major");
    assert_eq!(scan_args(), ["npx", "renovate", "--platform=local", "--dry-run=lookup"]);
}
