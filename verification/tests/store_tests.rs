use hunter::domain::{FindingStatus, FindingType, JobKind, RepoJobKind, Severity};
use hunter::scheduler::resume::ChainStats;
use hunter::store::{
    append_repo_note, capacity_period, chain_of, delete_refusal, deleted_name, is_known, is_suppression,
    job_refusal, next_attempts, notes_path, produced_ids, repo_dir, replaced_note, repo_notes, resume_chain_stats,
    resume_origin_job, status_count, timeline, FindingFilter, Link, RepoUpdate, MAX_NOTES_CHARS,
};
use hunter::types::{Event, Finding};

fn finding(status: FindingStatus) -> Finding {
    Finding {
        id: 1,
        kind: FindingType::Bug,
        repo_id: 4,
        fingerprint: "fp".to_owned(),
        file: None,
        symbol: None,
        line: None,
        severity: Severity::Medium,
        summary: "s".to_owned(),
        detail: None,
        status,
        pr_url: None,
        created_at: 0,
        updated_at: 0,
        bug_class: None,
        evidence_plan: None,
        introduced_by: None,
        rung_achieved: None,
        verdict_reason: None,
        budget_override: None,
        fix_attempts: 0,
        last_fix_failure: None,
        recheck_attempts: 0,
        last_recheck_failure: None,
        ecosystem: None,
        package: None,
        current_version: None,
        latest_version: None,
        update_type: None,
        security_advisory: None,
        missing_tests: None,
        test_file: None,
        smell_type: None,
        suggested_refactor: None,
        modernization_class: None,
        current_approach: None,
        proposed_approach: None,
    }
}

fn event(id: i64, finding_id: Option<i64>) -> Event {
    Event { id, at: 0, kind: "k".to_owned(), message: "m".to_owned(), job_id: None, finding_id }
}

#[test]
fn repos_have_places_of_their_own() {
    assert_ne!(repo_dir("/w/repos", 1), repo_dir("/w/repos", 2));
    assert_ne!(notes_path("/w", 1), notes_path("/w", 2));
}

#[test]
fn shown_notes_are_bounded() {
    assert_eq!(repo_notes("short"), "short");
    let long = "n".repeat(MAX_NOTES_CHARS + 5);
    let shown = repo_notes(&long);
    assert_eq!(shown, format!("...(older notes truncated)...\n{}", "n".repeat(MAX_NOTES_CHARS)));
}

#[test]
fn a_note_is_dated() {
    assert_eq!(
        append_repo_note(true, "demo", "watch out", &Some("build".to_owned()), 0),
        "# Notes: demo\n\nLast updated: 1970-01-01\n\n## build\n- [1970-01-01 00:00] watch out\n\n"
    );
    assert_eq!(append_repo_note(false, "demo", "again", &None, 60), "- [1970-01-01 00:01] again\n\n");
}

#[test]
fn an_empty_change_is_noticed() {
    assert!(RepoUpdate::none().is_empty());
    let mut u = RepoUpdate::none();
    u.enabled = Some(0);
    assert!(!u.is_empty());
}

#[test]
fn a_repo_with_history_is_not_deleted() {
    assert_eq!(delete_refusal(3, 0, 0), None);
    assert_eq!(
        delete_refusal(3, 1, 2).as_deref(),
        Some("repo 3 has 1 finding(s) and 2 job(s) -- cannot delete without losing history; pause it instead")
    );
    assert!(deleted_name("demo", 3).contains("demo"));
    assert_ne!(deleted_name("demo", 3), "demo");
    assert!(job_refusal(3, JobKind::Repo(RepoJobKind::Hunt)).contains("hunt"));
}

#[test]
fn filters_admit_what_they_ask_for() {
    let f = finding(FindingStatus::New);
    assert!(FindingFilter::all().admits(&f));
    assert!(FindingFilter::in_status(FindingStatus::New).admits(&f));
    assert!(!FindingFilter::in_status(FindingStatus::Queued).admits(&f));
    let mut high = FindingFilter::all();
    high.min_severity_rank = Some(Severity::High.rank());
    assert!(!high.admits(&f));
    let mut other = FindingFilter::all();
    other.repo_id = Some(5);
    assert!(!other.admits(&f));
    let mut gap = FindingFilter::all();
    gap.kind = Some(FindingType::TestGap);
    assert!(!gap.admits(&f));
}

#[test]
fn settled_findings_are_suppressed_and_open_ones_known() {
    assert!(is_suppression(&finding(FindingStatus::Rejected), 4, FindingType::Bug));
    assert!(!is_suppression(&finding(FindingStatus::New), 4, FindingType::Bug));
    assert!(is_known(&finding(FindingStatus::New), 4, FindingType::Bug));
    assert!(!is_known(&finding(FindingStatus::New), 5, FindingType::Bug));
}

#[test]
fn only_the_same_failure_is_counted() {
    assert_eq!(next_attempts(&Some("a".to_owned()), 2, "a"), 3);
    assert_eq!(next_attempts(&Some("a".to_owned()), 2, "b"), 1);
    assert_eq!(next_attempts(&None, 0, "b"), 1);
}

#[test]
fn the_findings_of_a_job_are_listed() {
    assert_eq!(produced_ids("1,2,x,3"), vec![1, 2, 3]);
    assert!(produced_ids("").is_empty());
}

#[test]
fn a_timeline_is_in_order() {
    let events = vec![event(9, Some(1)), event(2, Some(1)), event(5, None), event(4, Some(2))];
    assert_eq!(timeline(&events, 1), vec![1, 0]);
    let tied = vec![event(3, Some(1)), event(3, Some(1)), event(1, Some(1))];
    assert_eq!(timeline(&tied, 1), vec![2, 0, 1]);
}

#[test]
fn statuses_are_counted() {
    let rows = vec![(FindingStatus::New, 3), (FindingStatus::Queued, 2)];
    assert_eq!(status_count(&rows, FindingStatus::Queued), 2);
    assert_eq!(status_count(&rows, FindingStatus::Merged), 0);
}

#[test]
fn a_chain_leads_to_its_origin() {
    let v = vec![
        Link { id: 5, resume_of: Some(3), tokens: 10 },
        Link { id: 3, resume_of: Some(1), tokens: 30 },
        Link { id: 1, resume_of: None, tokens: 20 },
        Link { id: 4, resume_of: None, tokens: 99 },
    ];
    let c = chain_of(&v, 5);
    assert_eq!(c.iter().map(|l| l.id).collect::<Vec<i64>>(), vec![5, 3, 1]);
    assert_eq!(resume_origin_job(&v, 5), 1);
    assert_eq!(resume_origin_job(&v, 4), 4);
    assert_eq!(resume_chain_stats(&c), Some(ChainStats { total: 60, max_single: 30, attempts: 3 }));
}

#[test]
fn a_chain_that_does_not_fit_has_no_stats() {
    let c = vec![
        Link { id: 2, resume_of: Some(1), tokens: i64::MAX },
        Link { id: 1, resume_of: None, tokens: i64::MAX },
    ];
    assert_eq!(resume_chain_stats(&c), None);
}

#[test]
fn capacities_have_periods() {
    assert_eq!(capacity_period("anthropic:5h"), Some(18_000_000));
    assert_eq!(capacity_period("nope"), None);
}

#[test]
fn a_suspended_job_is_told_who_took_its_place() {
    assert_eq!(replaced_note(8, true), "continued by job 8");
    assert_eq!(replaced_note(8, false), "superseded by job 8");
}
