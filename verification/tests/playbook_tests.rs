use hunter::domain::{
    FindingJobKind, FindingStatus, FindingType, ForgeName, RepoJobKind, Severity,
};
use hunter::forge::{GhAuthor, GhCheckRun, GhComment, Mergeable, PrState, PrView, ReviewDecision};
use hunter::playbooks::{
    build_finding_prompt, build_fix_prompt, build_hunt_prompt, build_scan_prompt, checks_lines, feedback_blocks, finding_subset, finding_template,
    known_block, notes_or_default, playbook_dir, render, scan_template, suppressions_block, FieldValue, Slots,
};
use hunter::types::{Finding, Repo};

fn slots(pairs: &[(&str, &str)]) -> Slots {
    let mut s = Slots::new();
    for (k, v) in pairs {
        s.put(k, v);
    }
    s
}

fn finding(id: i64) -> Finding {
    Finding {
        id,
        kind: FindingType::Bug,
        repo_id: 1,
        fingerprint: format!("fp-{id}"),
        file: Some("src/a.rs".to_owned()),
        symbol: None,
        line: Some(12),
        severity: Severity::High,
        summary: "off by one".to_owned(),
        detail: None,
        status: FindingStatus::Rejected,
        pr_url: None,
        created_at: 0,
        updated_at: 0,
        bug_class: None,
        evidence_plan: None,
        introduced_by: None,
        rung_achieved: None,
        verdict_reason: Some("by design".to_owned()),
        budget_override: None,
        fix_attempts: 0,
        last_fix_failure: None,
        recheck_attempts: 0,
        last_recheck_failure: None,
        ecosystem: None,
        package: None,
        current_version: None,
        latest_version: None,
        update_type: None,
        security_advisory: None,
        missing_tests: None,
        test_file: None,
        smell_type: None,
        suggested_refactor: None,
        modernization_class: None,
        current_approach: None,
        proposed_approach: None,
    }
}

fn repo() -> Repo {
    Repo {
        id: 1,
        name: "demo".to_owned(),
        url: "https://github.com/o/demo".to_owned(),
        path: "/repos/1".to_owned(),
        forge: ForgeName::Github,
        default_branch: "main".to_owned(),
        last_hunt_sha: None,
        last_hunt_at: None,
        enabled: 1,
        added_at: 0,
        last_full_hunt_at: None,
        last_test_gap_at: None,
        last_dep_update_at: None,
        last_refactor_at: None,
        last_modernization_at: None,
        last_standards_at: None,
    }
}

fn pr(comments: Vec<GhComment>) -> PrView {
    PrView {
        state: PrState::Open,
        mergeable: Mergeable::Mergeable,
        review_decision: ReviewDecision::Undecided,
        head_ref: "fix/x-1".to_owned(),
        head_sha: "abc".to_owned(),
        updated_at: String::new(),
        title: "t".to_owned(),
        body: "b".to_owned(),
        status_check_rollup: vec![],
        comments,
        reviews: vec![],
    }
}

fn comment(who: &str, at: &str, body: &str) -> GhComment {
    GhComment {
        author: Some(GhAuthor { login: who.to_owned() }),
        body: body.to_owned(),
        created_at: at.to_owned(),
    }
}

#[test]
fn substitutes_every_occurrence() {
    let out = render("{{A}}-{{B}}-{{A}}", &slots(&[("A", "1"), ("B", "2")])).unwrap();
    assert_eq!(out, "1-2-1");
}

#[test]
fn value_containing_braces_is_not_an_unfilled_placeholder() {
    let out = render(
        "body:\n{{PR_BODY}}",
        &slots(&[("PR_BODY", "use {{ mustache }} like this")]),
    )
    .unwrap();
    assert_eq!(out, "body:\nuse {{ mustache }} like this");
}

#[test]
fn value_naming_another_slot_is_not_expanded() {
    let out = render(
        "{{PR_BODY}} {{SECRET}}",
        &slots(&[("PR_BODY", "{{SECRET}}"), ("SECRET", "swordfish")]),
    )
    .unwrap();
    assert_eq!(out, "{{SECRET}} swordfish");
}

#[test]
fn unknown_template_key_is_rejected() {
    let err = render("hello {{TYPO}}", &slots(&[("NAME", "x")])).unwrap_err();
    assert!(err.contains("TYPO"), "{err}");
}

#[test]
fn unterminated_placeholder_is_rejected() {
    let err = render("hello {{NAME", &slots(&[("NAME", "x")])).unwrap_err();
    assert!(err.contains("unterminated"), "{err}");
}

#[test]
fn multibyte_around_placeholders_is_preserved() {
    let out = render("→{{A}}←", &slots(&[("A", "café")])).unwrap();
    assert_eq!(out, "→café←");
}

#[test]
fn an_unnamed_slot_is_ignored() {
    let out = render("plain", &slots(&[("A", "1")])).unwrap();
    assert_eq!(out, "plain");
}

#[test]
fn a_slot_put_twice_keeps_the_last_value() {
    let out = render("{{A}}", &slots(&[("A", "1"), ("A", "2")])).unwrap();
    assert_eq!(out, "2");
}

#[test]
fn playbooks_lie_below_the_root() {
    assert_eq!(playbook_dir("/srv/hunter"), "/srv/hunter/playbooks");
}

#[test]
fn blocks_without_findings_say_so() {
    let none: Vec<Finding> = vec![];
    assert!(!suppressions_block(&none).is_empty());
    assert!(!known_block(&none).is_empty());
    assert!(!suppressions_block(&none).contains("fp-"));
}

#[test]
fn blocks_name_each_finding() {
    let two = vec![finding(1), finding(2)];
    let s = suppressions_block(&two);
    assert!(s.contains("fp-1") && s.contains("fp-2") && s.contains("by design"));
    let k = known_block(&two);
    assert!(k.contains("fp-1") && k.contains("fp-2"));
}

#[test]
fn notes_fall_back_to_the_default() {
    assert_eq!(notes_or_default("", "none"), "none");
    assert_eq!(notes_or_default("be careful", "none"), "be careful");
}

#[test]
fn feedback_is_in_order_of_time() {
    let view = pr(vec![
        comment("b", "2024-01-02T00:00:00Z", "second"),
        comment("a", "2024-01-01T00:00:00Z", "first"),
    ]);
    let out = feedback_blocks(&view, 10_000);
    let first = out.find("first").unwrap();
    let second = out.find("second").unwrap();
    assert!(first < second);
}

#[test]
fn feedback_drops_the_oldest_where_it_is_too_long() {
    let view = pr(vec![
        comment("a", "2024-01-01T00:00:00Z", &"x".repeat(400)),
        comment("b", "2024-01-02T00:00:00Z", "latest"),
    ]);
    let out = feedback_blocks(&view, 200);
    assert!(out.contains("latest"));
    assert!(!out.contains(&"x".repeat(400)));
}

#[test]
fn checks_are_listed_by_name() {
    let mut view = pr(vec![]);
    view.status_check_rollup = vec![GhCheckRun {
        name: Some("build".to_owned()),
        context: None,
        conclusion: Some("FAILURE".to_owned()),
        state: None,
    }];
    let out = checks_lines(&view);
    assert!(out.contains("build"));
    assert!(out.contains("FAILURE"));
}

#[test]
fn a_finding_is_told_by_its_fields() {
    let fields = finding_subset(&finding(7));
    assert!(fields.iter().any(|(k, v)| k == "line" && matches!(v, FieldValue::Number { value: 12 })));
    assert!(fields
        .iter()
        .any(|(k, v)| k == "summary" && matches!(v, FieldValue::Text { value } if value == "off by one")));
    assert!(!fields.iter().any(|(k, _)| k == "symbol"));
}

#[test]
fn a_fix_prompt_fills_the_template() {
    let out = build_fix_prompt(
        "{{FINDING_JSON}}|{{WORKTREE}}|{{BRANCH}}|{{REPO_NAME}}",
        "{\"id\":7}",
        "/jobs/3/tree",
        "fix/off-by-one-7",
        &repo(),
        "",
    );
    match out {
        Ok(text) => assert!(text.starts_with("{\"id\":7}|/jobs/3/tree|fix/off-by-one-7")),
        Err(e) => assert!(e.contains("REPO_NAME"), "{e}"),
    }
}

#[test]
fn a_hunt_prompt_rejects_a_template_with_an_unknown_slot() {
    let none: Vec<Finding> = vec![];
    let out = build_hunt_prompt(
        "{{NO_SUCH_SLOT}}", &repo(), "/jobs/3/tree", "a..b", "note", &none, &none, "/out.json", 8, "",
    );
    assert!(out.unwrap_err().contains("NO_SUCH_SLOT"));
}

#[test]
fn each_kind_of_work_has_its_playbook() {
    assert_eq!(scan_template(RepoJobKind::Hunt), "hunt.md");
    assert_eq!(scan_template(RepoJobKind::Standards), "standards.md");
    let fix = |what| finding_template(FindingJobKind::Fix, what);
    assert_eq!(fix(FindingType::Bug), "fix.md");
    assert_eq!(fix(FindingType::Modernization), "apply_modernization.md");
    assert_eq!(fix(FindingType::DepUpdate), "apply_improvement.md");
    assert_eq!(finding_template(FindingJobKind::Recheck, FindingType::Bug), "recheck.md");
}

#[test]
fn work_on_a_finding_is_told_by_its_type() {
    let template = "{{FINDING_JSON}}|{{WORKTREE}}|{{BRANCH}}|{{REPO_NOTES}}";
    for kind in [FindingType::Bug, FindingType::Modernization, FindingType::Refactor] {
        let out = build_finding_prompt(kind, template, "{}", "/t", "fix/x", &repo(), "");
        assert_eq!(out.as_deref(), Ok("{}|/t|fix/x|(No notes yet)"));
    }
}

#[test]
fn each_scan_names_its_own_slots() {
    let none: Vec<Finding> = vec![];
    for (kind, template) in [
        (RepoJobKind::TestGap, "{{KNOWN_GAPS}}|{{MAX_GAPS}}"),
        (RepoJobKind::DepUpdate, "{{KNOWN_UPDATES}}|{{MAX_UPDATES}}"),
        (RepoJobKind::Refactor, "{{KNOWN_REFACTORS}}|{{MAX_REFACTORS}}"),
        (RepoJobKind::Modernization, "{{KNOWN_MODERNIZATIONS}}|{{MAX_MODERNIZATIONS}}"),
    ] {
        let out = build_scan_prompt(
            kind, template, &repo(), "/t", "all", &none, &none, "/o.json", 8, "",
        );
        assert_eq!(out.as_deref(), Ok("(none yet)|8"));
        let wrong = build_scan_prompt(
            kind, "{{MAX_FINDINGS}}", &repo(), "/t", "all", &none, &none, "/o.json", 8, "",
        );
        assert!(wrong.is_err());
    }
}
