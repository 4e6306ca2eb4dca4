use hunter::backend::Verdict;
use hunter::domain::{FindingStatus, ForgeName, Severity};
use hunter::json::Json;
use hunter::scheduler::effects::Effect;
use hunter::server::{
    activity_status, candidate_budget, cleared_note, cycle_request, detail_id, findings_plan, host_name, new_repo,
    no_finding, no_repo, no_such_finding, note_request, noted, notes_key, override_note, override_request, param,
    parse_object, post_gate, repo_change, repo_exists, repo_key, require_int, require_localhost, serves,
    static_file, truthy, updated_note, valid_repo_name, valid_repo_url, verdict_effects,
    verdict_request, Activity, ApiError, FilePlan, FindingsPlan, OverrideRequest, RepoKey,
};
use hunter::types::{BudgetState, SchedulerState};

fn body(text: &str) -> Json {
    parse_object(&text.as_bytes().to_vec()).unwrap()
}

fn params(pairs: &[(&str, &str)]) -> Vec<(String, String)> {
    pairs.iter().map(|(k, v)| ((*k).to_owned(), (*v).to_owned())).collect()
}

fn refused<T>(r: Result<T, ApiError>) -> (u16, String) {
    match r {
        Ok(_) => panic!("accepted"),
        Err(e) => (e.status(), e.message()),
    }
}

#[test]
fn hosts_have_names() {
    assert_eq!(host_name("localhost:8377"), "localhost");
    assert_eq!(host_name("[::1]:8377"), "::1");
    assert_eq!(host_name("evil.example"), "evil.example");
}

#[test]
fn only_loopback_names_are_let_in() {
    for h in ["localhost", "localhost:8377", "127.0.0.1", "127.0.0.1:80", "[::1]:80"] {
        assert!(require_localhost(h).is_ok(), "{h}");
    }
    for h in ["evil.example", "localhost.evil.example", "127.0.0.1.evil:80"] {
        assert_eq!(refused(require_localhost(h)).0, 403, "{h}");
    }
}

#[test]
fn a_post_is_json() {
    assert!(post_gate("application/json").is_ok());
    assert!(post_gate("application/json; charset=utf-8").is_ok());
    assert_eq!(
        refused(post_gate("text/plain")),
        (415, "Content-Type must be application/json".to_owned())
    );
}

#[test]
fn a_body_is_an_object() {
    assert!(parse_object(&b"{\"a\":1}".to_vec()).is_ok());
    assert_eq!(refused(parse_object(&b"[1]".to_vec())).0, 400);
    assert_eq!(refused(parse_object(&b"nope".to_vec())).0, 400);
    assert_eq!(refused(parse_object(&vec![0xff, 0xfe])).0, 400);
}

#[test]
fn integers_are_required() {
    assert_eq!(require_int(&body("{\"id\":5}"), "id", "m").unwrap(), 5);
    assert_eq!(refused(require_int(&body("{\"id\":\"5\"}"), "id", "m")), (400, "m".to_owned()));
    assert_eq!(refused(require_int(&body("{\"id\":5.5}"), "id", "m")), (400, "m".to_owned()));
}

#[test]
fn values_are_set_or_not() {
    let b = body("{\"a\":0,\"b\":1,\"c\":\"\",\"d\":\"x\",\"e\":null,\"f\":false,\"g\":[],\"h\":[0]}");
    let set = |k: &str| truthy(b.get(k).unwrap());
    assert!(!set("a") && set("b") && !set("c") && set("d") && !set("e") && !set("f") && !set("g") && set("h"));
}

#[test]
fn repos_are_looked_up_by_id_or_name() {
    assert!(matches!(repo_key("12"), RepoKey::Id { id: 12 }));
    assert!(matches!(repo_key("demo"), RepoKey::Name { .. }));
    assert!(matches!(repo_key("99999999999999999999"), RepoKey::Nowhere));
    assert_eq!(param(&params(&[("a", "1")]), "a").as_deref(), Some("1"));
    assert_eq!(param(&params(&[("a", "1")]), "b"), None);
}

#[test]
fn unknown_filters_match_nothing() {
    assert!(matches!(findings_plan(&params(&[("status", "nope")]), None), FindingsPlan::Empty));
    assert!(matches!(findings_plan(&params(&[("type", "nope")]), None), FindingsPlan::Empty));
    match findings_plan(&params(&[("severity", "nope")]), None) {
        FindingsPlan::Refused { error } => assert_eq!(error.message(), "invalid severity nope"),
        _ => panic!("accepted"),
    }
    match findings_plan(&params(&[("repo", "demo")]), None) {
        FindingsPlan::Refused { error } => assert_eq!(error.message(), "unknown repo demo"),
        _ => panic!("accepted"),
    }
}

#[test]
fn filters_are_read() {
    match findings_plan(&params(&[("status", "new"), ("severity", "high"), ("repo", "demo")]), Some(4)) {
        FindingsPlan::List { filter, unified } => {
            assert!(unified);
            assert_eq!(filter.status, Some(FindingStatus::New));
            assert_eq!(filter.repo_id, Some(4));
            assert_eq!(filter.min_severity_rank, Some(Severity::High.rank()));
            assert_eq!(filter.kind, None);
        }
        _ => panic!("refused"),
    }
}

#[test]
fn details_and_notes_name_their_subject() {
    assert_eq!(detail_id(&params(&[("id", "3")])).unwrap(), 3);
    assert_eq!(refused(detail_id(&params(&[]))), (404, "no such finding".to_owned()));
    assert_eq!(refused(detail_id(&params(&[("id", "x")]))).0, 404);
    assert!(matches!(notes_key(&params(&[("id", "3")])).unwrap().0, RepoKey::Id { id: 3 }));
    assert_eq!(
        refused(notes_key(&params(&[("id", "x")]))),
        (400, "id query param must be an integer".to_owned())
    );
    assert_eq!(refused(notes_key(&params(&[]))).0, 400);
    assert_eq!(no_repo("x").status(), 404);
    assert_eq!(no_finding(3).status(), 404);
    assert_eq!(repo_exists("demo").status(), 409);
}

#[test]
fn files_of_known_types_are_served() {
    assert!(matches!(static_file("/"), FilePlan::Index));
    assert!(matches!(static_file("/index.html"), FilePlan::Index));
    assert!(matches!(static_file("/api/x.js"), FilePlan::NotFound));
    assert!(matches!(static_file("/secret.db"), FilePlan::NotFound));
    match static_file("/app.js") {
        FilePlan::Asset { content_type, relative } => {
            assert_eq!(content_type, "application/javascript; charset=utf-8");
            assert_eq!(relative, "app.js");
        }
        _ => panic!("not served"),
    }
    assert!(serves("/ui/app.js", "/ui"));
    assert!(!serves("/ui2/app.js", "/ui"));
    assert!(!serves("/ui", "/ui"));
}

#[test]
fn a_rejection_has_a_reason() {
    let r = verdict_request(&body("{\"id\":1,\"status\":\"rejected\"}"));
    assert_eq!(refused(r), (400, "reason required for status 'rejected'".to_owned()));
    let r = verdict_request(&body("{\"id\":1,\"status\":\"rejected\",\"reason\":\"  \"}"));
    assert_eq!(refused(r).0, 400);
    let v = verdict_request(&body("{\"id\":1,\"status\":\"rejected\",\"reason\":\" dup \"}")).unwrap();
    assert_eq!(v.reason.as_deref(), Some("dup"));
    let effects = verdict_effects(&v, "fp");
    assert!(effects.iter().any(|e| matches!(
        e,
        Effect::SetVerdict { finding: 1, status: FindingStatus::Rejected, .. }
    )));
}

#[test]
fn a_verdict_gives_a_status_that_can_be_given() {
    let r = verdict_request(&body("{\"id\":1,\"status\":\"fixing\"}"));
    assert_eq!(
        refused(r).1,
        "status must be one of ['queued', 'rejected', 'wontfix', 'note', 'merged']"
    );
    assert_eq!(refused(verdict_request(&body("{\"status\":\"queued\"}"))).1, "id must be an integer");
    let r = verdict_request(&body("{\"id\":1,\"status\":\"queued\",\"reason\":5}"));
    assert_eq!(refused(r).1, "reason must be a string");
}

#[test]
fn overrides_are_changed_or_cleared() {
    assert!(matches!(
        override_request(&body("{\"id\":\"all\",\"mode\":null}")).unwrap(),
        OverrideRequest::ClearAll
    ));
    match override_request(&body("{\"id\":3,\"mode\":\"once\"}")).unwrap() {
        OverrideRequest::Change { id, mode } => {
            assert_eq!((id, mode.as_deref()), (3, Some("once")));
        }
        OverrideRequest::ClearAll => panic!("cleared"),
    }
    assert_eq!(
        refused(override_request(&body("{\"id\":3,\"mode\":\"twice\"}"))).1,
        "mode must be 'once', 'exempt', or null"
    );
    assert_eq!(
        refused(override_request(&body("{\"id\":\"all\",\"mode\":\"once\"}"))).1,
        "id must be an integer (or 'all' with mode=null)"
    );
    assert_eq!(override_note(3, &None), "#3 budget override: cleared");
    assert_eq!(cleared_note(2), "cleared all budget overrides (2 findings)");
}

#[test]
fn addresses_that_execute_are_refused() {
    for u in ["https://h/x", "ssh://h/x", "git@h:o/r.git", "/local/path"] {
        assert!(valid_repo_url(u), "{u}");
    }
    for u in ["javascript:alert(1)", "DATA:text/html,x", "file:///etc"] {
        assert!(!valid_repo_url(u), "{u}");
    }
}

#[test]
fn names_of_repos_leave_no_directory() {
    for n in ["demo", "a.b-c_d", "_x"] {
        assert!(valid_repo_name(n), "{n}");
    }
    for n in ["", ".", "..", "a/b", "-x", "a b"] {
        assert!(!valid_repo_name(n), "{n}");
    }
}

#[test]
fn a_new_repo_is_read() {
    let r = new_repo(&body("{\"name\":\" demo \",\"url\":\"https://github.com/o/r\"}")).unwrap();
    assert_eq!((r.name.as_str(), r.branch.as_str(), r.forge), ("demo", "main", ForgeName::Github));
    assert_eq!(refused(new_repo(&body("{\"name\":\"a/b\",\"url\":\"u\"}"))).1, "invalid repo name");
    assert_eq!(refused(new_repo(&body("{\"name\":\"demo\"}"))).1, "name and url are required");
    assert_eq!(
        refused(new_repo(&body("{\"name\":\"demo\",\"url\":\"javascript:x\"}"))).1,
        "url must be http(s) or an ssh clone URL"
    );
    assert_eq!(
        refused(new_repo(&body("{\"name\":\"demo\",\"url\":\"u\",\"forge\":\"svn\"}"))).1,
        "unknown forge 'svn' (choose from github, gitlab)"
    );
}

#[test]
fn a_repo_is_changed_in_what_can_be_used() {
    let c = repo_change(&body("{\"enabled\":false,\"url\":\" https://h/x \",\"forge\":\"svn\"}")).unwrap();
    assert_eq!(c.fields.enabled, Some(0));
    assert_eq!(c.fields.url.as_deref(), Some("https://h/x"));
    assert_eq!(c.fields.forge, None);
    assert_eq!(c.action, ["enabled=0", "url=https://h/x"]);
    assert_eq!(refused(repo_change(&body("{}"))).1, "no valid fields to update");
    assert!(updated_note("demo", &c.action).contains("enabled=0"));
}

#[test]
fn notes_are_read() {
    let n = note_request(&body("{\"id\":3,\"note\":\" hi \",\"category\":\"build\"}")).unwrap();
    assert_eq!((n.id, n.note.as_str(), n.category.as_deref()), (3, "hi", Some("build")));
    assert_eq!(
        refused(note_request(&body("{\"id\":3,\"note\":\" \"}"))).1,
        "note must be a non-empty string"
    );
    assert_eq!(
        refused(note_request(&body("{\"id\":3,\"note\":\"x\",\"category\":5}"))).1,
        "category must be a string"
    );
    assert_eq!(noted("demo", &Some("build".to_owned())), "note added to demo [build]");
}

#[test]
fn the_activity_is_told() {
    let error = Some(SchedulerState {
        id: 1,
        state: "error".to_owned(),
        detail: String::new(),
        next_wake_at: None,
        updated_at: 0,
    });
    assert_eq!(activity_status(true, true, &error, None), Activity::Running);
    assert_eq!(activity_status(false, true, &error, None), Activity::Working);
    assert_eq!(activity_status(false, false, &error, None), Activity::Error);
    assert_eq!(activity_status(false, false, &None, Some(BudgetState::Denied)), Activity::Paused);
    assert_eq!(activity_status(false, false, &None, Some(BudgetState::Allowed)), Activity::Ready);
    assert_eq!(activity_status(false, false, &None, None), Activity::WarmingUp);
}

#[test]
fn the_budget_of_a_candidate_is_told() {
    let v = Verdict::Denied { reason: "over".to_owned(), retry_at: Some(5) };
    assert_eq!(candidate_budget(&v), (BudgetState::Denied, "over".to_owned(), Some(5)));
    let v = Verdict::Granted { cap_tokens: Some(1), reason: "ok".to_owned() };
    assert_eq!(candidate_budget(&v), (BudgetState::Allowed, "ok".to_owned(), None));
}

#[test]
fn one_cycle_runs_at_a_time() {
    assert!(cycle_request(false).is_ok());
    assert!(matches!(cycle_request(true), Err(ApiError::Conflict { message }) if message == "busy"));
    assert!(matches!(no_such_finding(), ApiError::NotFound { message } if message == "no such finding"));
}
