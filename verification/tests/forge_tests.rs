use hunter::domain::ForgeName;
use hunter::forge::{
    close_pr, command_outcome, comment_pr, created_pr, detect_forge, forge_for, gh_pr_view, gh_slug, gitlab_norm_mergeable,
    gitlab_norm_pipeline, gitlab_norm_state, gitlab_split_notes, gitlab_view, glab_path, is_github_host, mr_path,
    pick_first, push_args, read_gh_document, url_host, CheckConclusion, Forge, GlAuthor, GlMergeRequest,
    GlNote, Mergeable, PrState, ReviewDecision,
};

fn mr() -> GlMergeRequest {
    GlMergeRequest {
        state: "opened".to_owned(),
        detailed_merge_status: Some("conflict".to_owned()),
        merge_status: None,
        source_branch: "fix/x-1".to_owned(),
        sha: "abc".to_owned(),
        updated_at: "2024-01-01T00:00:00Z".to_owned(),
        title: "t".to_owned(),
        description: "d".to_owned(),
        head_pipeline: Some("failed".to_owned()),
        pipeline: None,
    }
}

fn note(body: &str, system: bool) -> GlNote {
    GlNote {
        body: body.to_owned(),
        author: Some(GlAuthor { username: "u".to_owned() }),
        created_at: "2024-01-01T00:00:00Z".to_owned(),
        updated_at: "2024-01-01T00:00:00Z".to_owned(),
        system,
        note_type: None,
    }
}

#[test]
fn hosts_are_found_in_remotes() {
    assert_eq!(url_host("https://github.com/o/r.git").as_deref(), Some("github.com"));
    assert_eq!(url_host("HTTPS://github.com/o/r.git").as_deref(), Some("github.com"));
    assert_eq!(url_host("git@github.com:o/r.git").as_deref(), Some("github.com"));
    assert!(is_github_host("github.com"));
    assert!(!is_github_host("gitlab.com"));
}

#[test]
fn remotes_are_classified() {
    assert_eq!(detect_forge("https://github.com/o/r"), ForgeName::Github);
    assert_eq!(detect_forge("https://gitlab.com/g/s/r"), ForgeName::Gitlab);
    assert_eq!(gh_slug("https://github.com/o/r.git").as_deref(), Ok("o/r"));
    assert!(gh_slug("nonsense").is_err());
    assert!(glab_path("nonsense").is_err());
    assert_eq!(glab_path("https://gitlab.com/g/s/r.git").as_deref(), Ok("g/s/r"));
}

#[test]
fn a_remote_that_is_github_is_operable() {
    let url = "https://github.com/o/r.git";
    assert_eq!(detect_forge(url), ForgeName::Github);
    assert_eq!(forge_for(ForgeName::Github).owner_repo(url), Some(("o".to_owned(), "r".to_owned())));
}

#[test]
fn addresses_of_pull_requests_are_read() {
    let gh = forge_for(ForgeName::Github);
    assert_eq!(gh.parse_pr_url("https://github.com/o/r/pull/12"), Some(("o/r".to_owned(), 12)));
    assert_eq!(gh.parse_pr_url("https://github.com/o/r"), None);
    let gl = forge_for(ForgeName::Gitlab);
    assert_eq!(
        gl.parse_pr_url("https://gitlab.com/g/s/r/-/merge_requests/7"),
        Some(("g/s/r".to_owned(), 7))
    );
}

#[test]
fn a_push_stays_on_the_host() {
    assert_eq!(forge_for(ForgeName::Github).ssh_url("https://github.com/o/r"), "git@github.com:o/r.git");
    let args = push_args(ForgeName::Github, "https://github.com/o/r", "HEAD");
    assert!(args.iter().any(|a| a == "git@github.com:o/r.git"));
}

#[test]
fn outcomes_of_commands_are_told() {
    assert_eq!(command_outcome("gh pr close", 0, "fine"), Ok(()));
    let err = command_outcome("gh pr close", 1, "boom").unwrap_err();
    assert!(err.contains("gh pr close") && err.contains("boom"));
}

#[test]
fn the_address_of_a_new_pull_request_is_found() {
    let url = created_pr(ForgeName::Github, 0, "Creating...\nhttps://github.com/o/r/pull/5\n").unwrap();
    assert_eq!(url, "https://github.com/o/r/pull/5");
    assert!(created_pr(ForgeName::Github, 1, "denied").is_err());
}

#[test]
fn a_github_view_is_read() {
    let doc = read_gh_document(
        0,
        "{\"state\":\"OPEN\",\"mergeable\":\"CONFLICTING\",\"reviewDecision\":\"CHANGES_REQUESTED\",\
         \"headRefName\":\"fix/x-1\",\"headRefOid\":\"abc\",\"updatedAt\":\"2024-01-01T00:00:00Z\",\
         \"title\":\"T\",\"body\":\"B\"}",
    )
    .unwrap();
    let v = gh_pr_view(&doc, vec![], vec![], vec![]);
    assert_eq!(v.state, PrState::Open);
    assert_eq!(v.mergeable, Mergeable::Conflicting);
    assert_eq!(v.review_decision, ReviewDecision::ChangesRequested);
    assert_eq!((v.head_ref.as_str(), v.head_sha.as_str()), ("fix/x-1", "abc"));
    assert!(read_gh_document(1, "gh: not found").is_err());
    assert!(read_gh_document(0, "not json").is_err());
}

#[test]
fn a_gitlab_view_is_normalised() {
    assert_eq!(gitlab_norm_state("opened"), PrState::Open);
    assert_eq!(gitlab_norm_state("merged"), PrState::Merged);
    assert_eq!(gitlab_norm_state("closed"), PrState::Closed);
    assert_eq!(gitlab_norm_mergeable(&mr()), Mergeable::Conflicting);
    let runs = gitlab_norm_pipeline(&mr());
    assert_eq!(runs.len(), 1);
    let end = pick_first(&runs[0].conclusion, &runs[0].state, "");
    assert!(CheckConclusion::parse(&end).is_failing());
    assert_eq!(mr_path("g/s/r", 7), "projects/g%2Fs%2Fr/merge_requests/7");
}

#[test]
fn system_notes_are_left_out() {
    let (comments, reviews) = gitlab_split_notes(&vec![note("hello", false), note("changed milestone", true)]);
    assert_eq!(comments.len() + reviews.len(), 1);
}

#[test]
fn checks_end_in_words() {
    assert!(CheckConclusion::parse("FAILURE").is_failing());
    assert!(CheckConclusion::parse("SUCCESS").is_passing());
    assert!(!CheckConclusion::parse("").is_passing());
    assert!(!CheckConclusion::parse("").is_failing());
}

#[test]
fn the_reason_for_a_close_lands_first() {
    let steps = close_pr(ForgeName::Github, "https://github.com/o/r", 5, "not a bug").unwrap();
    assert_eq!(steps.len(), 2);
    assert_eq!(steps[0].what, "gh pr comment");
    assert_eq!(steps[0].argv[7], "not a bug");
    let long = close_pr(ForgeName::Github, "https://github.com/o/r", 5, &"x".repeat(900)).unwrap();
    assert_eq!(long[0].argv[7].len(), 800);
    assert_eq!(steps[1].argv[..4], ["gh", "pr", "close", "5"]);
    let steps = close_pr(ForgeName::Gitlab, "https://gitlab.com/g/r", 5, "not a bug").unwrap();
    assert_eq!(steps[0].what, "glab api POST notes");
    assert!(close_pr(ForgeName::Github, "nonsense", 5, "x").is_err());
    let note = comment_pr(ForgeName::Gitlab, "https://gitlab.com/g/r", 5, "hi").unwrap();
    assert_eq!(note.timeout_s, 30);
    assert!(comment_pr(ForgeName::Gitlab, "nonsense", 5, "hi").is_err());
}

#[test]
fn gitlab_remarks_are_oldest_first_and_have_no_verdict() {
    let mut line = note("at a line", false);
    line.note_type = Some("DiffNote".to_owned());
    let listed = vec![note("newer", false), line, note("older", false)];
    let pr = gitlab_view(mr(), listed, true);
    let said: Vec<&str> = pr.comments.iter().map(|c| c.body.as_str()).collect();
    assert_eq!(said, ["older", "newer"]);
    assert_eq!(pr.reviews.len(), 1);
    assert_eq!(pr.reviews[0].body, "at a line");
    assert_eq!(pr.reviews[0].state, "");
    assert_eq!(pr.title, "t");
    let brief = gitlab_view(mr(), Vec::new(), false);
    assert_eq!(brief.title, "");
    assert!(brief.comments.is_empty() && brief.reviews.is_empty());
}

#[test]
fn every_form_of_a_remote_has_the_same_host() {
    for url in [
        "https://git.example.org/o/r.git",
        "http://git.example.org/o/r.git",
        "ssh://git@git.example.org/o/r.git",
        "ssh://git@git.example.org:2222/o/r.git",
        "git@git.example.org:o/r.git",
        "git.example.org:o/r.git",
    ] {
        assert_eq!(url_host(url).as_deref(), Some("git.example.org"), "{url}");
    }
}
