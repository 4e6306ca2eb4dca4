use hunter::backends::omp_scavenge::harness::{
    ctx_at_suspension, env_passes, finish, ledger_dir_usage, ledger_usage, meter, read_usages,
    resume_lost, resume_refusal, resume_unavailable, run_session_dir, session_dir_unusable,
    sessions_root, spawn_failed, sum_usage, surplus_sessions, tail_str, watch, worker_args, Baseline,
    FileUsage, KillReason, Metered, Overflow, OutputTail, Usage, Watch, Watched, SESSIONS_RETAINED,
    TAIL_BYTES,
};

fn line(input: i64, output: i64) -> String {
    format!(
        "{{\"message\":{{\"role\":\"assistant\",\"usage\":{{\"input\":{input},\"output\":{output},\"cacheRead\":3,\"cacheWrite\":5}}}}}}"
    )
}

fn capped(cap: i64) -> Watch {
    Watch { cap: Some(cap), max_wall_s: 100, grace_s: 10, resumed: false }
}

fn metered(tokens: i64) -> Metered {
    Metered { session: Some("/s/a.jsonl".to_owned()), tokens, calls: 1 }
}

#[test]
fn test_tail_str_snaps_to_char_boundary() {
    let s = "€".repeat(1000);
    let tail = tail_str(&s);
    assert_eq!(tail.len(), 1998);
    assert!(s.ends_with(tail));
    assert!(tail.chars().all(|c| c == '€'));
}

#[test]
fn test_tail_str_keeps_short_input_whole() {
    assert_eq!(tail_str("héllo"), "héllo");
}

#[test]
fn test_drain_tail_retains_only_the_tail() {
    let mut src = vec![b'a'; TAIL_BYTES * 3];
    src.extend_from_slice(b"END");
    let mut out = OutputTail::new();
    for chunk in src.chunks(8192) {
        out.push(chunk);
    }
    assert_eq!(out.bytes.len(), TAIL_BYTES);
    assert!(out.bytes.ends_with(b"END"));
}

#[test]
fn the_tail_does_not_depend_on_the_chunks() {
    let src: Vec<u8> = (0..5000u32).map(|i| (i % 251) as u8).collect();
    let mut whole = OutputTail::new();
    whole.push(&src);
    let mut parts = OutputTail::new();
    for chunk in src.chunks(7) {
        parts.push(chunk);
    }
    assert_eq!(whole.bytes, parts.bytes);
    assert_eq!(whole.bytes, src[3000..].to_vec());
}

#[test]
fn a_deep_cwd_still_yields_a_creatable_session_dir() {
    let deep = format!("/{}/{}/{}", "x".repeat(80), "y".repeat(80), "z".repeat(80));
    let dir = run_session_dir("/tmp/hunter-slug", &deep, 1_790_000_000_000, 0);
    let component = dir.rsplit('/').next().expect("has a final component");
    assert!(
        component.len() <= 255,
        "session dir component is {} bytes, over NAME_MAX: {component:?}",
        component.len()
    );
}

#[test]
fn two_deep_worktrees_keep_distinct_session_dirs() {
    let base = format!("/{}/worktrees", "q".repeat(200));
    let a = run_session_dir("/tmp/root", &format!("{base}/f1"), 1, 0);
    let b = run_session_dir("/tmp/root", &format!("{base}/f2"), 1, 0);
    assert_ne!(a, b, "head-truncation would collide these");
}

#[test]
fn runs_of_one_process_do_not_share_a_directory() {
    let a = run_session_dir("/w", "/jobs/1/tree", 5, 0);
    let b = run_session_dir("/w", "/jobs/1/tree", 5, 1);
    assert_ne!(a, b);
    assert!(a.starts_with(&sessions_root("/w")));
}

#[test]
fn the_newest_sessions_are_kept() {
    let times: Vec<i64> = (0..60).collect();
    let surplus = surplus_sessions(&times);
    assert_eq!(surplus.len(), 60 - SESSIONS_RETAINED);
    assert!(surplus.iter().all(|i| times[*i] < 10));
}

#[test]
fn a_ledger_is_summed_over_its_calls() {
    let lines = vec![line(10, 20), "not json".to_owned(), line(1, 2)];
    assert_eq!(
        read_usages(&lines),
        vec![
            Usage { input: 10, output: 20, cache_read: 3, cache_write: 5 },
            Usage { input: 1, output: 2, cache_read: 3, cache_write: 5 },
        ]
    );
    let (tokens, calls) = ledger_usage(&lines).unwrap();
    assert_eq!(calls, 2);
    assert_eq!((tokens, calls), sum_usage(&read_usages(&lines)));
    assert_eq!(tokens, 10 + 20 + 5 + 1 + 2 + 5);
}

#[test]
fn a_ledger_that_does_not_fit_is_an_overflow() {
    let lines = vec![line(i64::MAX, 0), line(i64::MAX, 0)];
    assert_eq!(ledger_usage(&lines), Err(Overflow));
}

#[test]
fn the_context_is_that_of_the_last_call() {
    let lines = vec![line(10, 20), line(100, 2)];
    assert_eq!(ctx_at_suspension(&lines), Ok(Some(100 + 3 + 5)));
    assert_eq!(ctx_at_suspension(&vec![]), Ok(None));
}

#[test]
fn a_directory_of_ledgers_is_summed() {
    let files = vec![
        FileUsage { path: "/s/a.jsonl".to_owned(), tokens: 5, calls: 1 },
        FileUsage { path: "/s/b.jsonl".to_owned(), tokens: 7, calls: 2 },
    ];
    let all = ledger_dir_usage(&files).unwrap().unwrap();
    assert_eq!(all.tokens, 12);
    assert_eq!(all.calls, 3);
    assert!(ledger_dir_usage(&vec![]).unwrap().is_none());
}

#[test]
fn a_worker_over_its_cap_is_killed() {
    assert_eq!(watch(&capped(50), &metered(49), false, 5), Watched::Go);
    assert_eq!(
        watch(&capped(50), &metered(50), false, 5),
        Watched::Kill { reason: KillReason::Cap }
    );
}

#[test]
fn a_worker_without_a_ledger_is_killed_after_its_grace() {
    let none = Metered { session: None, tokens: 0, calls: 0 };
    assert_eq!(watch(&capped(50), &none, false, 5), Watched::Go);
    assert_eq!(
        watch(&capped(50), &none, false, 11),
        Watched::Kill { reason: KillReason::Unmetered }
    );
}

#[test]
fn a_worker_over_its_time_is_killed() {
    assert_eq!(
        watch(&capped(50), &metered(1), false, 100),
        Watched::Kill { reason: KillReason::Wallclock }
    );
}

#[test]
fn a_worker_that_ended_is_left_alone() {
    assert_eq!(watch(&capped(50), &metered(1), true, 5), Watched::Exited);
}

#[test]
fn a_continued_attempt_is_charged_for_what_it_added() {
    let base = Baseline { tokens: 100, calls: 3 };
    let reading = Some(FileUsage { path: "/s/a.jsonl".to_owned(), tokens: 130, calls: 5 });
    let m = meter(Metered { session: None, tokens: 0, calls: 0 }, &base, &reading);
    assert_eq!(m.tokens, 30);
    assert_eq!(m.calls, 2);
}

#[test]
fn the_total_never_falls_below_zero() {
    let base = Baseline { tokens: 100, calls: 3 };
    let reading = Some(FileUsage { path: "/s/a.jsonl".to_owned(), tokens: 90, calls: 1 });
    let m = meter(Metered { session: None, tokens: 0, calls: 0 }, &base, &reading);
    assert!(m.tokens >= 0);
    assert!(m.calls >= 0);
}

#[test]
fn an_unmetered_run_is_not_reported_as_done() {
    let w = capped(50);
    let none = Metered { session: None, tokens: 0, calls: 0 };
    let r = finish(&w, none, None, false, &Baseline { tokens: 0, calls: 0 }, &None, Some(0), "out");
    assert_eq!(r.killed_reason.as_deref(), Some("unmetered"));
}

#[test]
fn a_finished_run_tells_its_spend() {
    let reading = Some(FileUsage { path: "/s/a.jsonl".to_owned(), tokens: 42, calls: 2 });
    let r = finish(
        &capped(50), metered(40), None, false, &Baseline { tokens: 0, calls: 0 }, &reading, Some(0), "bye",
    );
    assert_eq!(r.killed_reason, None);
    assert_eq!(r.tokens_new, 42);
    assert_eq!(r.calls, 2);
    assert_eq!(r.exit_code, Some(0));
    assert_eq!(r.stdout_tail, "bye");
}

#[test]
fn a_transcript_that_lost_its_beginning_is_noticed() {
    assert!(!resume_lost(&b"abc".to_vec(), &b"abc".to_vec()));
    assert!(resume_lost(&b"abc".to_vec(), &b"xbc".to_vec()));
    assert!(resume_lost(&b"abc".to_vec(), &b"ab".to_vec()));
}

#[test]
fn refused_runs_have_their_reasons() {
    assert_eq!(resume_refusal(true, 10), None);
    assert!(resume_refusal(false, 10).is_some());
    assert!(resume_refusal(true, 0).is_some());
    let gone = resume_unavailable("/s/a.jsonl", "gone");
    assert_eq!(gone.killed_reason.as_deref(), Some("resume-unavailable"));
    assert!(gone.stdout_tail.contains("gone"));
    assert!(session_dir_unusable("/s", "denied").stdout_tail.contains("denied"));
    assert!(spawn_failed("no such file").stdout_tail.contains("no such file"));
}

#[test]
fn a_worker_is_started_with_its_prompt_and_session() {
    let args = worker_args("omp", "do it", "/s/1", &None, &Some("big".to_owned()), &None);
    assert_eq!(args, ["omp", "-p", "do it", "--session-dir=/s/1", "--model=big"]);
    let resumed = worker_args(
        "omp", "go on", "/s/1", &Some("/s/1/a.jsonl".to_owned()), &None, &Some("small".to_owned()),
    );
    assert_eq!(
        resumed,
        ["omp", "-p", "go on", "--session-dir=/s/1", "--resume=/s/1/a.jsonl", "--smol=small"]
    );
}

#[test]
fn only_some_of_the_environment_is_passed_on() {
    assert!(env_passes("PATH"));
    assert!(env_passes("HOME"));
    assert!(!env_passes("GITHUB_TOKEN"));
}

#[test]
fn reasons_of_a_kill_have_words() {
    assert_eq!(KillReason::Cap.as_str(), "cap");
    assert_eq!(KillReason::Unmetered.as_str(), "unmetered");
    assert_eq!(KillReason::Wallclock.as_str(), "wallclock");
}
