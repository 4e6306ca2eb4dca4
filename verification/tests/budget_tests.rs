use hunter::backend::{deny_without_data, esc, JobClass, NullBackend, Outlook, Verdict};
use hunter::backends::omp_scavenge::capacity::{has_ended, is_running, period_of, roll_window, Rolled};
use hunter::backends::omp_scavenge::facade::{
    calibrates, compute_headroom, decide_inner, decide_with_windows, invalidate_args, probe_at,
    render_bar, render_status, reserve, reset_text, usage_args, window_label, Bar, Reserved, WindowFacts,
};
use hunter::backends::omp_scavenge::provider::{LlmProvider, FIVE_H_MS, WEEK_MS};

const NOW: i64 = 1_700_000_000_000;

fn window(id: &str, over: bool) -> WindowFacts {
    WindowFacts {
        limit_id: id.to_owned(),
        status: None,
        resets_at: Some(NOW + 1_000_000),
        recorded_at: NOW - 5,
        has_fraction: true,
        over,
        retry_at: Some(NOW + 60_000),
        reason: format!("{id} over"),
        override_cap: 70,
        ramp_cap: 100,
        full_cap: 500,
    }
}

#[test]
fn providers_are_read_by_name() {
    for p in [LlmProvider::Anthropic, LlmProvider::OpenAiCodex] {
        assert_eq!(LlmProvider::parse(p.name()), Some(p));
        let w = p.windows();
        assert!(!p.is_long_window(w.short.limit_id));
        assert!(p.is_long_window(w.long.limit_id));
        assert_eq!((w.short.period_ms, w.long.period_ms), (FIVE_H_MS, WEEK_MS));
    }
    assert_eq!(LlmProvider::parse("other"), None);
}

#[test]
fn an_exhausted_anthropic_window_is_a_hard_stop() {
    let s = Some("exhausted".to_owned());
    assert!(LlmProvider::Anthropic.hard_stop(&s));
    assert!(!LlmProvider::OpenAiCodex.hard_stop(&s));
    assert!(!LlmProvider::Anthropic.hard_stop(&None));
}

#[test]
fn periods_belong_to_their_windows() {
    assert_eq!(period_of(LlmProvider::Anthropic, "anthropic:5h"), Some(18_000_000));
    assert_eq!(period_of(LlmProvider::Anthropic, "anthropic:7d"), Some(604_800_000));
    assert_eq!(period_of(LlmProvider::Anthropic, "anthropic:opus"), None);
}

#[test]
fn a_window_that_ended_is_carried_on() {
    let end = NOW - FIVE_H_MS - 7;
    assert!(has_ended(Some(end), NOW));
    assert_eq!(
        roll_window(LlmProvider::Anthropic, "anthropic:5h", Some(end), NOW),
        Rolled::Forward { resets_at: NOW - 7 + FIVE_H_MS, recorded_at: NOW - 7 }
    );
    assert!(is_running(Some(NOW - 7 + FIVE_H_MS), NOW));
}

#[test]
fn a_running_window_is_kept_and_an_unknown_one_dropped() {
    assert_eq!(roll_window(LlmProvider::Anthropic, "anthropic:5h", Some(NOW + 1), NOW), Rolled::Keep);
    assert_eq!(roll_window(LlmProvider::Anthropic, "anthropic:5h", None, NOW), Rolled::Keep);
    assert_eq!(roll_window(LlmProvider::Anthropic, "anthropic:x", Some(NOW - 1), NOW), Rolled::Drop);
}

#[test]
fn reservations_are_sums() {
    assert_eq!(
        reserve(100, 40, 7, 9),
        Reserved { gate_short: 147, gate_long: 149, budget_short: 107, budget_long: 109 }
    );
}

#[test]
fn without_readings_nothing_is_granted() {
    let v = decide_with_windows(LlmProvider::Anthropic, &vec![], NOW);
    assert!(!v.normal.is_granted());
    assert!(!v.prioritized.is_granted());
    match deny_without_data() {
        Verdict::Denied { reason, retry_at } => {
            assert_eq!(reason, "no window data -- deny until fresh");
            assert_eq!(retry_at, None);
        }
        Verdict::Granted { .. } => panic!("granted without data"),
    }
}

#[test]
fn a_free_window_grants_its_headroom() {
    let v = vec![window("anthropic:5h", false), window("anthropic:7d", false)];
    assert_eq!(compute_headroom(LlmProvider::Anthropic, &v, false, NOW), Some(100));
    match decide_inner(LlmProvider::Anthropic, &v, false, NOW) {
        Verdict::Granted { cap_tokens, reason } => {
            assert_eq!(cap_tokens, Some(100));
            assert_eq!(reason, "ok");
        }
        Verdict::Denied { .. } => panic!("denied"),
    }
    match decide_with_windows(LlmProvider::Anthropic, &v, NOW).prioritized {
        Verdict::Granted { cap_tokens, .. } => assert_eq!(cap_tokens, Some(500)),
        Verdict::Denied { .. } => panic!("denied"),
    }
}

#[test]
fn a_long_window_that_is_over_denies_but_for_priority() {
    let v = vec![window("anthropic:5h", false), window("anthropic:7d", true)];
    let o = decide_with_windows(LlmProvider::Anthropic, &v, NOW);
    match &o.normal {
        Verdict::Denied { reason, retry_at } => {
            assert_eq!(reason, "anthropic:7d over");
            assert_eq!(*retry_at, Some(NOW + 60_000));
        }
        Verdict::Granted { .. } => panic!("granted"),
    }
    match &o.prioritized {
        Verdict::Granted { cap_tokens, reason } => {
            assert_eq!(*cap_tokens, Some(70));
            assert_eq!(reason, "prio override (anthropic:7d over)");
        }
        Verdict::Denied { .. } => panic!("denied"),
    }
}

#[test]
fn an_exhausted_long_window_stops_even_priority() {
    let mut w = window("anthropic:7d", true);
    w.status = Some("exhausted".to_owned());
    let o = decide_with_windows(LlmProvider::Anthropic, &vec![w], NOW);
    match o.prioritized {
        Verdict::Denied { retry_at, .. } => assert_eq!(retry_at, Some(NOW + 1_000_000)),
        Verdict::Granted { .. } => panic!("granted"),
    }
}

#[test]
fn a_short_window_holds_only_while_it_runs() {
    let mut w = window("anthropic:5h", true);
    assert!(!decide_inner(LlmProvider::Anthropic, &vec![w.clone()], false, NOW).is_granted());
    w.resets_at = Some(NOW - 1);
    match decide_inner(LlmProvider::Anthropic, &vec![w], false, NOW) {
        Verdict::Granted { cap_tokens, .. } => assert_eq!(cap_tokens, None),
        Verdict::Denied { .. } => panic!("denied"),
    }
}

#[test]
fn the_verdict_follows_the_priority() {
    let o = Outlook {
        normal: deny_without_data(),
        prioritized: Verdict::Granted { cap_tokens: None, reason: "ok".to_owned() },
    };
    assert!(!o.choose_verdict(false).is_granted());
    assert!(o.choose_verdict(true).is_granted());
}

#[test]
fn the_reading_of_a_window_is_found_by_name() {
    let mut a = window("anthropic:5h", false);
    a.recorded_at = 10;
    let mut b = window("anthropic:7d", false);
    b.recorded_at = 5;
    let v = vec![a, b];
    assert_eq!(probe_at(&v, "anthropic:5h"), 10);
    assert_eq!(probe_at(&v, "missing"), 5);
    assert_eq!(probe_at(&vec![], "missing"), 0);
}

#[test]
fn only_a_rise_within_one_period_calibrates() {
    assert!(calibrates(Some(100), true, 150, 60, 10));
    assert!(!calibrates(Some(100), true, 161, 60, 10));
    assert!(!calibrates(Some(100), false, 150, 60, 10));
    assert!(!calibrates(Some(100), true, 150, 60, 0));
    assert!(!calibrates(None, true, 150, 60, 10));
}

#[test]
fn usage_is_asked_of_a_provider() {
    assert_eq!(usage_args("omp", LlmProvider::Anthropic), ["omp", "usage", "--provider", "anthropic"]);
    assert_eq!(
        invalidate_args("omp", LlmProvider::OpenAiCodex),
        ["omp", "usage", "invalidate", "--provider", "openai-codex"]
    );
}

#[test]
fn windows_have_labels_and_resets() {
    assert_eq!(window_label(LlmProvider::Anthropic, "anthropic:5h"), "5h window");
    assert_eq!(window_label(LlmProvider::Anthropic, "anthropic:7d-opus"), "7d-opus window");
    assert_eq!(reset_text(None, NOW), "reset unknown");
    assert_eq!(reset_text(Some(NOW), NOW), "resetting");
    assert_eq!(
        reset_text(Some(7_500_000), 0),
        "resets <time data-ms=\"7500000\"></time> (2h05m)"
    );
    assert_eq!(reset_text(Some(300_000), 0), "resets <time data-ms=\"300000\"></time> (5m)");
}

#[test]
fn a_bar_is_escaped_markup() {
    let bar = Bar {
        label: "<5h>".to_owned(),
        used: "10%".to_owned(),
        in_flight: String::new(),
        available: String::new(),
        stale: false,
        exhausted: true,
        fill_pct: 10,
        soft_pct: 20,
        ramp_pct: Some(30),
        reset: "resetting".to_owned(),
        headroom: String::new(),
        probed: "now".to_owned(),
    };
    let html = render_bar(&bar);
    assert!(html.contains("&lt;5h&gt;"));
    assert!(html.contains("scv-bad"));
    assert!(html.contains("left:30%"));
    assert!(render_status(&vec![bar]).contains(&html));
}

#[test]
fn escaped_text_holds_no_markup() {
    assert_eq!(esc("a<b>&\"c'"), "a&lt;b&gt;&amp;&quot;c&#x27;");
    assert!(!esc("<script>\"'").contains(|c| c == '<' || c == '>' || c == '"' || c == '\''));
}

#[test]
fn a_null_backend_does_nothing() {
    let b = NullBackend;
    assert!(!b.decide(1).normal.is_granted());
    assert!(!b.decide(1).prioritized.is_granted());
    assert!(!b.keep_fresh());
    assert_eq!(b.run_refusal(), "NullBackend cannot run workers");
    assert!(b.status_html().contains("No window data"));
    assert_eq!((JobClass::Hunt.as_str(), JobClass::Fix.as_str()), ("hunt", "fix"));
}
