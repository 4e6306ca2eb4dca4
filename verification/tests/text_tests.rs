use hunter::domain::{
    BugClass, FindingJobKind, FindingStatus, FindingType, ForgeName, JobKind, JobState, RepoJobKind,
    Severity,
};
use hunter::text::{
    cut_once, int_to_text, join_texts, less, lines_of, only_digits, read_i64, read_u16, read_u32,
    remove_all, replace_text, rcut_once, split_text, take_chars, to_lower, to_upper, trim_text, words_of,
    Cut,
};
use hunter::time::{civil_from_days, civil_to_days, iso_ms, pad, parse_tz_offset, utc_date_time};
use hunter::util::{can_cut, head, join_path, path_starts_with, tail};

#[test]
fn numbers_are_read_back() {
    for n in [0, 1, -1, 42, i64::MAX, i64::MIN] {
        assert_eq!(read_i64(&int_to_text(n)), Some(n));
        assert_eq!(int_to_text(n), n.to_string());
    }
    assert_ne!(int_to_text(1), int_to_text(-1));
}

#[test]
fn what_is_no_number_is_not_read() {
    for s in ["", "+", "-", "1x", " 1", "9223372036854775808", "-9223372036854775809"] {
        assert_eq!(read_i64(s), None, "{s}");
    }
    assert_eq!(read_i64("+7"), Some(7));
    assert_eq!(read_u32("-0"), None);
    assert_eq!(read_u32("4294967295"), Some(u32::MAX));
    assert_eq!(read_u16("65536"), None);
    assert_eq!(read_u16("8377"), Some(8377));
}

#[test]
fn texts_are_split_as_std_splits_them() {
    for s in ["", "a", "a\n", "a\nb", "a\r\nb\r\n", "\n\n", "a\rb"] {
        let want: Vec<&str> = s.lines().collect();
        assert_eq!(lines_of(s), want, "{s:?}");
    }
    for s in ["", "  ", "a b", " a\tb\nc "] {
        let want: Vec<&str> = s.split_whitespace().collect();
        assert_eq!(words_of(s), want, "{s:?}");
        assert_eq!(trim_text(s, Cut::White), s.trim());
    }
    for s in ["", "-", "a-b", "--a"] {
        let want: Vec<&str> = s.split('-').collect();
        assert_eq!(split_text(s, Cut::At('-')), want, "{s:?}");
    }
}

#[test]
fn texts_are_cut_at_the_first_and_the_last() {
    assert_eq!(cut_once("a::b::c", "::"), Some(("a".to_owned(), "b::c".to_owned())));
    assert_eq!(rcut_once("a::b::c", "::"), Some(("a::b".to_owned(), "c".to_owned())));
    assert_eq!(cut_once("abc", "::"), None);
}

#[test]
fn texts_are_changed_as_std_changes_them() {
    assert_eq!(to_lower("MiXed-É"), "MiXed-É".to_ascii_lowercase());
    assert_eq!(to_upper("MiXed-é"), "MiXed-é".to_ascii_uppercase());
    assert_eq!(replace_text("a/b/c", '/', "%2F"), "a%2Fb%2Fc");
    assert_eq!(remove_all("xaxbx", "x"), "ab");
    assert_eq!(take_chars("héllo", 2), "hé");
    assert_eq!(join_texts(&vec!["a".to_owned(), "b".to_owned()], ", "), "a, b");
    assert!(only_digits("0123") && !only_digits("12a"));
    assert!(less("a", "b") && less("a", "ab") && !less("b", "a") && !less("a", "a"));
}

#[test]
fn ends_and_beginnings_keep_characters_whole() {
    assert_eq!(tail("abcdef", 3), "def");
    assert_eq!(tail("a€", 3), "€");
    assert_eq!(tail("a€", 2), "");
    assert_eq!(head("abcdef", 3), "abc");
    assert_eq!(head("ab", 3), "ab");
    assert!(can_cut("abcdef", 3) && !can_cut("a€", 2));
}

#[test]
fn paths_are_joined_and_compared_by_component() {
    assert_eq!(join_path("/a", "b"), "/a/b");
    assert_eq!(join_path("/a/", "b"), "/a/b");
    assert!(path_starts_with("/a/b/c", "/a/b"));
    assert!(!path_starts_with("/a/bc", "/a/b"));
}

#[test]
fn days_are_numbered_from_the_epoch() {
    assert_eq!(civil_to_days(1970, 1, 1), 0);
    assert_eq!(civil_to_days(2000, 3, 1), 11_017);
    assert_eq!(civil_to_days(1969, 12, 31), -1);
    for day in [0, 59, 60, 11_016, 19_999, -1, -1_000] {
        let (y, m, d) = civil_from_days(day);
        assert_eq!(civil_to_days(y, m, d), day);
    }
}

#[test]
fn time_stamps_are_read() {
    assert_eq!(iso_ms("1970-01-01T00:00:00Z"), 0);
    assert_eq!(iso_ms("2024-02-29T12:30:45Z"), 1_709_209_845_000);
    assert_eq!(iso_ms("2024-02-29T12:30:45"), iso_ms("2024-02-29T12:30:45Z"));
    assert_eq!(iso_ms("2024-02-29T12:30:45+01:00"), 1_709_209_845_000 - 3_600_000);
    assert_eq!(iso_ms("not a date"), 0);
    assert_eq!(parse_tz_offset("Z"), 0);
}

#[test]
fn times_are_shown() {
    assert_eq!(utc_date_time(0), ("1970-01-01".to_owned(), "00:00".to_owned()));
    let (date, clock) = utc_date_time(1_709_209_845);
    assert_eq!(date, "2024-02-29");
    assert!(clock.starts_with("12:30"));
    assert_eq!(pad(7, 2), "07");
}

#[test]
fn statuses_are_read_back() {
    for s in FindingStatus::all() {
        assert_eq!(FindingStatus::from_text(s.as_str()), Some(s));
        assert!(!(s.is_active() && s.is_suppressed()));
    }
    assert_eq!(FindingStatus::from_text("no such"), None);
    assert!(FindingStatus::Rejected.reason_required());
    assert!(!FindingStatus::Queued.reason_required());
    assert!(FindingStatus::Queued.is_verdict());
}

#[test]
fn states_and_types_are_read_back() {
    for s in JobState::all() {
        assert_eq!(JobState::from_text(s.as_str()), Some(s));
    }
    for t in FindingType::all() {
        assert_eq!(FindingType::from_str(t.as_str()), Ok(t));
    }
    for b in BugClass::all() {
        assert_eq!(BugClass::from_str(b.as_str()), Ok(b));
    }
    for f in ForgeName::all() {
        assert_eq!(ForgeName::from_str(f.as_str()), Ok(f));
    }
    assert!(JobState::Running.is_live() && JobState::Suspended.is_live() && !JobState::Done.is_live());
    assert!(FindingType::from_str("nope").is_err());
    assert!(BugClass::from_str("nope").is_err());
    assert!(ForgeName::from_str("nope").is_err());
}

#[test]
fn kinds_of_jobs_are_read_back() {
    for k in RepoJobKind::all() {
        assert_eq!(RepoJobKind::from_str(k.as_str()), Ok(k));
        assert_eq!(JobKind::from_str(k.as_str()), Ok(JobKind::Repo(k)));
        assert_eq!(JobKind::from(k).as_repo(), Some(k));
        assert!(FindingJobKind::from_str(k.as_str()).is_err());
    }
    for k in FindingJobKind::all() {
        assert_eq!(FindingJobKind::from_str(k.as_str()), Ok(k));
        assert_eq!(JobKind::from_str(k.as_str()), Ok(JobKind::Finding(k)));
        assert_eq!(JobKind::from(k).as_finding(), Some(k));
    }
    assert!(JobKind::from_str("nope").is_err());
}

#[test]
fn severities_are_ranked_and_canonical() {
    for s in [Severity::Low, Severity::Medium, Severity::High] {
        assert_eq!(Severity::parse(s.as_str()), Some(s));
    }
    assert!(Severity::Low.rank() < Severity::Medium.rank());
    assert!(Severity::Medium.rank() < Severity::High.rank());
    assert_eq!(Severity::parse("nope"), None);
}

#[test]
fn days_follow_the_calendar() {
    let dates = [(1969, 12, 31), (1970, 1, 1), (2023, 12, 31), (2024, 2, 28), (2024, 2, 29), (2024, 3, 1)];
    for w in dates.windows(2) {
        let (a, b) = (w[0], w[1]);
        assert!(civil_to_days(a.0, a.1, a.2) < civil_to_days(b.0, b.1, b.2));
    }
}

#[test]
fn a_zone_shifts_the_instant() {
    let utc = iso_ms("2024-05-01T12:00:00Z");
    assert_eq!(iso_ms("2024-05-01T12:00:00+02:00"), utc - 7_200_000);
    assert_eq!(iso_ms("2024-05-01T12:00:00-05:30"), utc + 19_800_000);
}

#[test]
fn severities_are_ordered() {
    assert!(Severity::Low < Severity::Medium && Severity::Medium < Severity::High);
    assert_eq!([Severity::High, Severity::Low].iter().max(), Some(&Severity::High));
}

#[test]
fn usual_stamps_are_read() {
    let utc = iso_ms("2024-02-29T23:59:59");
    assert_eq!(utc, 1_709_251_199_000);
    assert_eq!(iso_ms("2024-02-29T23:59:59Z"), utc);
    assert_eq!(iso_ms("2024-02-29T23:59:59+00:00"), utc);
    assert_eq!(iso_ms("2024-02-29T23:59:59+01:30"), utc - 5_400_000);
    assert_eq!(iso_ms("2024-02-29T23:59:59-01:30"), utc + 5_400_000);
    assert_eq!(iso_ms(""), 0);
    assert_eq!(iso_ms("2024-02-29 23:59:59"), 0);
}

#[test]
fn severities_are_ordered_by_rank() {
    let all = [Severity::Low, Severity::Medium, Severity::High];
    for a in all {
        for b in all {
            assert_eq!(a < b, a.rank() < b.rank());
            assert_eq!(a.cmp(&b), a.rank().cmp(&b.rank()));
        }
    }
}
