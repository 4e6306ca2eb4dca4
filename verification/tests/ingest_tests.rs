use hunter::domain::FindingType;
use hunter::ingest::{
    confidence_number, confidence_text, judge_entry, read_findings, settle_entry, tally,
    type_required_fields, unreadable, Counts, Intake, Judged, Reading, Stored,
};
use hunter::json::Json;
use hunter::scheduler::effects::Effect;

fn entry(body: &str) -> Json {
    read_findings(&format!("[{body}]"), "/f.json", None, None).unwrap().remove(0)
}

const BUG: &str = "{\"type\":\"bug\",\"fingerprint\":\"a:b:c\",\"file\":\"src/a.rs\",\"severity\":\"high\",\
    \"confidence\":0.9,\"summary\":\"s\",\"bug_class\":\"race\"}";

fn message(effects: &[Effect]) -> String {
    match &effects[0] {
        Effect::Log { message, .. } => message.clone(),
        _ => panic!("no log"),
    }
}

#[test]
fn a_file_is_a_list_of_entries() {
    let v = read_findings(&format!("[{BUG},{BUG}]"), "/f.json", Some(3), None).unwrap();
    assert_eq!(v.len(), 2);
}

#[test]
fn a_file_that_is_no_list_is_refused() {
    let (effects, counts) = read_findings("{}", "/f.json", Some(3), None).unwrap_err();
    assert_eq!(message(&effects), "ingest: findings root is not a list in /f.json");
    assert_eq!((counts.inserted, counts.duplicates, counts.invalid), (0, 0, 1));
}

#[test]
fn a_file_that_is_no_json_is_refused() {
    let (effects, counts) = read_findings("nope", "/f.json", Some(3), None).unwrap_err();
    assert!(message(&effects).starts_with("ingest: unreadable findings file /f.json: "));
    assert_eq!(counts.invalid, 1);
    let (effects, _) = unreadable("/f.json", "gone", None, None);
    assert_eq!(message(&effects), "ingest: unreadable findings file /f.json: gone");
}

#[test]
fn a_complete_bug_is_good() {
    match judge_entry(0, &entry(BUG), None, Reading::Finite, Some(1), None) {
        Judged::Good { kind, insert } => {
            assert_eq!(kind, FindingType::Bug);
            assert_eq!(insert.fingerprint, "a:b:c");
            assert_eq!(insert.severity, "high");
            assert_eq!(insert.bug_class.as_deref(), Some("race"));
        }
        Judged::Invalid { effects } => panic!("{}", message(&effects)),
    }
}

#[test]
fn an_unknown_type_is_quoted() {
    match judge_entry(4, &entry("{\"type\":\"a\\\"b\"}"), None, Reading::Unread, None, None) {
        Judged::Invalid { effects } => assert!(
            message(&effects).starts_with("ingest: entry 4 has unknown/missing type \"a\\\"b\": "),
            "{}",
            message(&effects)
        ),
        Judged::Good { .. } => panic!("good"),
    }
}

#[test]
fn a_bug_without_a_known_class_is_invalid() {
    let body = BUG.replace("race", "nope");
    assert!(matches!(
        judge_entry(0, &entry(&body), None, Reading::Finite, None, None),
        Judged::Invalid { .. }
    ));
}

#[test]
fn a_fingerprint_is_required() {
    let body = BUG.replace("a:b:c", "");
    assert!(matches!(
        judge_entry(0, &entry(&body), None, Reading::Finite, None, None),
        Judged::Invalid { .. }
    ));
}

#[test]
fn a_severity_is_stored_in_its_own_words() {
    let body = BUG.replace("\"high\"", "\"bogus\"");
    match judge_entry(0, &entry(&body), None, Reading::Finite, None, None) {
        Judged::Good { insert, .. } => assert!(["low", "medium", "high"].contains(&insert.severity.as_str())),
        Judged::Invalid { .. } => {}
    }
}

#[test]
fn every_type_has_its_required_fields() {
    for t in FindingType::all() {
        for field in type_required_fields(t) {
            assert!(!field.is_empty());
        }
    }
    let body = "{\"fingerprint\":\"f\",\"file\":\"a\",\"summary\":\"s\",\"severity\":\"low\",\"confidence\":1}";
    assert!(matches!(
        judge_entry(0, &entry(body), Some(FindingType::DepUpdate), Reading::Finite, None, None),
        Judged::Invalid { .. }
    ));
}

#[test]
fn an_entry_that_is_no_record_says_nothing() {
    match judge_entry(0, &entry("5"), Some(FindingType::Bug), Reading::Unread, None, None) {
        Judged::Invalid { effects } => assert!(effects.is_empty()),
        Judged::Good { .. } => panic!("good"),
    }
}

#[test]
fn a_confidence_is_a_number_or_a_text() {
    assert_eq!(confidence_number(&entry("{\"confidence\":0.5}")).as_deref(), Some("0.5"));
    assert_eq!(confidence_text(&entry("{\"confidence\":\"0.5\"}")).as_deref(), Some("0.5"));
}

#[test]
fn the_store_settles_an_entry() {
    let (effects, counts) =
        settle_entry(2, FindingType::Bug, "fp", &Stored::New { id: 9 }, Some(1), None);
    assert_eq!(message(&effects), "new bug: fp");
    assert_eq!(counts, Counts::Inserted);
    let (effects, counts) = settle_entry(2, FindingType::Bug, "fp", &Stored::Known, Some(1), None);
    assert!(effects.is_empty());
    assert_eq!(counts, Counts::Duplicate);
    let failed = Stored::Failed { error: "locked".to_owned() };
    let (effects, counts) = settle_entry(2, FindingType::Bug, "fp", &failed, Some(1), None);
    assert_eq!(message(&effects), "ingest: upsert failed for entry 2: locked");
    assert_eq!(counts, Counts::Invalid);
}

#[test]
fn every_entry_counts_once() {
    let t = tally(&vec![Counts::Inserted, Counts::Invalid, Counts::Duplicate, Counts::Inserted]);
    assert_eq!((t.inserted, t.duplicates, t.invalid), (2, 1, 1));
}

#[test]
fn every_entry_of_a_file_is_counted() {
    let body = format!("[{BUG},{{}},{BUG},{BUG}]");
    let entries = read_findings(&body, "/f.json", Some(3), None).unwrap();
    let mut run = Intake::new(entries, None, Some(3), None);
    let mut answers = vec![
        Stored::New { id: 9 },
        Stored::Known,
        Stored::Failed { error: "locked".to_owned() },
    ]
    .into_iter();
    let mut said = Vec::new();
    while run.next().is_some() {
        match run.judge(Reading::Finite) {
            Judged::Invalid { effects } => said.push(message(&effects)),
            Judged::Good { kind, .. } => {
                assert_eq!(kind, FindingType::Bug);
                let effects = run.settle(&answers.next().unwrap());
                if !effects.is_empty() {
                    said.push(message(&effects));
                }
            }
        }
    }
    let t = run.result();
    assert_eq!((t.inserted, t.duplicates, t.invalid), (1, 1, 2));
    assert_eq!(said[0], "new bug: a:b:c");
    assert!(said[1].starts_with("ingest: entry 1 has unknown/missing type"));
    assert_eq!(said[2], "ingest: upsert failed for entry 3: locked");
}
