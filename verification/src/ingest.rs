//! Findings that a worker wrote, checked entry by entry.

use vstd::prelude::*;
use crate::domain::{BugClass, FindingType, Severity};
use crate::json;
use crate::json::{Json, JsonView};
use crate::scheduler::effects;
use crate::scheduler::effects::{Effect, EffectView};
use crate::store::{FindingInsert, FindingInsertView};
use crate::text;

verus! {

/// Tally of one ingested findings file.
#[derive(Debug, Clone, Copy, PartialEq, Eq, Structural)]
pub struct IngestResult {
    pub inserted: i64,
    pub duplicates: i64,
    pub invalid: i64,
}

impl Default for IngestResult {
    fn default() -> (r: IngestResult)
        ensures
            r == (IngestResult { inserted: 0, duplicates: 0, invalid: 0 }),
    {
        IngestResult { inserted: 0, duplicates: 0, invalid: 0 }
    }
}

// ---------------------------------------------------------------------
// The file
// ---------------------------------------------------------------------

/// What is written of a file that cannot be read as findings, and its tally.
pub open spec fn file_refused(message: Seq<char>, job: Option<i64>, source: Option<i64>) -> (
    Seq<EffectView>,
    IngestResult,
) {
    (
        seq![effects::log_view("error"@, message, job, source)],
        IngestResult { inserted: 0, duplicates: 0, invalid: 1 },
    )
}

fn refuse_file(message: String, job: Option<i64>, source: Option<i64>) -> (r: (
    Vec<Effect>,
    IngestResult,
))
    ensures
        (effects::effects(r.0@), r.1) == file_refused(message@, job, source),
{
    (
        effects::one_effect(effects::log("error", message, job, source)),
        IngestResult { inserted: 0, duplicates: 0, invalid: 1 },
    )
}

/// A findings file that could not be read or parsed.
pub fn unreadable(path: &str, error: &str, job: Option<i64>, source: Option<i64>) -> (r: (
    Vec<Effect>,
    IngestResult,
))
    ensures
        (effects::effects(r.0@), r.1) == file_refused(
            "ingest: unreadable findings file "@ + path@ + ": "@ + error@,
            job,
            source,
        ),
{
    refuse_file(
        "ingest: unreadable findings file ".to_owned().concat(path).concat(": ").concat(error),
        job,
        source,
    )
}

/// The entries of a parsed findings file: its root is a list.
pub fn entries_of(doc: Json, path: &str, job: Option<i64>, source: Option<i64>) -> (r: Result<
    Vec<Json>,
    (Vec<Effect>, IngestResult),
>)
    ensures
        match r {
            Ok(v) => doc@.as_list() == Some(json::json_views(v@)),
            Err(e) => doc@.as_list() is None && (effects::effects(e.0@), e.1) == file_refused(
                "ingest: findings root is not a list in "@ + path@,
                job,
                source,
            ),
        },
{
    match doc {
        Json::List { items, .. } => Ok(items),
        _ => Err(
            refuse_file(
                "ingest: findings root is not a list in ".to_owned().concat(path),
                job,
                source,
            ),
        ),
    }
}

/// The entries of a findings file, from its text.
pub fn read_findings(body: &str, path: &str, job: Option<i64>, source: Option<i64>) -> (r: Result<
    Vec<Json>,
    (Vec<Effect>, IngestResult),
>)
    ensures
        match json::json_of(body@) {
            Ok(doc) => match r {
                Ok(v) => doc.as_list() == Some(json::json_views(v@)),
                Err(e) => doc.as_list() is None && (effects::effects(e.0@), e.1) == file_refused(
                    "ingest: findings root is not a list in "@ + path@,
                    job,
                    source,
                ),
            },
            Err(why) => r matches Err(e) && (effects::effects(e.0@), e.1) == file_refused(
                "ingest: unreadable findings file "@ + path@ + ": "@ + why,
                job,
                source,
            ),
        },
{
    match json::parse_json(body) {
        Ok(doc) => entries_of(doc, path, job, source),
        Err(e) => Err(unreadable(path, &e, job, source)),
    }
}

// ---------------------------------------------------------------------
// One entry
// ---------------------------------------------------------------------

/// The fields that a type needs beyond those that every type does.
pub open spec fn required(kind: FindingType) -> Seq<Seq<char>> {
    match kind {
        FindingType::DepUpdate => seq![
            "ecosystem"@,
            "package"@,
            "current_version"@,
            "latest_version"@,
            "update_type"@,
        ],
        FindingType::TestGap => seq!["missing_tests"@, "test_file"@],
        FindingType::Refactor => seq!["smell_type"@, "suggested_refactor"@],
        FindingType::Modernization => seq![
            "modernization_class"@,
            "current_approach"@,
            "proposed_approach"@,
        ],
        FindingType::Standards => seq!["standard_section"@, "current_approach"@, "proposed_approach"@],
        FindingType::Bug => Seq::empty(),
    }
}

pub fn type_required_fields(finding_type: FindingType) -> (r: Vec<String>)
    ensures
        text::texts(r@) == required(finding_type),
{
    let mut v = text::no_texts();
    match finding_type {
        FindingType::DepUpdate => {
            text::add_text(&mut v, "ecosystem");
            text::add_text(&mut v, "package");
            text::add_text(&mut v, "current_version");
            text::add_text(&mut v, "latest_version");
            text::add_text(&mut v, "update_type");
        },
        FindingType::TestGap => {
            text::add_text(&mut v, "missing_tests");
            text::add_text(&mut v, "test_file");
        },
        FindingType::Refactor => {
            text::add_text(&mut v, "smell_type");
            text::add_text(&mut v, "suggested_refactor");
        },
        FindingType::Modernization => {
            text::add_text(&mut v, "modernization_class");
            text::add_text(&mut v, "current_approach");
            text::add_text(&mut v, "proposed_approach");
        },
        FindingType::Standards => {
            text::add_text(&mut v, "standard_section");
            text::add_text(&mut v, "current_approach");
            text::add_text(&mut v, "proposed_approach");
        },
        FindingType::Bug => {},
    }
    assert(text::texts(v@) =~= required(finding_type));
    v
}

/// Whether a required field holds something: missing tests are a list, the
/// others texts.
pub open spec fn is_given(e: JsonView, field: Seq<char>) -> bool {
    if field == "missing_tests"@ {
        e.field(field) matches Some(v) && v.as_list() matches Some(items) && items.len() > 0
    } else {
        e.text_field(field) matches Some(s) && s.len() > 0
    }
}

pub open spec fn missing_note(kind: FindingType, field: Seq<char>) -> Seq<char> {
    "required field \""@ + field + "\" for type "@ + kind.label_text() + (if field == "missing_tests"@ {
        " must be a non-empty list"@
    } else {
        " must be a non-empty string"@
    })
}

/// What is wrong with the first required field that holds nothing, from a
/// position on.
pub open spec fn first_missing(e: JsonView, kind: FindingType, i: int) -> Option<Seq<char>>
    decreases required(kind).len() - i,
{
    if i < 0 || i >= required(kind).len() {
        None
    } else if !is_given(e, required(kind)[i]) {
        Some(missing_note(kind, required(kind)[i]))
    } else {
        first_missing(e, kind, i + 1)
    }
}

/// What the text of a confidence reads as.
#[derive(Debug, Clone, Copy, PartialEq, Eq, Structural)]
pub enum Reading {
    /// Not a number.
    Unread,
    /// A number without an end, or none that compares.
    Endless,
    Finite,
}

/// What is wrong with an entry's confidence. A number is fine; of a text it
/// depends on what it reads as.
pub open spec fn confidence_problem(e: JsonView, reading: Reading) -> Option<Seq<char>> {
    match e.field("confidence"@) {
        None => None,
        Some(JsonView::Number { .. }) => None,
        Some(JsonView::Text { .. }) => match reading {
            Reading::Unread => Some("non-numeric confidence"@),
            Reading::Endless => Some("non-finite confidence"@),
            Reading::Finite => None,
        },
        Some(_) => Some("non-numeric confidence"@),
    }
}

/// What is wrong with an entry's class, severity and required fields.
pub open spec fn body_problem(e: JsonView, kind: FindingType) -> Option<Seq<char>> {
    if kind == FindingType::Bug {
        let class = e.text_field_or("bug_class"@, ""@);
        let severity = e.text_field_or("severity"@, ""@);
        if BugClass::of_text(class) is None {
            Some("unknown bug_class "@ + text::debug_text(class))
        } else if Severity::of_text(severity) is None {
            Some("unknown severity "@ + text::debug_text(severity))
        } else {
            None
        }
    } else {
        let severity = e.text_field_or("severity"@, "medium"@);
        if Severity::of_text(severity) is None {
            Some("unknown severity "@ + text::debug_text(severity))
        } else {
            first_missing(e, kind, 0)
        }
    }
}

/// The first thing that is wrong with an entry.
pub open spec fn problem(e: JsonView, kind: FindingType, reading: Reading) -> Option<Seq<char>> {
    if e.text_field_or("fingerprint"@, ""@).len() == 0 {
        Some("missing fingerprint"@)
    } else if body_problem(e, kind) is Some {
        body_problem(e, kind)
    } else {
        confidence_problem(e, reading)
    }
}

fn is_field_given(e: &Json, field: &str) -> (r: bool)
    ensures
        r == is_given(e@, field@),
{
    if text::same(field, "missing_tests") {
        match e.get(field) {
            Some(v) => match v {
                Json::List { items, .. } => {
                    proof {
                        json::lemma_json_views(items@);
                    }
                    items.len() > 0
                },
                _ => false,
            },
            None => false,
        }
    } else {
        match e.get_str(field) {
            Some(s) => !s.as_str().is_empty(),
            None => false,
        }
    }
}

fn find_missing(e: &Json, kind: FindingType) -> (r: Option<String>)
    ensures
        text::opt_text(r) == first_missing(e@, kind, 0),
{
    let fields = type_required_fields(kind);
    let mut i: usize = 0;
    while i < fields.len()
        invariant
            i <= fields@.len(),
            text::texts(fields@) == required(kind),
            first_missing(e@, kind, 0) == first_missing(e@, kind, i as int),
        decreases fields@.len() - i,
    {
        assert(text::texts(fields@)[i as int] == fields@[i as int]@);
        if !is_field_given(e, &fields[i]) {
            let wanted: &str = if text::same(&fields[i], "missing_tests") {
                " must be a non-empty list"
            } else {
                " must be a non-empty string"
            };
            return Some(
                "required field \"".to_owned().concat(&fields[i]).concat("\" for type ").concat(
                    kind.label(),
                ).concat(wanted),
            );
        }
        i = i + 1;
    }
    None
}

fn find_body_problem(e: &Json, kind: FindingType) -> (r: Option<String>)
    ensures
        text::opt_text(r) == body_problem(e@, kind),
{
    if kind == FindingType::Bug {
        let class = e.get_str_or("bug_class", "");
        if BugClass::from_str(&class).is_err() {
            return Some("unknown bug_class ".to_owned().concat(text::quoted(&class).as_str()));
        }
        let severity = e.get_str_or("severity", "");
        if Severity::parse(&severity).is_none() {
            return Some("unknown severity ".to_owned().concat(text::quoted(&severity).as_str()));
        }
        None
    } else {
        let severity = e.get_str_or("severity", "medium");
        if Severity::parse(&severity).is_none() {
            return Some("unknown severity ".to_owned().concat(text::quoted(&severity).as_str()));
        }
        find_missing(e, kind)
    }
}

fn find_problem(e: &Json, kind: FindingType, reading: Reading) -> (r: Option<String>)
    ensures
        text::opt_text(r) == problem(e@, kind, reading),
{
    proof {
        reveal_strlit("");
    }
    if e.get_str_or("fingerprint", "").as_str().is_empty() {
        return Some("missing fingerprint".to_owned());
    }
    let body = find_body_problem(e, kind);
    if body.is_some() {
        return body;
    }
    match e.get("confidence") {
        None => None,
        Some(c) => match c {
            Json::Number { .. } => None,
            Json::Text { .. } => match reading {
                Reading::Unread => Some("non-numeric confidence".to_owned()),
                Reading::Endless => Some("non-finite confidence".to_owned()),
                Reading::Finite => None,
            },
            _ => Some("non-numeric confidence".to_owned()),
        },
    }
}

/// The text of an entry's confidence, where it is one.
pub fn confidence_text(e: &Json) -> (r: Option<String>)
    ensures
        text::opt_text(r) == e@.text_field("confidence"@),
{
    e.get_str("confidence")
}

/// The compact text of an entry's confidence, where it is a number.
pub open spec fn confidence_digits(e: JsonView) -> Option<Seq<char>> {
    match e.field("confidence"@) {
        Some(JsonView::Number { text, .. }) => Some(text),
        _ => None,
    }
}

pub fn confidence_number(e: &Json) -> (r: Option<String>)
    ensures
        text::opt_text(r) == confidence_digits(e@),
{
    match e.get("confidence") {
        Some(Json::Number { text, .. }) => Some(text.clone()),
        _ => None,
    }
}

/// The type of an entry: the one that the file is read for, else its own.
pub open spec fn entry_type(e: JsonView, forced: Option<FindingType>) -> Option<FindingType> {
    match forced {
        Some(t) => Some(t),
        None => FindingType::of_text(e.text_field_or("type"@, ""@)),
    }
}

/// The missing tests of an entry: a list as its compact text.
pub open spec fn tests_text(e: JsonView) -> Option<Seq<char>> {
    match e.field("missing_tests"@) {
        Some(v) => if v is List { Some(v.compact()) } else { v.as_text() },
        None => None,
    }
}

/// The finding that an entry becomes. The severity is stored in its canonical
/// spelling; only a bug has a class.
pub open spec fn insert_of(e: JsonView, kind: FindingType) -> FindingInsertView {
    FindingInsertView {
        fingerprint: e.text_field_or("fingerprint"@, ""@),
        file: e.text_field_or("file"@, ""@),
        line: e.int_field("line"@),
        severity: match Severity::of_text(e.text_field_or("severity"@, "medium"@)) {
            Some(s) => s.text(),
            None => Severity::Medium.text(),
        },
        summary: e.text_field_or("summary"@, ""@),
        bug_class: if kind == FindingType::Bug {
            match e.text_field("bug_class"@) {
                Some(s) => match BugClass::of_text(s) {
                    Some(c) => Some(c.text()),
                    None => None,
                },
                None => None,
            }
        } else {
            None
        },
        missing_tests: tests_text(e),
        symbol: e.text_field("symbol"@),
        detail: e.text_field("detail"@),
        evidence_plan: e.text_field("evidence_plan"@),
        introduced_by: e.text_field("introduced_by"@),
        ecosystem: e.text_field("ecosystem"@),
        package: e.text_field("package"@),
        current_version: e.text_field("current_version"@),
        latest_version: e.text_field("latest_version"@),
        update_type: e.text_field("update_type"@),
        security_advisory: e.text_field("security_advisory"@),
        test_file: e.text_field("test_file"@),
        smell_type: e.text_field("smell_type"@),
        suggested_refactor: e.text_field("suggested_refactor"@),
        modernization_class: e.text_field("modernization_class"@),
        current_approach: e.text_field("current_approach"@),
        proposed_approach: e.text_field("proposed_approach"@),
        standard_section: e.text_field("standard_section"@),
    }
}

fn build_insert(e: &Json, kind: FindingType) -> (r: FindingInsert)
    ensures
        r@ == insert_of(e@, kind),
{
    let severity = match Severity::parse(&e.get_str_or("severity", "medium")) {
        Some(s) => s,
        None => Severity::Medium,
    };
    let bug_class: Option<String> = if kind == FindingType::Bug {
        match e.get_str("bug_class") {
            Some(s) => match BugClass::from_str(&s) {
                Ok(c) => Some(c.as_str().to_owned()),
                Err(_) => None,
            },
            None => None,
        }
    } else {
        None
    };
    let missing_tests: Option<String> = match e.get("missing_tests") {
        Some(v) => match v {
            Json::List { text, .. } => Some(text.clone()),
            _ => match v.string() {
                Some(s) => Some(s.clone()),
                None => None,
            },
        },
        None => None,
    };
    FindingInsert {
        fingerprint: e.get_str_or("fingerprint", ""),
        file: e.get_str_or("file", ""),
        line: e.get_int("line"),
        severity: severity.as_str().to_owned(),
        summary: e.get_str_or("summary", ""),
        bug_class,
        missing_tests,
        symbol: e.get_str("symbol"),
        detail: e.get_str("detail"),
        evidence_plan: e.get_str("evidence_plan"),
        introduced_by: e.get_str("introduced_by"),
        ecosystem: e.get_str("ecosystem"),
        package: e.get_str("package"),
        current_version: e.get_str("current_version"),
        latest_version: e.get_str("latest_version"),
        update_type: e.get_str("update_type"),
        security_advisory: e.get_str("security_advisory"),
        test_file: e.get_str("test_file"),
        smell_type: e.get_str("smell_type"),
        suggested_refactor: e.get_str("suggested_refactor"),
        modernization_class: e.get_str("modernization_class"),
        current_approach: e.get_str("current_approach"),
        proposed_approach: e.get_str("proposed_approach"),
        standard_section: e.get_str("standard_section"),
    }
}

/// What an entry comes to.
#[derive(Debug, Clone)]
pub enum Judged {
    /// Not a finding; these are written.
    Invalid { effects: Vec<Effect> },
    Good { kind: FindingType, insert: FindingInsert },
}

pub enum JudgedView {
    Invalid { effects: Seq<EffectView> },
    Good { kind: FindingType, insert: FindingInsertView },
}

impl View for Judged {
    type V = JudgedView;

    open spec fn view(&self) -> JudgedView {
        match *self {
            Judged::Invalid { effects } => JudgedView::Invalid { effects: effects::effects(effects@) },
            Judged::Good { kind, insert } => JudgedView::Good { kind, insert: insert@ },
        }
    }
}

/// What the entry at a position comes to. An entry that is no record says
/// nothing, where its type is given.
pub open spec fn judged(
    i: i64,
    e: JsonView,
    forced: Option<FindingType>,
    reading: Reading,
    job: Option<i64>,
    source: Option<i64>,
) -> JudgedView {
    let shown = text::first_chars(e.compact(), 2000);
    match entry_type(e, forced) {
        None => JudgedView::Invalid {
            effects: seq![
                effects::log_view(
                    "error"@,
                    "ingest: entry "@ + text::int_text(i as int) + " has unknown/missing type "@
                        + text::debug_text(e.text_field_or("type"@, ""@)) + ": "@ + shown,
                    job,
                    source,
                ),
            ],
        },
        Some(kind) => if !(e is Record) {
            JudgedView::Invalid { effects: Seq::empty() }
        } else {
            match problem(e, kind, reading) {
                Some(why) => JudgedView::Invalid {
                    effects: seq![
                        effects::log_view(
                            "error"@,
                            "ingest: entry "@ + text::int_text(i as int) + " invalid ("@ + why + "): "@
                                + shown,
                            job,
                            source,
                        ),
                    ],
                },
                None => JudgedView::Good { kind, insert: insert_of(e, kind) },
            }
        },
    }
}

/// Judge the entry at position `i`. `reading` is what the text of its
/// confidence reads as, where it has one.
pub fn judge_entry(
    i: i64,
    e: &Json,
    forced: Option<FindingType>,
    reading: Reading,
    job: Option<i64>,
    source: Option<i64>,
) -> (r: Judged)
    ensures
        r@ == judged(i, e@, forced, reading, job, source),
{
    let number = text::int_to_text(i);
    let kind: FindingType = match forced {
        Some(t) => t,
        None => {
            let raw = e.get_str_or("type", "");
            match FindingType::from_str(&raw) {
                Ok(t) => t,
                Err(_) => {
                    let shown = text::take_chars(&e.compact_text(), 2000);
                    let message = "ingest: entry ".to_owned().concat(&number).concat(
                        " has unknown/missing type ",
                    ).concat(text::quoted(&raw).as_str()).concat(": ").concat(&shown);
                    return Judged::Invalid {
                        effects: effects::one_effect(effects::log("error", message, job, source)),
                    };
                },
            }
        },
    };
    if !e.is_record() {
        return Judged::Invalid { effects: effects::no_effects() };
    }
    match find_problem(e, kind, reading) {
        Some(why) => {
            let shown = text::take_chars(&e.compact_text(), 2000);
            let message = "ingest: entry ".to_owned().concat(&number).concat(" invalid (").concat(
                &why,
            ).concat("): ").concat(&shown);
            Judged::Invalid {
                effects: effects::one_effect(effects::log("error", message, job, source)),
            }
        },
        None => Judged::Good { kind, insert: build_insert(e, kind) },
    }
}

// ---------------------------------------------------------------------
// What the store answered
// ---------------------------------------------------------------------

/// The store's answer to one finding.
#[derive(Debug, Clone)]
pub enum Stored {
    New { id: i64 },
    Known,
    Failed { error: String },
}

/// What one entry counts as.
#[derive(Debug, Clone, Copy, PartialEq, Eq, Structural)]
pub enum Counts {
    Inserted,
    Duplicate,
    Invalid,
}

/// What is written of the store's answer, and what the entry counts as.
pub open spec fn settled(
    i: i64,
    kind: FindingType,
    fingerprint: Seq<char>,
    stored: Stored,
    job: Option<i64>,
    source: Option<i64>,
) -> (Seq<EffectView>, Counts) {
    match stored {
        Stored::New { id } => (
            seq![
                effects::log_view(
                    if kind == FindingType::Bug { "hunt"@ } else { kind.text() },
                    "new "@ + kind.text() + ": "@ + fingerprint,
                    job,
                    Some(id),
                ),
            ],
            Counts::Inserted,
        ),
        Stored::Known => (Seq::empty(), Counts::Duplicate),
        Stored::Failed { error } => (
            seq![
                effects::log_view(
                    "error"@,
                    "ingest: upsert failed for entry "@ + text::int_text(i as int) + ": "@ + error@,
                    job,
                    source,
                ),
            ],
            Counts::Invalid,
        ),
    }
}

pub fn settle_entry(
    i: i64,
    kind: FindingType,
    fingerprint: &str,
    stored: &Stored,
    job: Option<i64>,
    source: Option<i64>,
) -> (r: (Vec<Effect>, Counts))
    ensures
        (effects::effects(r.0@), r.1) == settled(i, kind, fingerprint@, *stored, job, source),
{
    match stored {
        Stored::New { id } => {
            let event: &str = if kind == FindingType::Bug {
                "hunt"
            } else {
                kind.as_str()
            };
            let message = "new ".to_owned().concat(kind.as_str()).concat(": ").concat(fingerprint);
            (effects::one_effect(effects::log(event, message, job, Some(*id))), Counts::Inserted)
        },
        Stored::Known => (effects::no_effects(), Counts::Duplicate),
        Stored::Failed { error } => {
            let message = "ingest: upsert failed for entry ".to_owned().concat(
                text::int_to_text(i).as_str(),
            ).concat(": ").concat(error);
            (effects::one_effect(effects::log("error", message, job, source)), Counts::Invalid)
        },
    }
}

/// How often one count occurs.
pub open spec fn times(v: Seq<Counts>, c: Counts) -> int
    decreases v.len(),
{
    if v.len() == 0 {
        0
    } else {
        times(v.drop_last(), c) + if v.last() == c { 1int } else { 0 }
    }
}

/// The tally of the entries of a file.
pub fn tally(v: &Vec<Counts>) -> (r: IngestResult)
    requires
        v@.len() <= i64::MAX,
    ensures
        r.inserted == times(v@, Counts::Inserted),
        r.duplicates == times(v@, Counts::Duplicate),
        r.invalid == times(v@, Counts::Invalid),
        r.inserted + r.duplicates + r.invalid == v@.len(),
{
    let mut t = IngestResult::default();
    let mut i: usize = 0;
    while i < v.len()
        invariant
            i <= v@.len() <= i64::MAX,
            t.inserted == times(v@.take(i as int), Counts::Inserted),
            t.duplicates == times(v@.take(i as int), Counts::Duplicate),
            t.invalid == times(v@.take(i as int), Counts::Invalid),
            t.inserted >= 0,
            t.duplicates >= 0,
            t.invalid >= 0,
            t.inserted + t.duplicates + t.invalid == i,
        decreases v@.len() - i,
    {
        proof {
            assert(v@.take(i + 1).drop_last() =~= v@.take(i as int));
            assert(v@.take(i + 1).last() == v@[i as int]);
        }
        match v[i] {
            Counts::Inserted => {
                t.inserted = t.inserted + 1;
            },
            Counts::Duplicate => {
                t.duplicates = t.duplicates + 1;
            },
            Counts::Invalid => {
                t.invalid = t.invalid + 1;
            },
        }
        i = i + 1;
    }
    assert(v@.take(v@.len() as int) =~= v@);
    t
}

/// The entries of a findings file, taken in one after the other.
#[derive(Debug)]
pub struct Intake {
    pub entries: Vec<Json>,
    pub forced: Option<FindingType>,
    pub job: Option<i64>,
    pub source: Option<i64>,
    /// What the entries so far count as.
    pub counts: Vec<Counts>,
    /// Type and fingerprint of the current entry, where the store is asked.
    pub asked: Option<(FindingType, String)>,
}

pub struct IntakeView {
    pub entries: Seq<JsonView>,
    pub forced: Option<FindingType>,
    pub job: Option<i64>,
    pub source: Option<i64>,
    pub counts: Seq<Counts>,
    pub asked: Option<(FindingType, Seq<char>)>,
}

impl View for Intake {
    type V = IntakeView;

    open spec fn view(&self) -> IntakeView {
        IntakeView {
            entries: json::json_views(self.entries@),
            forced: self.forced,
            job: self.job,
            source: self.source,
            counts: self.counts@,
            asked: match self.asked {
                Some((kind, fingerprint)) => Some((kind, fingerprint@)),
                None => None,
            },
        }
    }
}

impl IntakeView {
    /// The entries so far count as one thing each.
    pub open spec fn well_formed(self) -> bool {
        &&& self.entries.len() <= i64::MAX
        &&& self.counts.len() <= self.entries.len()
        &&& self.asked is Some ==> self.counts.len() < self.entries.len()
    }

    /// The entry whose turn it is.
    pub open spec fn current(self) -> Option<JsonView> {
        if self.counts.len() < self.entries.len() {
            Some(self.entries[self.counts.len() as int])
        } else {
            None
        }
    }

    /// The intake with what the current entry counts as.
    pub open spec fn with(self, c: Counts) -> IntakeView {
        IntakeView { counts: self.counts.push(c), asked: None, ..self }
    }
}

/// The intake after its current entry was judged.
pub open spec fn after_judged(run: IntakeView, what: JudgedView) -> IntakeView {
    match what {
        JudgedView::Invalid { .. } => run.with(Counts::Invalid),
        JudgedView::Good { kind, insert } => IntakeView {
            asked: Some((kind, insert.fingerprint)),
            ..run
        },
    }
}

impl Intake {
    pub fn new(entries: Vec<Json>, forced: Option<FindingType>, job: Option<i64>, source: Option<i64>) -> (r:
        Intake)
        requires
            entries@.len() <= i64::MAX,
        ensures
            r@ == (IntakeView {
                entries: json::json_views(entries@),
                forced,
                job,
                source,
                counts: Seq::<Counts>::empty(),
                asked: None::<(FindingType, Seq<char>)>,
            }),
            r@.well_formed(),
    {
        proof {
            json::lemma_json_views(entries@);
        }
        Intake { entries, forced, job, source, counts: Vec::new(), asked: None }
    }

    /// The entry whose turn it is.
    pub fn next(&self) -> (r: Option<&Json>)
        requires
            self@.well_formed(),
        ensures
            match r {
                Some(e) => self@.current() == Some(e@),
                None => self@.current() is None,
            },
    {
        proof {
            json::lemma_json_views(self.entries@);
        }
        let at: usize = self.counts.len();
        if at < self.entries.len() {
            assert(self@.entries[at as int] == self.entries@[at as int]@);
            Some(&self.entries[at])
        } else {
            None
        }
    }

    /// Judge the current entry. `reading` is what the text of its confidence
    /// reads as, where it has one.
    pub fn judge(&mut self, reading: Reading) -> (r: Judged)
        requires
            old(self)@.well_formed(),
            old(self)@.current() is Some,
            old(self)@.asked is None,
        ensures
            r@ == judged(
                old(self)@.counts.len() as i64,
                old(self)@.current()->0,
                old(self)@.forced,
                reading,
                old(self)@.job,
                old(self)@.source,
            ),
            final(self)@ == after_judged(old(self)@, r@),
            final(self)@.well_formed(),
    {
        proof {
            json::lemma_json_views(self.entries@);
        }
        let at: usize = self.counts.len();
        assert(self@.entries[at as int] == self.entries@[at as int]@);
        let what = judge_entry(
            at as i64,
            &self.entries[at],
            self.forced,
            reading,
            self.job,
            self.source,
        );
        match &what {
            Judged::Invalid { effects: _ } => {
                self.counts.push(Counts::Invalid);
            },
            Judged::Good { kind, insert } => {
                self.asked = Some((*kind, insert.fingerprint.clone()));
            },
        }
        what
    }

    /// Take the store's answer to the current entry.
    pub fn settle(&mut self, stored: &Stored) -> (r: Vec<Effect>)
        requires
            old(self)@.well_formed(),
            old(self)@.asked is Some,
        ensures
            ({
                let (kind, fingerprint) = old(self)@.asked->0;
                let said = settled(
                    old(self)@.counts.len() as i64,
                    kind,
                    fingerprint,
                    *stored,
                    old(self)@.job,
                    old(self)@.source,
                );
                effects::effects(r@) == said.0 && final(self)@ == old(self)@.with(said.1)
            }),
            final(self)@.well_formed(),
    {
        let mut out = effects::no_effects();
        if let Some((kind, fingerprint)) = &self.asked {
            let (said, c) = settle_entry(
                self.counts.len() as i64,
                *kind,
                fingerprint,
                stored,
                self.job,
                self.source,
            );
            out = said;
            self.counts.push(c);
        }
        self.asked = None;
        out
    }

    /// The tally of the entries so far.
    pub fn result(&self) -> (r: IngestResult)
        requires
            self@.well_formed(),
        ensures
            r.inserted == times(self@.counts, Counts::Inserted),
            r.duplicates == times(self@.counts, Counts::Duplicate),
            r.invalid == times(self@.counts, Counts::Invalid),
            self@.current() is None ==> r.inserted + r.duplicates + r.invalid == self@.entries.len(),
    {
        tally(&self.counts)
    }
}

// ---------------------------------------------------------------------
// Laws
// ---------------------------------------------------------------------

/// A file that was taken in to its end has one count for each of its entries.
pub proof fn law_finished_intake_counts_all(run: IntakeView)
    requires
        run.well_formed(),
        run.current() is None,
    ensures
        times(run.counts, Counts::Inserted) + times(run.counts, Counts::Duplicate) + times(
            run.counts,
            Counts::Invalid,
        ) == run.entries.len(),
{
    law_every_entry_counts_once(run.counts);
}

/// Every entry counts as exactly one of inserted, duplicate and invalid.
pub proof fn law_every_entry_counts_once(v: Seq<Counts>)
    ensures
        times(v, Counts::Inserted) + times(v, Counts::Duplicate) + times(v, Counts::Invalid) == v.len(),
    decreases v.len(),
{
    if v.len() > 0 {
        law_every_entry_counts_once(v.drop_last());
    }
}

/// Whatever a worker wrote, the stored severity can be read back.
pub proof fn law_stored_severity_is_known(e: JsonView, kind: FindingType)
    ensures
        exists|s: Severity| insert_of(e, kind).severity == s.text(),
{
    match Severity::of_text(e.text_field_or("severity"@, "medium"@)) {
        Some(s) => {
            assert(insert_of(e, kind).severity == s.text());
        },
        None => {
            assert(insert_of(e, kind).severity == Severity::Medium.text());
        },
    }
}

/// Only a bug is stored with a class, and then with one that can be read
/// back.
pub proof fn law_only_bugs_have_a_class(e: JsonView, kind: FindingType)
    ensures
        insert_of(e, kind).bug_class is Some ==> kind == FindingType::Bug,
        insert_of(e, kind).bug_class matches Some(c) ==> exists|b: BugClass| c == b.text(),
{
    if let Some(c) = insert_of(e, kind).bug_class {
        let b = BugClass::of_text(e.text_field("bug_class"@)->0)->0;
        assert(c == b.text());
    }
}

/// A finding is stored under a fingerprint, and a bug with its class.
pub proof fn law_stored_findings_are_complete(
    i: i64,
    e: JsonView,
    forced: Option<FindingType>,
    reading: Reading,
    job: Option<i64>,
    source: Option<i64>,
)
    requires
        judged(i, e, forced, reading, job, source) is Good,
    ensures
        judged(i, e, forced, reading, job, source)->insert.fingerprint.len() > 0,
        judged(i, e, forced, reading, job, source)->kind == FindingType::Bug
            ==> judged(i, e, forced, reading, job, source)->insert.bug_class is Some,
{
    reveal_strlit("");
    let kind = entry_type(e, forced)->0;
    if kind == FindingType::Bug && e.text_field("bug_class"@) is None {
        assert(BugClass::of_text(""@) is None) by {
            lemma_no_empty_class();
        }
    }
}

proof fn lemma_no_empty_class()
    ensures
        BugClass::of_text(""@) is None,
{
    reveal_strlit("");
    if let Some(b) = BugClass::of_text(""@) {
        assert(b.text() == ""@);
        assert(b.text().len() > 0) by {
            reveal_strlit("boundary");
            reveal_strlit("error-path");
            reveal_strlit("race");
            reveal_strlit("contract-drift");
            reveal_strlit("leak");
            reveal_strlit("logic");
        }
    }
}

/// Every field that a type requires is given in a stored finding's entry.
pub proof fn law_required_fields_are_given(
    i: i64,
    e: JsonView,
    forced: Option<FindingType>,
    reading: Reading,
    job: Option<i64>,
    source: Option<i64>,
    k: int,
)
    requires
        judged(i, e, forced, reading, job, source) matches JudgedView::Good { kind, .. } && 0 <= k
            < required(kind).len(),
    ensures
        judged(i, e, forced, reading, job, source) matches JudgedView::Good { kind, .. } && is_given(
            e,
            required(kind)[k],
        ),
{
    let kind = entry_type(e, forced)->0;
    if kind != FindingType::Bug {
        lemma_none_missing(e, kind, 0, k);
    }
}

proof fn lemma_none_missing(e: JsonView, kind: FindingType, i: int, k: int)
    requires
        0 <= i <= k < required(kind).len(),
        first_missing(e, kind, i) is None,
    ensures
        is_given(e, required(kind)[k]),
    decreases k - i,
{
    if i < k {
        lemma_none_missing(e, kind, i + 1, k);
    }
}

/// The field of this name that counts: the first.
pub open spec fn is_field(names: Seq<Seq<char>>, values: Seq<JsonView>, key: Seq<char>, i: int) -> bool {
    &&& 0 <= i < names.len()
    &&& i < values.len()
    &&& names[i] == key
    &&& forall|j: int| 0 <= j < i ==> #[trigger] names[j] != key
}

/// Whether a column holds the text of the field of this name; it is empty
/// where the field is missing or no text.
pub open spec fn holds_text(
    names: Seq<Seq<char>>,
    values: Seq<JsonView>,
    key: Seq<char>,
    col: Option<Seq<char>>,
) -> bool {
    &&& col matches Some(s) ==> exists|i: int| #[trigger]
        is_field(names, values, key, i) && (values[i] matches JsonView::Text { value, .. } && value == s)
    &&& col is None ==> forall|i: int| #[trigger] is_field(names, values, key, i) ==> !(values[i] is Text)
}

/// Whether a column that is never empty holds the text of the field of this
/// name, and the empty text where the field is missing or no text.
pub open spec fn holds_text_or_blank(
    names: Seq<Seq<char>>,
    values: Seq<JsonView>,
    key: Seq<char>,
    col: Seq<char>,
) -> bool {
    holds_text(names, values, key, Some(col)) || (col.len() == 0 && holds_text(names, values, key, None))
}

/// Looking a field up finds the first of its name.
proof fn lemma_field_from(names: Seq<Seq<char>>, values: Seq<JsonView>, key: Seq<char>, i: int)
    requires
        0 <= i,
        forall|j: int| 0 <= j < i && j < names.len() ==> #[trigger] names[j] != key,
    ensures
        json::field_from(names, values, key, i) matches Some(v) ==> exists|k: int| #[trigger]
            is_field(names, values, key, k) && values[k] == v,
        json::field_from(names, values, key, i) is None ==> forall|k: int| !#[trigger]
            is_field(names, values, key, k),
    decreases names.len() - i,
{
    if i < names.len() && i < values.len() {
        if names[i] == key {
            assert(is_field(names, values, key, i));
        } else {
            lemma_field_from(names, values, key, i + 1);
        }
    } else {
        assert forall|k: int| !#[trigger] is_field(names, values, key, k) by {
            if is_field(names, values, key, k) {
                assert(names[k] == key);
            }
        }
    }
}

/// There is only one field of a name that counts.
proof fn lemma_one_field(names: Seq<Seq<char>>, values: Seq<JsonView>, key: Seq<char>, i: int, j: int)
    requires
        is_field(names, values, key, i),
        is_field(names, values, key, j),
    ensures
        i == j,
{
    if i < j {
        assert(names[i] != key);
    }
    if j < i {
        assert(names[j] != key);
    }
}

/// The text of a field is held by its column.
proof fn lemma_text_field(names: Seq<Seq<char>>, values: Seq<JsonView>, text: Seq<char>, key: Seq<char>)
    ensures
        ({
            let e = JsonView::Record { names, values, text };
            &&& holds_text(names, values, key, e.text_field(key))
            &&& holds_text_or_blank(names, values, key, e.text_field_or(key, ""@))
        }),
{
    reveal_strlit("");
    lemma_field_from(names, values, key, 0);
    let e = JsonView::Record { names, values, text };
    if let Some(v) = e.field(key) {
        let k = choose|k: int| #[trigger] is_field(names, values, key, k) && values[k] == v;
        assert forall|i: int| #[trigger] is_field(names, values, key, i) implies i == k by {
            lemma_one_field(names, values, key, i, k);
        }
    }
}

/// Every column of a stored finding holds the field of the same name of the
/// entry that it was read from: no column holds another field, and none is
/// filled where its field is missing.
pub proof fn law_columns_hold_their_fields(
    i: i64,
    names: Seq<Seq<char>>,
    values: Seq<JsonView>,
    text: Seq<char>,
    forced: Option<FindingType>,
    reading: Reading,
    job: Option<i64>,
    source: Option<i64>,
)
    ensures
        judged(i, JsonView::Record { names, values, text }, forced, reading, job, source) matches JudgedView::Good {
            insert,
            ..
        } ==> {
            &&& holds_text(names, values, "fingerprint"@, Some(insert.fingerprint))
            &&& holds_text_or_blank(names, values, "file"@, insert.file)
            &&& holds_text_or_blank(names, values, "summary"@, insert.summary)
            &&& holds_text(names, values, "symbol"@, insert.symbol)
            &&& holds_text(names, values, "detail"@, insert.detail)
            &&& holds_text(names, values, "evidence_plan"@, insert.evidence_plan)
            &&& holds_text(names, values, "introduced_by"@, insert.introduced_by)
            &&& holds_text(names, values, "ecosystem"@, insert.ecosystem)
            &&& holds_text(names, values, "package"@, insert.package)
            &&& holds_text(names, values, "current_version"@, insert.current_version)
            &&& holds_text(names, values, "latest_version"@, insert.latest_version)
            &&& holds_text(names, values, "update_type"@, insert.update_type)
            &&& holds_text(names, values, "security_advisory"@, insert.security_advisory)
            &&& holds_text(names, values, "test_file"@, insert.test_file)
            &&& holds_text(names, values, "smell_type"@, insert.smell_type)
            &&& holds_text(names, values, "suggested_refactor"@, insert.suggested_refactor)
            &&& holds_text(names, values, "modernization_class"@, insert.modernization_class)
            &&& holds_text(names, values, "current_approach"@, insert.current_approach)
            &&& holds_text(names, values, "proposed_approach"@, insert.proposed_approach)
            &&& holds_text(names, values, "standard_section"@, insert.standard_section)
        },
{
    let e = JsonView::Record { names, values, text };
    reveal_strlit("");
    lemma_text_field(names, values, text, "fingerprint"@);
    lemma_text_field(names, values, text, "file"@);
    lemma_text_field(names, values, text, "summary"@);
    lemma_text_field(names, values, text, "symbol"@);
    lemma_text_field(names, values, text, "detail"@);
    lemma_text_field(names, values, text, "evidence_plan"@);
    lemma_text_field(names, values, text, "introduced_by"@);
    lemma_text_field(names, values, text, "ecosystem"@);
    lemma_text_field(names, values, text, "package"@);
    lemma_text_field(names, values, text, "current_version"@);
    lemma_text_field(names, values, text, "latest_version"@);
    lemma_text_field(names, values, text, "update_type"@);
    lemma_text_field(names, values, text, "security_advisory"@);
    lemma_text_field(names, values, text, "test_file"@);
    lemma_text_field(names, values, text, "smell_type"@);
    lemma_text_field(names, values, text, "suggested_refactor"@);
    lemma_text_field(names, values, text, "modernization_class"@);
    lemma_text_field(names, values, text, "current_approach"@);
    lemma_text_field(names, values, text, "proposed_approach"@);
    lemma_text_field(names, values, text, "standard_section"@);
}

/// The columns that are not plain texts: the line is the integer of its
/// field, the missing tests are the compact text of their list, the severity
/// is its field's word in lower case or medium where there is none, and a bug
/// keeps the class that its field names.
pub proof fn law_other_columns_hold_their_fields(
    i: i64,
    names: Seq<Seq<char>>,
    values: Seq<JsonView>,
    text: Seq<char>,
    forced: Option<FindingType>,
    reading: Reading,
    job: Option<i64>,
    source: Option<i64>,
    k: int,
)
    ensures
        judged(i, JsonView::Record { names, values, text }, forced, reading, job, source) matches JudgedView::Good {
            kind,
            insert,
        } ==> {
            &&& is_field(names, values, "line"@, k) ==> insert.line == (match values[k] {
                JsonView::Number { whole, .. } => whole,
                _ => None,
            })
            &&& is_field(names, values, "missing_tests"@, k) ==> insert.missing_tests == (match values[k] {
                JsonView::List { text, .. } => Some(text),
                JsonView::Text { value, .. } => Some(value),
                _ => None,
            })
            &&& is_field(names, values, "severity"@, k) && values[k] is Text ==> insert.severity
                == text::lower(values[k]->value) && (insert.severity == "low"@ || insert.severity == "medium"@
                || insert.severity == "high"@)
            &&& is_field(names, values, "bug_class"@, k) && values[k] is Text ==> insert.bug_class == (if kind
                == FindingType::Bug {
                Some(values[k]->value)
            } else {
                None
            })
        },
{
    reveal_strlit("");
    lemma_found(names, values, text, "line"@, k);
    lemma_found(names, values, text, "missing_tests"@, k);
    lemma_found(names, values, text, "severity"@, k);
    lemma_found(names, values, text, "bug_class"@, k);
}

proof fn lemma_found(names: Seq<Seq<char>>, values: Seq<JsonView>, text: Seq<char>, key: Seq<char>, k: int)
    ensures
        is_field(names, values, key, k) ==> (JsonView::Record { names, values, text }).field(key) == Some(
            values[k],
        ),
{
    lemma_field_from(names, values, key, 0);
    if is_field(names, values, key, k) {
        let v = json::field_from(names, values, key, 0)->0;
        let j = choose|j: int| #[trigger] is_field(names, values, key, j) && values[j] == v;
        lemma_one_field(names, values, key, j, k);
    }
}

/// The missing columns: no line, no missing tests, a medium severity.
pub proof fn law_missing_fields_leave_their_columns_empty(
    i: i64,
    names: Seq<Seq<char>>,
    values: Seq<JsonView>,
    text: Seq<char>,
    forced: Option<FindingType>,
    reading: Reading,
    job: Option<i64>,
    source: Option<i64>,
)
    ensures
        judged(i, JsonView::Record { names, values, text }, forced, reading, job, source) matches JudgedView::Good {
            kind,
            insert,
        } ==> {
            &&& (forall|k: int| !#[trigger] is_field(names, values, "line"@, k)) ==> insert.line is None
            &&& (forall|k: int| !#[trigger] is_field(names, values, "missing_tests"@, k))
                ==> insert.missing_tests is None
            &&& (forall|k: int| !#[trigger] is_field(names, values, "severity"@, k)) ==> insert.severity
                == "medium"@ && kind != FindingType::Bug
        },
{
    lemma_field_from(names, values, "line"@, 0);
    lemma_field_from(names, values, "missing_tests"@, 0);
    lemma_field_from(names, values, "severity"@, 0);
    reveal_strlit("");
    reveal_strlit("low");
    reveal_strlit("medium");
    reveal_strlit("high");
    assert("low"@.len() == 3);
    assert("high"@.len() == 4);
    assert("medium"@.len() == 6);
    assert(text::lower(""@).len() == 0);
    assert(text::lower("medium"@) =~= "medium"@);
}

/// A text that is not empty stands in the field of this name.
pub open spec fn says_something(names: Seq<Seq<char>>, values: Seq<JsonView>, key: Seq<char>) -> bool {
    exists|i: int| #[trigger]
        is_field(names, values, key, i) && (values[i] matches JsonView::Text { value, .. } && value.len() > 0)
}

/// A list that is not empty stands in the field of this name.
pub open spec fn lists_something(names: Seq<Seq<char>>, values: Seq<JsonView>, key: Seq<char>) -> bool {
    exists|i: int| #[trigger]
        is_field(names, values, key, i) && (values[i] matches JsonView::List { items, .. } && items.len() > 0)
}

/// What each type of finding has to say.
pub open spec fn says_what_it_must(names: Seq<Seq<char>>, values: Seq<JsonView>, kind: FindingType) -> bool {
    &&& says_something(names, values, "fingerprint"@)
    &&& match kind {
        FindingType::Bug => true,
        FindingType::DepUpdate => says_something(names, values, "ecosystem"@) && says_something(
            names,
            values,
            "package"@,
        ) && says_something(names, values, "current_version"@) && says_something(
            names,
            values,
            "latest_version"@,
        ) && says_something(names, values, "update_type"@),
        FindingType::TestGap => lists_something(names, values, "missing_tests"@) && says_something(
            names,
            values,
            "test_file"@,
        ),
        FindingType::Refactor => says_something(names, values, "smell_type"@) && says_something(
            names,
            values,
            "suggested_refactor"@,
        ),
        FindingType::Modernization => says_something(names, values, "modernization_class"@)
            && says_something(names, values, "current_approach"@) && says_something(
            names,
            values,
            "proposed_approach"@,
        ),
        FindingType::Standards => says_something(names, values, "standard_section"@) && says_something(
            names,
            values,
            "current_approach"@,
        ) && says_something(names, values, "proposed_approach"@),
    }
}

proof fn lemma_says(names: Seq<Seq<char>>, values: Seq<JsonView>, text: Seq<char>, key: Seq<char>)
    ensures
        ({
            let e = JsonView::Record { names, values, text };
            &&& (e.text_field(key) matches Some(s) && s.len() > 0) <==> says_something(names, values, key)
            &&& (e.field(key) matches Some(v) && v.as_list() matches Some(items) && items.len() > 0)
                <==> lists_something(names, values, key)
        }),
{
    lemma_field_from(names, values, key, 0);
    let e = JsonView::Record { names, values, text };
    if let Some(v) = e.field(key) {
        let k = choose|k: int| #[trigger] is_field(names, values, key, k) && values[k] == v;
        assert forall|i: int| #[trigger] is_field(names, values, key, i) implies i == k by {
            lemma_one_field(names, values, key, i, k);
        }
    }
}

proof fn lemma_required(e: JsonView, kind: FindingType)
    ensures
        first_missing(e, kind, 0) is None <==> forall|k: int|
            0 <= k < required(kind).len() ==> is_given(e, #[trigger] required(kind)[k]),
{
    lemma_required_from(e, kind, 0);
}

proof fn lemma_required_from(e: JsonView, kind: FindingType, i: int)
    requires
        0 <= i,
    ensures
        first_missing(e, kind, i) is None <==> forall|k: int|
            i <= k < required(kind).len() ==> is_given(e, #[trigger] required(kind)[k]),
    decreases required(kind).len() - i,
{
    if i < required(kind).len() {
        lemma_required_from(e, kind, i + 1);
    }
}

/// A stored finding says what its type must; an entry that does not is never
/// stored.
pub proof fn law_stored_findings_say_what_they_must(
    i: i64,
    names: Seq<Seq<char>>,
    values: Seq<JsonView>,
    text: Seq<char>,
    forced: Option<FindingType>,
    reading: Reading,
    job: Option<i64>,
    source: Option<i64>,
)
    ensures
        judged(i, JsonView::Record { names, values, text }, forced, reading, job, source) matches JudgedView::Good {
            kind,
            ..
        } ==> says_what_it_must(names, values, kind) && (forced matches Some(t) ==> kind == t),
{
    let e = JsonView::Record { names, values, text };
    reveal_strlit("");
    if let JudgedView::Good { kind, .. } = judged(i, e, forced, reading, job, source) {
        lemma_says(names, values, text, "fingerprint"@);
        lemma_type_fields(names, values, text, kind);
    }
}

/// An entry that says what its type must, with a severity that is known or
/// left out, and a confidence that is a number or left out, is stored.
pub proof fn law_complete_entry_is_stored(
    i: i64,
    names: Seq<Seq<char>>,
    values: Seq<JsonView>,
    text: Seq<char>,
    kind: FindingType,
    reading: Reading,
    job: Option<i64>,
    source: Option<i64>,
)
    requires
        kind != FindingType::Bug,
        says_what_it_must(names, values, kind),
        forall|k: int| #[trigger]
            is_field(names, values, "severity"@, k) ==> (values[k] matches JsonView::Text { value, .. } && (
            text::lower(value) == "low"@ || text::lower(value) == "medium"@ || text::lower(value) == "high"@)),
        forall|k: int| #[trigger] is_field(names, values, "confidence"@, k) ==> values[k] is Number,
    ensures
        judged(i, JsonView::Record { names, values, text }, Some(kind), reading, job, source) matches JudgedView::Good {
            kind: k,
            ..
        } && k == kind,
{
    let e = JsonView::Record { names, values, text };
    reveal_strlit("");
    lemma_says(names, values, text, "fingerprint"@);
    lemma_type_fields(names, values, text, kind);
    lemma_field_from(names, values, "severity"@, 0);
    lemma_field_from(names, values, "confidence"@, 0);
    reveal_strlit("medium");
    assert(text::lower("medium"@) =~= "medium"@);
}

/// A bug is stored exactly where its class is one of six and its severity one
/// of three, beside what every entry must say.
pub proof fn law_bug_is_stored_by_its_class(
    i: i64,
    names: Seq<Seq<char>>,
    values: Seq<JsonView>,
    text: Seq<char>,
    reading: Reading,
    job: Option<i64>,
    source: Option<i64>,
    c: int,
    s: int,
)
    requires
        is_field(names, values, "bug_class"@, c),
        is_field(names, values, "severity"@, s),
        says_something(names, values, "fingerprint"@),
        forall|k: int| #[trigger] is_field(names, values, "confidence"@, k) ==> values[k] is Number,
    ensures
        judged(i, JsonView::Record { names, values, text }, Some(FindingType::Bug), reading, job, source) is Good
            <==> {
            &&& values[c] matches JsonView::Text { value, .. } && (value == "boundary"@ || value
                == "error-path"@ || value == "race"@ || value == "contract-drift"@ || value == "leak"@ || value
                == "logic"@)
            &&& values[s] matches JsonView::Text { value, .. } && (text::lower(value) == "low"@
                || text::lower(value) == "medium"@ || text::lower(value) == "high"@)
        },
{
    lemma_says(names, values, text, "fingerprint"@);
    lemma_found(names, values, text, "bug_class"@, c);
    lemma_found(names, values, text, "severity"@, s);
    lemma_field_from(names, values, "confidence"@, 0);
    lemma_no_empty_class();
    reveal_strlit("");
    reveal_strlit("low");
    reveal_strlit("medium");
    reveal_strlit("high");
    assert("low"@.len() == 3);
    assert("high"@.len() == 4);
    assert("medium"@.len() == 6);
    assert(text::lower(""@).len() == 0);
}

/// The fields that a type requires, one by one.
proof fn lemma_type_fields(names: Seq<Seq<char>>, values: Seq<JsonView>, text: Seq<char>, kind: FindingType)
    ensures
        says_something(names, values, "fingerprint"@) && first_missing(
            JsonView::Record { names, values, text },
            kind,
            0,
        ) is None <==> says_what_it_must(names, values, kind),
{
    let e = JsonView::Record { names, values, text };
    let r = required(kind);
    lemma_required(e, kind);
    reveal_strlit("missing_tests");
    reveal_strlit("ecosystem");
    reveal_strlit("package");
    reveal_strlit("current_version");
    reveal_strlit("latest_version");
    reveal_strlit("update_type");
    reveal_strlit("test_file");
    reveal_strlit("smell_type");
    reveal_strlit("suggested_refactor");
    reveal_strlit("modernization_class");
    reveal_strlit("current_approach");
    reveal_strlit("proposed_approach");
    reveal_strlit("standard_section");
    assert("missing_tests"@.len() == 13);
    assert forall|k: int| 0 <= k < r.len() implies (is_given(e, #[trigger] r[k]) <==> (if r[k]
        == "missing_tests"@ {
        lists_something(names, values, r[k])
    } else {
        says_something(names, values, r[k])
    })) by {
        lemma_says(names, values, text, r[k]);
    }
    match kind {
        FindingType::Bug => {},
        FindingType::DepUpdate => {
            assert(r[0] == "ecosystem"@ && r[1] == "package"@ && r[2] == "current_version"@ && r[3]
                == "latest_version"@ && r[4] == "update_type"@);
        },
        FindingType::TestGap => {
            assert(r[0] == "missing_tests"@ && r[1] == "test_file"@);
        },
        FindingType::Refactor => {
            assert(r[0] == "smell_type"@ && r[1] == "suggested_refactor"@);
        },
        FindingType::Modernization => {
            assert(r[0] == "modernization_class"@ && r[1] == "current_approach"@ && r[2]
                == "proposed_approach"@);
        },
        FindingType::Standards => {
            assert(r[0] == "standard_section"@ && r[1] == "current_approach"@ && r[2]
                == "proposed_approach"@);
        },
    }
}

/// What the store answers decides what an entry counts as: a new finding is
/// inserted and logged under its own number, a known one is a duplicate and
/// says nothing, a failed one is invalid and logged as an error.
pub proof fn law_store_answer_decides_the_count(
    i: i64,
    kind: FindingType,
    fingerprint: Seq<char>,
    stored: Stored,
    job: Option<i64>,
    source: Option<i64>,
)
    ensures
        ({
            let (v, c) = settled(i, kind, fingerprint, stored, job, source);
            match stored {
                Stored::New { id } => c == Counts::Inserted && v.len() == 1 && (v[0] matches EffectView::Log {
                    finding,
                    job: j,
                    ..
                } && finding == Some(id) && j == job),
                Stored::Known => c == Counts::Duplicate && v.len() == 0,
                Stored::Failed { .. } => c == Counts::Invalid && v.len() == 1 && (v[0] matches EffectView::Log {
                    kind: k,
                    finding,
                    job: j,
                    ..
                } && k == "error"@ && finding == source && j == job),
            }
        }),
{
}

} // verus!
