//! What the store's writes and reads decide, apart from the database.

use vstd::prelude::*;
use crate::domain::{FindingStatus, FindingType, ForgeName, JobKind};
use crate::scheduler::resume::ChainStats;
use crate::text;
use crate::text::Cut;
use crate::time;
use crate::types::{Event, Finding};
use crate::util;

verus! {

/// What the forge says of an open pull request, as it is stored.
#[derive(Debug, Clone)]
pub struct SyncPrData {
    pub pr_number: i64,
    pub state: String,
    pub mergeable: String,
    pub checks: Option<String>,
    pub head_ref: String,
    pub head_sha: String,
    pub last_activity_at: i64,
    pub last_engaged_activity_at: i64,
    pub needs_attention: Option<String>,
    pub attention_fingerprint: Option<String>,
    pub synced_at: i64,
    /// `None` leaves the column as it is.
    pub attention_since: Option<Option<i64>>,
    pub clear_addressed: bool,
}

pub struct SyncPrDataView {
    pub pr_number: i64,
    pub state: Seq<char>,
    pub mergeable: Seq<char>,
    pub checks: Option<Seq<char>>,
    pub head_ref: Seq<char>,
    pub head_sha: Seq<char>,
    pub last_activity_at: i64,
    pub last_engaged_activity_at: i64,
    pub needs_attention: Option<Seq<char>>,
    pub attention_fingerprint: Option<Seq<char>>,
    pub synced_at: i64,
    pub attention_since: Option<Option<i64>>,
    pub clear_addressed: bool,
}

impl View for SyncPrData {
    type V = SyncPrDataView;

    open spec fn view(&self) -> SyncPrDataView {
        SyncPrDataView {
            pr_number: self.pr_number,
            state: self.state@,
            mergeable: self.mergeable@,
            checks: text::opt_text(self.checks),
            head_ref: self.head_ref@,
            head_sha: self.head_sha@,
            last_activity_at: self.last_activity_at,
            last_engaged_activity_at: self.last_engaged_activity_at,
            needs_attention: text::opt_text(self.needs_attention),
            attention_fingerprint: text::opt_text(self.attention_fingerprint),
            synced_at: self.synced_at,
            attention_since: self.attention_since,
            clear_addressed: self.clear_addressed,
        }
    }
}

/// A new finding, all but its confidence.
#[derive(Debug, Clone)]
pub struct FindingInsert {
    pub fingerprint: String,
    pub file: String,
    pub symbol: Option<String>,
    pub line: Option<i64>,
    pub severity: String,
    pub summary: String,
    pub detail: Option<String>,
    pub bug_class: Option<String>,
    pub evidence_plan: Option<String>,
    pub introduced_by: Option<String>,
    pub ecosystem: Option<String>,
    pub package: Option<String>,
    pub current_version: Option<String>,
    pub latest_version: Option<String>,
    pub update_type: Option<String>,
    pub security_advisory: Option<String>,
    pub missing_tests: Option<String>,
    pub test_file: Option<String>,
    pub smell_type: Option<String>,
    pub suggested_refactor: Option<String>,
    pub modernization_class: Option<String>,
    pub current_approach: Option<String>,
    pub proposed_approach: Option<String>,
    pub standard_section: Option<String>,
}

pub struct FindingInsertView {
    pub fingerprint: Seq<char>,
    pub file: Seq<char>,
    pub symbol: Option<Seq<char>>,
    pub line: Option<i64>,
    pub severity: Seq<char>,
    pub summary: Seq<char>,
    pub detail: Option<Seq<char>>,
    pub bug_class: Option<Seq<char>>,
    pub evidence_plan: Option<Seq<char>>,
    pub introduced_by: Option<Seq<char>>,
    pub ecosystem: Option<Seq<char>>,
    pub package: Option<Seq<char>>,
    pub current_version: Option<Seq<char>>,
    pub latest_version: Option<Seq<char>>,
    pub update_type: Option<Seq<char>>,
    pub security_advisory: Option<Seq<char>>,
    pub missing_tests: Option<Seq<char>>,
    pub test_file: Option<Seq<char>>,
    pub smell_type: Option<Seq<char>>,
    pub suggested_refactor: Option<Seq<char>>,
    pub modernization_class: Option<Seq<char>>,
    pub current_approach: Option<Seq<char>>,
    pub proposed_approach: Option<Seq<char>>,
    pub standard_section: Option<Seq<char>>,
}

impl View for FindingInsert {
    type V = FindingInsertView;

    open spec fn view(&self) -> FindingInsertView {
        FindingInsertView {
            fingerprint: self.fingerprint@,
            file: self.file@,
            symbol: text::opt_text(self.symbol),
            line: self.line,
            severity: self.severity@,
            summary: self.summary@,
            detail: text::opt_text(self.detail),
            bug_class: text::opt_text(self.bug_class),
            evidence_plan: text::opt_text(self.evidence_plan),
            introduced_by: text::opt_text(self.introduced_by),
            ecosystem: text::opt_text(self.ecosystem),
            package: text::opt_text(self.package),
            current_version: text::opt_text(self.current_version),
            latest_version: text::opt_text(self.latest_version),
            update_type: text::opt_text(self.update_type),
            security_advisory: text::opt_text(self.security_advisory),
            missing_tests: text::opt_text(self.missing_tests),
            test_file: text::opt_text(self.test_file),
            smell_type: text::opt_text(self.smell_type),
            suggested_refactor: text::opt_text(self.suggested_refactor),
            modernization_class: text::opt_text(self.modernization_class),
            current_approach: text::opt_text(self.current_approach),
            proposed_approach: text::opt_text(self.proposed_approach),
            standard_section: text::opt_text(self.standard_section),
        }
    }
}

// ---------------------------------------------------------------------
// Places
// ---------------------------------------------------------------------

/// The directory that a repository is cloned into. It is named by the id: a
/// name is whatever was typed.
pub fn repo_dir(repos_dir: &str, repo_id: i64) -> (r: String)
    ensures
        r@ == util::path_join(repos_dir@, "repo-"@ + text::int_text(repo_id as int)),
{
    let name = "repo-".to_owned().concat(text::int_to_text(repo_id).as_str());
    util::join_path(repos_dir, &name)
}

/// Where the notes on a repository lie: outside of its clone.
pub fn notes_path(work_root: &str, repo_id: i64) -> (r: String)
    ensures
        r@ == util::path_join(
            util::path_join(work_root@, "notes"@),
            "repo-"@ + text::int_text(repo_id as int) + ".md"@,
        ),
{
    let name = "repo-".to_owned().concat(text::int_to_text(repo_id).as_str()).concat(".md");
    util::join_path(&util::join_path(work_root, "notes"), &name)
}

// ---------------------------------------------------------------------
// Notes
// ---------------------------------------------------------------------

/// How many characters of the notes are shown.
pub const MAX_NOTES_CHARS: usize = 4000;

/// The notes as they are shown: the end of them, where they are long.
pub open spec fn shown_notes(notes: Seq<char>) -> Seq<char> {
    if notes.len() <= MAX_NOTES_CHARS {
        notes
    } else {
        "...(older notes truncated)...\n"@ + notes.skip(notes.len() - MAX_NOTES_CHARS)
    }
}

/// The notes as they are shown.
pub fn repo_notes(notes: &str) -> (r: String)
    ensures
        r@ == shown_notes(notes@),
{
    let total: usize = notes.unicode_len();
    if total <= MAX_NOTES_CHARS {
        return notes.to_owned();
    }
    let end = text::skip_chars(notes, total - MAX_NOTES_CHARS);
    "...(older notes truncated)...\n".to_owned().concat(&end)
}

/// What is appended to the notes: the head of a new file, the category where
/// there is one, and the note under its time.
pub open spec fn note_entry(
    first: bool,
    repo_name: Seq<char>,
    note: Seq<char>,
    category: Option<Seq<char>>,
    date: Seq<char>,
    clock: Seq<char>,
) -> Seq<char> {
    (if first { "# Notes: "@ + repo_name + "\n\nLast updated: "@ + date + "\n\n"@ } else { ""@ }) + (
    match category {
        Some(c) => "## "@ + c + "\n"@,
        None => ""@,
    }) + ("- ["@ + date + " "@ + clock + "] "@ + note + "\n\n"@)
}

/// What is appended to the notes, at a second since 1970.
pub fn append_repo_note(first: bool, repo_name: &str, note: &str, category: &Option<String>, now_s: u64) -> (r: String)
    ensures
        exists|date: Seq<char>|
            #[trigger] time::is_day_text(now_s, date) && r@ == note_entry(
                first,
                repo_name@,
                note@,
                text::opt_text(*category),
                date,
                time::clock_text(now_s),
            ),
{
    let (date, clock) = time::utc_date_time(now_s);
    let head: String = if first {
        "# Notes: ".to_owned().concat(repo_name).concat("\n\nLast updated: ").concat(&date).concat(
            "\n\n",
        )
    } else {
        "".to_owned()
    };
    let mid: String = match category {
        Some(c) => "## ".to_owned().concat(c).concat("\n"),
        None => "".to_owned(),
    };
    let line = "- [".to_owned().concat(&date).concat(" ").concat(&clock).concat("] ").concat(note).concat(
        "\n\n",
    );
    assert(time::is_day_text(now_s, date@));
    head.concat(&mid).concat(&line)
}

// ---------------------------------------------------------------------
// Repositories
// ---------------------------------------------------------------------

/// What is changed of a repository; what is not given stays.
#[derive(Debug, Clone)]
pub struct RepoUpdate {
    pub enabled: Option<i64>,
    pub url: Option<String>,
    pub default_branch: Option<String>,
    pub forge: Option<ForgeName>,
    pub name: Option<String>,
}

impl RepoUpdate {
    pub open spec fn changes_nothing(self) -> bool {
        self.enabled is None && self.url is None && self.default_branch is None && self.forge is None
            && self.name is None
    }

    pub fn is_empty(&self) -> (r: bool)
        ensures
            r == self.changes_nothing(),
    {
        self.enabled.is_none() && self.url.is_none() && self.default_branch.is_none()
            && self.forge.is_none() && self.name.is_none()
    }

    /// No change.
    pub fn none() -> (r: RepoUpdate)
        ensures
            r.changes_nothing(),
    {
        RepoUpdate { enabled: None, url: None, default_branch: None, forge: None, name: None }
    }
}

/// Why a repository cannot be deleted: something refers to it.
pub open spec fn delete_refused(id: i64, findings: i64, jobs: i64) -> Option<Seq<char>> {
    if findings > 0 || jobs > 0 {
        Some(
            "repo "@ + text::int_text(id as int) + " has "@ + text::int_text(findings as int)
                + " finding(s) and "@ + text::int_text(jobs as int)
                + " job(s) -- cannot delete without losing history; pause it instead"@,
        )
    } else {
        None
    }
}

pub fn delete_refusal(id: i64, findings: i64, jobs: i64) -> (r: Option<String>)
    ensures
        text::opt_text(r) == delete_refused(id, findings, jobs),
{
    if findings > 0 || jobs > 0 {
        Some(
            "repo ".to_owned().concat(text::int_to_text(id).as_str()).concat(" has ").concat(
                text::int_to_text(findings).as_str(),
            ).concat(" finding(s) and ").concat(text::int_to_text(jobs).as_str()).concat(
                " job(s) -- cannot delete without losing history; pause it instead",
            ),
        )
    } else {
        None
    }
}

/// The name of a deleted repository: its own becomes free.
pub fn deleted_name(name: &str, id: i64) -> (r: String)
    ensures
        r@ == name@ + " (deleted #"@ + text::int_text(id as int) + ")"@,
{
    name.to_owned().concat(" (deleted #").concat(text::int_to_text(id).as_str()).concat(")")
}

/// Why no job starts in a repository that is deleted.
pub fn job_refusal(repo_id: i64, kind: JobKind) -> (r: String)
    ensures
        r@ == "repo "@ + text::int_text(repo_id as int) + " is deleted -- cannot start a "@
            + kind.text() + " job"@,
{
    "repo ".to_owned().concat(text::int_to_text(repo_id).as_str()).concat(
        " is deleted -- cannot start a ",
    ).concat(kind.as_str()).concat(" job")
}

// ---------------------------------------------------------------------
// Findings
// ---------------------------------------------------------------------

/// Which findings are listed; all that is given has to hold.
#[derive(Debug, Clone, Copy, PartialEq, Eq, Structural)]
pub struct FindingFilter {
    pub status: Option<FindingStatus>,
    pub repo_id: Option<i64>,
    pub kind: Option<FindingType>,
    pub min_severity_rank: Option<i64>,
}

impl FindingFilter {
    /// All findings.
    pub fn all() -> (r: FindingFilter)
        ensures
            forall|f: Finding| #[trigger] r.lists(f),
    {
        FindingFilter { status: None, repo_id: None, kind: None, min_severity_rank: None }
    }

    /// The findings in one status.
    pub fn in_status(status: FindingStatus) -> (r: FindingFilter)
        ensures
            forall|f: Finding| #[trigger] r.lists(f) <==> f.status == status,
    {
        FindingFilter {
            status: Some(status),
            repo_id: None,
            kind: None,
            min_severity_rank: None,
        }
    }

    pub open spec fn lists(self, f: Finding) -> bool {
        &&& self.status matches Some(s) ==> f.status == s
        &&& self.repo_id matches Some(r) ==> f.repo_id == r
        &&& self.kind matches Some(k) ==> f.kind == k
        &&& self.min_severity_rank matches Some(n) ==> f.severity.level() >= n
    }

    pub fn admits(&self, f: &Finding) -> (r: bool)
        ensures
            r == self.lists(*f),
    {
        let status: bool = match self.status {
            Some(s) => f.status == s,
            None => true,
        };
        let repo: bool = match self.repo_id {
            Some(r) => f.repo_id == r,
            None => true,
        };
        let kind: bool = match self.kind {
            Some(k) => f.kind == k,
            None => true,
        };
        let severity: bool = match self.min_severity_rank {
            Some(n) => f.severity.rank() >= n,
            None => true,
        };
        status && repo && kind && severity
    }
}

/// Whether a finding is one that a hunt of a type leaves alone.
pub fn is_suppression(f: &Finding, repo_id: i64, kind: FindingType) -> (r: bool)
    ensures
        r == (f.repo_id == repo_id && f.kind == kind && f.status.suppressed()),
{
    f.repo_id == repo_id && f.kind == kind && f.status.is_suppressed()
}

/// Whether a finding is one that a hunt of a type knows already.
pub fn is_known(f: &Finding, repo_id: i64, kind: FindingType) -> (r: bool)
    ensures
        r == (f.repo_id == repo_id && f.kind == kind && !f.status.suppressed()),
{
    f.repo_id == repo_id && f.kind == kind && !f.status.is_suppressed()
}

/// How often the same failure has come in a row, with the one that just came.
pub open spec fn streak(last: Option<Seq<char>>, attempts: int, failure: Seq<char>) -> int {
    if last == Some(failure) { attempts + 1 } else { 1 }
}

pub fn next_attempts(last: &Option<String>, attempts: i64, failure: &str) -> (r: i64)
    requires
        streak(text::opt_text(*last), attempts as int, failure@) <= i64::MAX,
    ensures
        r == streak(text::opt_text(*last), attempts as int, failure@),
{
    if text::opt_is(last, failure) {
        attempts + 1
    } else {
        1
    }
}

/// The note on a suspended job whose place another took: the one that
/// continues it, or a fresh one.
pub open spec fn replaced_text(by: i64, continued: bool) -> Seq<char> {
    (if continued { "continued by job "@ } else { "superseded by job "@ }) + text::int_text(by as int)
}

pub fn replaced_note(by: i64, continued: bool) -> (r: String)
    ensures
        r@ == replaced_text(by, continued),
{
    let start: &str = if continued {
        "continued by job "
    } else {
        "superseded by job "
    };
    start.to_owned().concat(text::int_to_text(by).as_str())
}

/// The ids in a text that lists them.
pub open spec fn ids_in(pieces: Seq<Seq<char>>) -> Seq<i64>
    decreases pieces.len(),
{
    if pieces.len() == 0 {
        Seq::empty()
    } else {
        let before = ids_in(pieces.drop_last());
        match text::parse_i64(pieces.last()) {
            Some(n) => before.push(n as i64),
            None => before,
        }
    }
}

/// The findings that a job produced, from the text that lists their ids.
pub fn produced_ids(listed: &str) -> (r: Vec<i64>)
    ensures
        r@ == ids_in(text::split(listed@, Cut::At(','))),
{
    let pieces = text::split_text(listed, Cut::At(','));
    let ghost all = text::texts(pieces@);
    let mut out: Vec<i64> = Vec::new();
    let mut i: usize = 0;
    while i < pieces.len()
        invariant
            i <= pieces@.len(),
            all == text::texts(pieces@),
            out@ == ids_in(all.take(i as int)),
        decreases pieces@.len() - i,
    {
        proof {
            assert(all.take(i + 1).drop_last() =~= all.take(i as int));
            assert(all.take(i + 1).last() == pieces@[i as int]@);
        }
        if let Some(n) = text::read_i64(&pieces[i]) {
            out.push(n);
        }
        i = i + 1;
    }
    assert(all.take(all.len() as int) =~= all);
    out
}

/// The positions of a finding's events, each once, by ascending id; events of
/// one id keep the order in which they were read.
pub open spec fn is_timeline(events: Seq<Event>, finding: i64, order: Seq<usize>) -> bool {
    &&& forall|i: int|
        0 <= i < order.len() ==> (#[trigger] order[i]) < events.len() && events[order[i] as int].finding_id
            == Some(finding)
    &&& forall|k: int|
        0 <= k < events.len() && (#[trigger] events[k]).finding_id == Some(finding) ==> exists|i: int|
            0 <= i < order.len() && order[i] == k
    &&& forall|i: int, j: int|
        0 <= i < j < order.len() ==> events[#[trigger] order[i] as int].id <= events[#[trigger] order[j] as int].id
    &&& forall|i: int, j: int|
        0 <= i < j < order.len() && events[order[i] as int].id == events[order[j] as int].id
            ==> #[trigger] order[i] < #[trigger] order[j]
    &&& forall|i: int, j: int| 0 <= i < j < order.len() ==> #[trigger] order[i] != #[trigger] order[j]
}

/// The events of a finding, oldest first.
pub fn timeline(events: &Vec<Event>, finding: i64) -> (r: Vec<usize>)
    ensures
        is_timeline(events@, finding, r@),
{
    let mut out: Vec<usize> = Vec::new();
    let mut k: usize = 0;
    while k < events.len()
        invariant
            k <= events@.len(),
            forall|i: int|
                0 <= i < out@.len() ==> (#[trigger] out@[i]) < k && events@[out@[i] as int].finding_id
                    == Some(finding),
            forall|m: int|
                0 <= m < k && (#[trigger] events@[m]).finding_id == Some(finding) ==> exists|i: int|
                    0 <= i < out@.len() && out@[i] == m,
            forall|i: int, j: int|
                0 <= i < j < out@.len() ==> events@[#[trigger] out@[i] as int].id
                    <= events@[#[trigger] out@[j] as int].id,
            forall|i: int, j: int|
                0 <= i < j < out@.len() && events@[out@[i] as int].id == events@[out@[j] as int].id
                    ==> #[trigger] out@[i] < #[trigger] out@[j],
            forall|i: int, j: int|
                0 <= i < j < out@.len() ==> #[trigger] out@[i] != #[trigger] out@[j],
        decreases events@.len() - k,
    {
        let mine: bool = match events[k].finding_id {
            Some(f) => f == finding,
            None => false,
        };
        if mine {
            let ghost prev = out@;
            let mut p: usize = out.len();
            while p > 0 && events[k].id < events[out[p - 1]].id
                invariant
                    p <= out@.len(),
                    k < events@.len(),
                    forall|i: int| 0 <= i < out@.len() ==> (#[trigger] out@[i]) < k,
                    forall|i: int|
                        p <= i < out@.len() ==> events@[k as int].id < events@[(#[trigger] out@[i]) as int].id,
                decreases p,
            {
                p = p - 1;
            }
            proof {
                assert forall|i: int| 0 <= i < p implies events@[(#[trigger] out@[i]) as int].id
                    <= events@[k as int].id by {
                    let l = p - 1;
                    if i < l {
                        assert(events@[out@[i] as int].id <= events@[out@[l] as int].id);
                    }
                }
            }
            out.insert(p, k);
            proof {
                assert forall|m: int| 0 <= m < k + 1 && (#[trigger] events@[m]).finding_id == Some(
                    finding,
                ) implies exists|i: int| 0 <= i < out@.len() && out@[i] == m by {
                    if m < k {
                        let i0 = choose|i: int| 0 <= i < prev.len() && prev[i] == m;
                        if i0 < p {
                            assert(out@[i0] == m);
                        } else {
                            assert(out@[i0 + 1] == m);
                        }
                    } else {
                        assert(out@[p as int] == m);
                    }
                }
            }
        }
        k = k + 1;
    }
    out
}

/// The count of a status among the counts that were read; zero without one.
pub open spec fn count_of(rows: Seq<(FindingStatus, i64)>, status: FindingStatus) -> i64
    decreases rows.len(),
{
    if rows.len() == 0 {
        0
    } else if rows.last().0 == status {
        rows.last().1
    } else {
        count_of(rows.drop_last(), status)
    }
}

/// The count of a status.
pub fn status_count(rows: &Vec<(FindingStatus, i64)>, status: FindingStatus) -> (r: i64)
    ensures
        r == count_of(rows@, status),
{
    let mut i: usize = rows.len();
    assert(rows@.take(i as int) =~= rows@);
    while i > 0
        invariant
            i <= rows@.len(),
            count_of(rows@, status) == count_of(rows@.take(i as int), status),
        decreases i,
    {
        assert(rows@.take(i as int).drop_last() =~= rows@.take(i - 1));
        i = i - 1;
        if rows[i].0 == status {
            return rows[i].1;
        }
    }
    0
}

// ---------------------------------------------------------------------
// Chains of attempts
// ---------------------------------------------------------------------

/// A job, and the attempt that it continues.
#[derive(Debug, Clone, Copy, PartialEq, Eq, Structural)]
pub struct Link {
    pub id: i64,
    pub resume_of: Option<i64>,
    pub tokens: i64,
}

/// The position of a job.
pub open spec fn link_at(v: Seq<Link>, id: i64, i: int) -> Option<int>
    decreases v.len() - i,
{
    if i < 0 || i >= v.len() {
        None
    } else if v[i].id == id {
        Some(i)
    } else {
        link_at(v, id, i + 1)
    }
}

/// The attempts of a chain up to a job, the newest first. An attempt
/// continues one that was started before it.
pub open spec fn chain(v: Seq<Link>, id: i64) -> Seq<Link>
    decreases id - i64::MIN,
{
    match link_at(v, id, 0) {
        None => Seq::empty(),
        Some(i) => match v[i].resume_of {
            Some(p) => if p < id { seq![v[i]] + chain(v, p) } else { seq![v[i]] },
            None => seq![v[i]],
        },
    }
}

fn find_link(v: &Vec<Link>, id: i64) -> (r: Option<usize>)
    ensures
        match r {
            Some(i) => link_at(v@, id, 0) == Some(i as int) && i < v@.len(),
            None => link_at(v@, id, 0) is None,
        },
{
    let mut i: usize = 0;
    while i < v.len()
        invariant
            i <= v@.len(),
            link_at(v@, id, 0) == link_at(v@, id, i as int),
        decreases v@.len() - i,
    {
        if v[i].id == id {
            return Some(i);
        }
        i = i + 1;
    }
    None
}

/// The attempts of a chain up to a job, the newest first.
pub fn chain_of(v: &Vec<Link>, id: i64) -> (r: Vec<Link>)
    ensures
        r@ == chain(v@, id),
{
    let mut out: Vec<Link> = Vec::new();
    let mut at: i64 = id;
    assert(out@ + chain(v@, at) =~= chain(v@, id));
    loop
        invariant
            out@ + chain(v@, at) == chain(v@, id),
        decreases at - i64::MIN,
    {
        match find_link(v, at) {
            None => {
                assert(out@ =~= chain(v@, id));
                return out;
            },
            Some(i) => {
                let ghost done = out@;
                out.push(v[i]);
                match v[i].resume_of {
                    Some(p) => {
                        if p < at {
                            assert(done + (seq![v@[i as int]] + chain(v@, p)) =~= out@ + chain(v@, p));
                            at = p;
                        } else {
                            assert(out@ =~= chain(v@, id));
                            return out;
                        }
                    },
                    None => {
                        assert(out@ =~= chain(v@, id));
                        return out;
                    },
                }
            },
        }
    }
}

/// The first attempt of a job's chain; a job without one is its own.
pub fn resume_origin_job(v: &Vec<Link>, id: i64) -> (r: i64)
    ensures
        r == (if chain(v@, id).len() == 0 { id } else { chain(v@, id).last().id }),
{
    let c = chain_of(v, id);
    if c.len() == 0 {
        id
    } else {
        c[c.len() - 1].id
    }
}

/// What the attempts of a chain cost together.
pub open spec fn total_tokens(c: Seq<Link>) -> int
    decreases c.len(),
{
    if c.len() == 0 {
        0
    } else {
        total_tokens(c.drop_last()) + c.last().tokens
    }
}

/// What the largest attempt of a chain cost.
pub open spec fn largest(c: Seq<Link>) -> int
    decreases c.len(),
{
    if c.len() == 0 {
        0
    } else {
        let before = largest(c.drop_last());
        if c.last().tokens > before { c.last().tokens as int } else { before }
    }
}

/// Whether the running sum of a chain stays in range, and its length too.
pub open spec fn chain_sums_fit(c: Seq<Link>) -> bool {
    c.len() <= i64::MAX && forall|k: int|
        0 <= k <= c.len() ==> i64::MIN <= #[trigger] total_tokens(c.take(k)) <= i64::MAX
}

/// What a chain cost so far, where the sums are in range.
pub fn resume_chain_stats(c: &Vec<Link>) -> (r: Option<ChainStats>)
    ensures
        match r {
            Some(s) => chain_sums_fit(c@) && s.total == total_tokens(c@) && s.max_single == largest(c@)
                && s.attempts == c@.len(),
            None => !chain_sums_fit(c@),
        },
{
    if c.len() as u128 > i64::MAX as u128 {
        return None;
    }
    let mut total: i128 = 0;
    let mut most: i64 = 0;
    let mut i: usize = 0;
    while i < c.len()
        invariant
            i <= c@.len() <= i64::MAX,
            i64::MIN <= total <= i64::MAX,
            total == total_tokens(c@.take(i as int)),
            most == largest(c@.take(i as int)),
            forall|k: int|
                0 <= k <= i ==> i64::MIN <= #[trigger] total_tokens(c@.take(k)) <= i64::MAX,
        decreases c@.len() - i,
    {
        proof {
            assert(c@.take(i + 1).drop_last() =~= c@.take(i as int));
            assert(c@.take(i + 1).last() == c@[i as int]);
        }
        total = total + c[i].tokens as i128;
        if total < i64::MIN as i128 || total > i64::MAX as i128 {
            assert(total == total_tokens(c@.take(i + 1)));
            return None;
        }
        if c[i].tokens > most {
            most = c[i].tokens;
        }
        i = i + 1;
    }
    assert(c@.take(c@.len() as int) =~= c@);
    Some(ChainStats { total: total as i64, max_single: most, attempts: c.len() as i64 })
}

// ---------------------------------------------------------------------
// Capacity
// ---------------------------------------------------------------------

/// How long the cycles of a window are whose capacity is estimated.
pub fn capacity_period(limit_id: &str) -> (r: Option<i64>)
    ensures
        r == (if limit_id@ == "anthropic:5h"@ {
            Some(18_000_000i64)
        } else if limit_id@ == "anthropic:7d"@ {
            Some(604_800_000i64)
        } else {
            None
        }),
{
    if text::same(limit_id, "anthropic:5h") {
        Some(18_000_000)
    } else if text::same(limit_id, "anthropic:7d") {
        Some(604_800_000)
    } else {
        None
    }
}

// ---------------------------------------------------------------------
// Laws
// ---------------------------------------------------------------------

/// The clones and the notes of different repositories lie in different
/// places.
pub proof fn law_repo_places_are_distinct(dir: Seq<char>, a: i64, b: i64)
    requires
        util::path_join(dir, "repo-"@ + text::int_text(a as int)) == util::path_join(
            dir,
            "repo-"@ + text::int_text(b as int),
        ),
    ensures
        a == b,
{
    let p = util::path_join(dir, "repo-"@);
    let (x, y) = (text::int_text(a as int), text::int_text(b as int));
    assert(util::path_join(dir, "repo-"@ + x) =~= p + x);
    assert(util::path_join(dir, "repo-"@ + y) =~= p + y);
    assert((p + x).skip(p.len() as int) =~= x);
    assert((p + y).skip(p.len() as int) =~= y);
    text::law_decimal_injective(a, b);
}

/// A different failure starts the count anew.
pub proof fn law_streak_counts_the_same_failure(last: Option<Seq<char>>, attempts: int, failure: Seq<char>)
    ensures
        last == Some(failure) ==> streak(last, attempts, failure) == attempts + 1,
        last != Some(failure) ==> streak(last, attempts, failure) == 1,
{
}

/// The notes that are shown are never longer than their bound and its note.
pub proof fn law_shown_notes_are_bounded(notes: Seq<char>)
    ensures
        shown_notes(notes).len() <= MAX_NOTES_CHARS + 30,
{
    reveal_strlit("...(older notes truncated)...\n");
}

/// A chain of attempts begins with the job itself, and each continues the
/// next.
pub proof fn law_chain_is_linked(v: Seq<Link>, id: i64, k: int)
    requires
        0 <= k < chain(v, id).len() - 1,
    ensures
        chain(v, id)[k].resume_of == Some(chain(v, id)[k + 1].id),
    decreases id - i64::MIN,
{
    lemma_link_at(v, id, 0);
    let i = link_at(v, id, 0)->0;
    let p = v[i].resume_of->0;
    lemma_link_at(v, p, 0);
    if k > 0 {
        law_chain_is_linked(v, p, k - 1);
        assert(chain(v, id)[k] == chain(v, p)[k - 1]);
        assert(chain(v, id)[k + 1] == chain(v, p)[k]);
    } else {
        assert(chain(v, id)[1] == chain(v, p)[0]);
    }
}

proof fn lemma_link_at(v: Seq<Link>, id: i64, i: int)
    requires
        0 <= i,
    ensures
        link_at(v, id, i) matches Some(k) ==> i <= k < v.len() && v[k].id == id,
    decreases v.len() - i,
{
    if i < v.len() && v[i].id != id {
        lemma_link_at(v, id, i + 1);
    }
}

/// The largest attempt is no more than all together, where none cost less
/// than nothing: setting it aside leaves a part of the chain's cost.
pub proof fn law_largest_is_part_of_the_total(c: Seq<Link>)
    requires
        forall|k: int| 0 <= k < c.len() ==> (#[trigger] c[k]).tokens >= 0,
    ensures
        0 <= largest(c) <= total_tokens(c),
    decreases c.len(),
{
    if c.len() > 0 {
        assert forall|k: int| 0 <= k < c.drop_last().len() implies (#[trigger] c.drop_last()[k]).tokens
            >= 0 by {
            assert(c[k].tokens >= 0);
        }
        law_largest_is_part_of_the_total(c.drop_last());
        assert(c[c.len() - 1].tokens >= 0);
    }
}

/// A listed finding has every property that the filter asks for, and a finding
/// that has them all is listed. Severities count from one, for low, to three.
pub proof fn law_filter_lists_what_it_names(filter: FindingFilter, f: Finding)
    ensures
        filter.lists(f) <==> {
            &&& filter.status is None || filter.status == Some(f.status)
            &&& filter.repo_id is None || filter.repo_id == Some(f.repo_id)
            &&& filter.kind is None || filter.kind == Some(f.kind)
            &&& filter.min_severity_rank matches Some(n) ==> n <= (match f.severity {
                crate::domain::Severity::Low => 1int,
                crate::domain::Severity::Medium => 2,
                crate::domain::Severity::High => 3,
            })
        },
{
}

/// The notes that are shown are all of them up to four thousand characters,
/// and the last four thousand, marked, beyond that.
pub proof fn law_newest_notes_are_shown(notes: Seq<char>)
    ensures
        notes.len() <= 4000 ==> shown_notes(notes) == notes,
        notes.len() > 4000 ==> shown_notes(notes) == "...(older notes truncated)...\n"@ + notes.subrange(
            notes.len() - 4000,
            notes.len() as int,
        ),
{
    if notes.len() > 4000 {
        assert(notes.skip(notes.len() - 4000) =~= notes.subrange(notes.len() - 4000, notes.len() as int));
    }
}

/// A note is appended under its time, after its category where it has one; the
/// first note of a repository stands under a head that names it.
pub proof fn law_note_ends_with_its_text(
    first: bool,
    repo_name: Seq<char>,
    note: Seq<char>,
    category: Option<Seq<char>>,
    date: Seq<char>,
    clock: Seq<char>,
)
    ensures
        ({
            let line = "- ["@ + date + " "@ + clock + "] "@ + note + "\n\n"@;
            let e = note_entry(first, repo_name, note, category, date, clock);
            &&& line.is_suffix_of(e)
            &&& !first && category is None ==> e == line
            &&& !first ==> (category matches Some(c) ==> e == "## "@ + c + "\n"@ + line)
            &&& first ==> ("# Notes: "@ + repo_name + "\n\nLast updated: "@ + date + "\n\n"@).is_prefix_of(e)
        }),
{
    reveal_strlit("");
    let line = "- ["@ + date + " "@ + clock + "] "@ + note + "\n\n"@;
    let e = note_entry(first, repo_name, note, category, date, clock);
    let head = "# Notes: "@ + repo_name + "\n\nLast updated: "@ + date + "\n\n"@;
    assert(e.subrange(e.len() - line.len(), e.len() as int) =~= line);
    if !first {
        match category {
            None => assert(e =~= line),
            Some(c) => assert(e =~= "## "@ + c + "\n"@ + line),
        }
    } else {
        assert(e.subrange(0, head.len() as int) =~= head);
    }
}

/// A repository is kept while a finding or a job refers to it.
pub proof fn law_repo_with_a_history_is_kept(id: i64, findings: i64, jobs: i64)
    requires
        findings >= 0,
        jobs >= 0,
    ensures
        delete_refused(id, findings, jobs) is None <==> findings + jobs == 0,
{
}

/// A change that names any column changes something.
pub proof fn law_update_names_its_columns(u: RepoUpdate)
    ensures
        !u.changes_nothing() <==> u.enabled is Some || u.url is Some || u.default_branch is Some || u.forge
            is Some || u.name is Some,
{
}

/// The count of a status is the one that was read for it; without one it is
/// zero.
pub proof fn law_count_is_the_one_that_was_read(rows: Seq<(FindingStatus, i64)>, status: FindingStatus, i: int)
    ensures
        0 <= i < rows.len() && rows[i].0 == status && (forall|j: int|
            i < j < rows.len() ==> (#[trigger] rows[j]).0 != status) ==> count_of(rows, status) == rows[i].1,
        (forall|j: int| 0 <= j < rows.len() ==> (#[trigger] rows[j]).0 != status) ==> count_of(rows, status) == 0,
    decreases rows.len(),
{
    if rows.len() > 0 {
        let rest = rows.drop_last();
        assert(rows[rows.len() - 1] == rows.last());
        assert(forall|j: int| 0 <= j < rest.len() ==> rest[j] == rows[j]);
        law_count_is_the_one_that_was_read(rest, status, i);
    }
}

/// The ids of a list are its numbers, in their order; what is no number is
/// passed over.
pub proof fn law_listed_ids_keep_their_order(pieces: Seq<Seq<char>>, last: Seq<char>)
    ensures
        text::parse_i64(last) matches Some(n) ==> ids_in(pieces.push(last)) == ids_in(pieces).push(n as i64),
        text::parse_i64(last) is None ==> ids_in(pieces.push(last)) == ids_in(pieces),
        ids_in(Seq::empty()).len() == 0,
{
    assert(pieces.push(last).drop_last() =~= pieces);
}

/// A chain starts with the job itself, the newest attempt; the last of the
/// chain is the first attempt, which continues none that is known.
pub proof fn law_chain_starts_with_its_job(v: Seq<Link>, id: i64)
    ensures
        chain(v, id).len() > 0 <==> exists|i: int| 0 <= i < v.len() && (#[trigger] v[i]).id == id,
        chain(v, id).len() > 0 ==> chain(v, id)[0].id == id && v.contains(chain(v, id)[0]),
{
    lemma_link_at(v, id, 0);
    lemma_link_found(v, id, 0);
    if let Some(i) = link_at(v, id, 0) {
        assert(v[i].id == id);
        assert(chain(v, id)[0] == v[i]);
    }
}

proof fn lemma_link_found(v: Seq<Link>, id: i64, i: int)
    requires
        0 <= i,
    ensures
        link_at(v, id, i) is None ==> forall|k: int| i <= k < v.len() ==> (#[trigger] v[k]).id != id,
    decreases v.len() - i,
{
    if i < v.len() && v[i].id != id {
        lemma_link_found(v, id, i + 1);
    }
}

/// A chain goes on to the attempt that a job continues, and ends at one that
/// continues none.
pub proof fn law_chain_goes_on_to_the_continued_attempt(v: Seq<Link>, i: int, p: i64)
    requires
        0 <= i < v.len(),
        forall|j: int| 0 <= j < i ==> (#[trigger] v[j]).id != v[i].id,
    ensures
        v[i].resume_of is None ==> chain(v, v[i].id) == seq![v[i]],
        v[i].resume_of == Some(p) && p < v[i].id ==> chain(v, v[i].id) == seq![v[i]] + chain(v, p),
{
    lemma_link_first(v, i, 0);
}

proof fn lemma_link_first(v: Seq<Link>, i: int, from: int)
    requires
        0 <= from <= i < v.len(),
        forall|j: int| 0 <= j < i ==> (#[trigger] v[j]).id != v[i].id,
    ensures
        link_at(v, v[i].id, from) == Some(i),
    decreases i - from,
{
    if from < i {
        lemma_link_first(v, i, from + 1);
    }
}

/// What a chain cost is the sum over its attempts; its largest attempt is one
/// of them, and none cost more.
pub proof fn law_chain_cost_is_the_sum(c: Seq<Link>, l: Link)
    ensures
        total_tokens(Seq::empty()) == 0,
        total_tokens(c.push(l)) == total_tokens(c) + l.tokens,
        forall|k: int| 0 <= k < c.len() ==> (#[trigger] c[k]).tokens <= largest(c),
        largest(c) > 0 ==> exists|k: int| 0 <= k < c.len() && (#[trigger] c[k]).tokens == largest(c),
    decreases c.len(),
{
    assert(c.push(l).drop_last() =~= c);
    if c.len() > 0 {
        let rest = c.drop_last();
        law_chain_cost_is_the_sum(rest, l);
        assert(c[c.len() - 1] == c.last());
        assert(forall|k: int| 0 <= k < rest.len() ==> rest[k] == c[k]);
        if largest(c) > 0 && largest(c) != c.last().tokens {
            let k = choose|k: int| 0 <= k < rest.len() && (#[trigger] rest[k]).tokens == largest(rest);
            assert(c[k].tokens == largest(c));
        }
    }
}

/// Whether a suspended job was continued or its place taken by a fresh one is
/// told apart.
pub proof fn law_replacement_says_how(by: i64)
    ensures
        replaced_text(by, true) == "continued by job "@ + text::int_text(by as int),
        replaced_text(by, false) == "superseded by job "@ + text::int_text(by as int),
{
}

} // verus!
