//! The closed vocabularies: statuses, states, kinds and classes, with the
//! text under which each is stored.

use std::cmp::Ordering;
use vstd::prelude::*;
use crate::text;

verus! {

// ---------------------------------------------------------------------
// FindingStatus
// ---------------------------------------------------------------------

/// Finding lifecycle status.
#[derive(Debug, Clone, Copy, PartialEq, Eq, Hash, Structural)]
pub enum FindingStatus {
    New,
    Rechecking,
    Queued,
    Fixing,
    PrOpen,
    Merged,
    Rejected,
    Wontfix,
    Note,
}

impl FindingStatus {
    /// The stored text.
    pub open spec fn text(self) -> Seq<char> {
        match self {
            FindingStatus::New => "new"@,
            FindingStatus::Rechecking => "rechecking"@,
            FindingStatus::Queued => "queued"@,
            FindingStatus::Fixing => "fixing"@,
            FindingStatus::PrOpen => "pr_open"@,
            FindingStatus::Merged => "merged"@,
            FindingStatus::Rejected => "rejected"@,
            FindingStatus::Wontfix => "wontfix"@,
            FindingStatus::Note => "note"@,
        }
    }

    /// The value stored under a text.
    pub open spec fn of_text(s: Seq<char>) -> Option<FindingStatus> {
        if s == "new"@ {
            Some(FindingStatus::New)
        } else if s == "rechecking"@ {
            Some(FindingStatus::Rechecking)
        } else if s == "queued"@ {
            Some(FindingStatus::Queued)
        } else if s == "fixing"@ {
            Some(FindingStatus::Fixing)
        } else if s == "pr_open"@ {
            Some(FindingStatus::PrOpen)
        } else if s == "merged"@ {
            Some(FindingStatus::Merged)
        } else if s == "rejected"@ {
            Some(FindingStatus::Rejected)
        } else if s == "wontfix"@ {
            Some(FindingStatus::Wontfix)
        } else if s == "note"@ {
            Some(FindingStatus::Note)
        } else {
            None
        }
    }

    pub fn as_str(self) -> (r: &'static str)
        ensures
            r@ == self.text(),
    {
        match self {
            FindingStatus::New => "new",
            FindingStatus::Rechecking => "rechecking",
            FindingStatus::Queued => "queued",
            FindingStatus::Fixing => "fixing",
            FindingStatus::PrOpen => "pr_open",
            FindingStatus::Merged => "merged",
            FindingStatus::Rejected => "rejected",
            FindingStatus::Wontfix => "wontfix",
            FindingStatus::Note => "note",
        }
    }

    /// Every value, in declaration order.
    pub fn all() -> (r: Vec<FindingStatus>)
        ensures
            r@ == seq![FindingStatus::New, FindingStatus::Rechecking, FindingStatus::Queued, FindingStatus::Fixing, FindingStatus::PrOpen, FindingStatus::Merged, FindingStatus::Rejected, FindingStatus::Wontfix, FindingStatus::Note],
            forall|v: FindingStatus| r@.contains(v),
    {
        let r = vec![FindingStatus::New, FindingStatus::Rechecking, FindingStatus::Queued, FindingStatus::Fixing, FindingStatus::PrOpen, FindingStatus::Merged, FindingStatus::Rejected, FindingStatus::Wontfix, FindingStatus::Note];
        proof {
            assert(r@[0] == FindingStatus::New);
            assert(r@[1] == FindingStatus::Rechecking);
            assert(r@[2] == FindingStatus::Queued);
            assert(r@[3] == FindingStatus::Fixing);
            assert(r@[4] == FindingStatus::PrOpen);
            assert(r@[5] == FindingStatus::Merged);
            assert(r@[6] == FindingStatus::Rejected);
            assert(r@[7] == FindingStatus::Wontfix);
            assert(r@[8] == FindingStatus::Note);
            assert forall|v: FindingStatus| r@.contains(v) by {
                match v {
                    FindingStatus::New => assert(r@[0] == v),
                    FindingStatus::Rechecking => assert(r@[1] == v),
                    FindingStatus::Queued => assert(r@[2] == v),
                    FindingStatus::Fixing => assert(r@[3] == v),
                    FindingStatus::PrOpen => assert(r@[4] == v),
                    FindingStatus::Merged => assert(r@[5] == v),
                    FindingStatus::Rejected => assert(r@[6] == v),
                    FindingStatus::Wontfix => assert(r@[7] == v),
                    FindingStatus::Note => assert(r@[8] == v),
                }
            }
        }
        r
    }

    /// The value stored under `s`.
    pub fn from_text(s: &str) -> (r: Option<FindingStatus>)
        ensures
            r == FindingStatus::of_text(s@),
    {
        if text::same(s, "new") {
            Some(FindingStatus::New)
        } else if text::same(s, "rechecking") {
            Some(FindingStatus::Rechecking)
        } else if text::same(s, "queued") {
            Some(FindingStatus::Queued)
        } else if text::same(s, "fixing") {
            Some(FindingStatus::Fixing)
        } else if text::same(s, "pr_open") {
            Some(FindingStatus::PrOpen)
        } else if text::same(s, "merged") {
            Some(FindingStatus::Merged)
        } else if text::same(s, "rejected") {
            Some(FindingStatus::Rejected)
        } else if text::same(s, "wontfix") {
            Some(FindingStatus::Wontfix)
        } else if text::same(s, "note") {
            Some(FindingStatus::Note)
        } else {
            None
        }
    }

    /// Statuses that the verdict endpoint accepts.
    pub fn is_verdict(self) -> (r: bool)
        ensures
            r == (self is Queued || self is Rejected || self is Wontfix || self is Note
                || self is Merged),
    {
        match self {
            FindingStatus::Queued => true,
            FindingStatus::Rejected => true,
            FindingStatus::Wontfix => true,
            FindingStatus::Note => true,
            FindingStatus::Merged => true,
            _ => false,
        }
    }

    /// The findings that feed the suppression list: turned down by a person.
    pub open spec fn suppressed(self) -> bool {
        self is Rejected || self is Wontfix
    }

    /// The findings that are still being worked on.
    pub open spec fn active(self) -> bool {
        ||| self is New
        ||| self is Rechecking
        ||| self is Queued
        ||| self is Fixing
        ||| self is PrOpen
    }

    /// Statuses that need a reason when set through the verdict endpoint.
    pub fn reason_required(self) -> (r: bool)
        ensures
            r == self.suppressed(),
    {
        match self {
            FindingStatus::Rejected => true,
            FindingStatus::Wontfix => true,
            _ => false,
        }
    }

    /// Statuses that feed the suppression list.
    pub fn is_suppressed(self) -> (r: bool)
        ensures
            r == self.suppressed(),
    {
        match self {
            FindingStatus::Rejected => true,
            FindingStatus::Wontfix => true,
            _ => false,
        }
    }

    /// Statuses that count for the novelty comparison.
    pub fn is_active(self) -> (r: bool)
        ensures
            r == self.active(),
    {
        match self {
            FindingStatus::New => true,
            FindingStatus::Rechecking => true,
            FindingStatus::Queued => true,
            FindingStatus::Fixing => true,
            FindingStatus::PrOpen => true,
            _ => false,
        }
    }
}

/// Reading the stored text of a FindingStatus gives the value back.
pub proof fn law_finding_status_round_trip(v: FindingStatus)
    ensures
        FindingStatus::of_text(v.text()) == Some(v),
{
    reveal_strlit("new");
    reveal_strlit("rechecking");
    reveal_strlit("queued");
    reveal_strlit("fixing");
    reveal_strlit("pr_open");
    reveal_strlit("merged");
    reveal_strlit("rejected");
    reveal_strlit("wontfix");
    reveal_strlit("note");
    assert("new"@.len() == 3);
    assert("rechecking"@.len() == 10);
    assert("queued"@.len() == 6);
    assert("fixing"@.len() == 6);
    assert("pr_open"@.len() == 7);
    assert("merged"@.len() == 6);
    assert("rejected"@.len() == 8);
    assert("wontfix"@.len() == 7);
    assert("note"@.len() == 4);
    assert("queued"@[0] != "fixing"@[0]);
    assert("queued"@[0] != "merged"@[0]);
    assert("fixing"@[0] != "merged"@[0]);
    assert("pr_open"@[0] != "wontfix"@[0]);
}

/// Only its own text names a FindingStatus.
pub proof fn law_finding_status_text_is_unique(s: Seq<char>, v: FindingStatus)
    requires
        FindingStatus::of_text(s) == Some(v),
    ensures
        s == v.text(),
{
}

// ---------------------------------------------------------------------
// JobState
// ---------------------------------------------------------------------

/// State of one job row. A suspended job was stopped by its token cap and left a transcript that can be continued.
#[derive(Debug, Clone, Copy, PartialEq, Eq, Hash, Structural)]
pub enum JobState {
    Queued,
    Running,
    Done,
    Failed,
    Killed,
    Denied,
    Suspended,
}

impl JobState {
    /// The stored text.
    pub open spec fn text(self) -> Seq<char> {
        match self {
            JobState::Queued => "queued"@,
            JobState::Running => "running"@,
            JobState::Done => "done"@,
            JobState::Failed => "failed"@,
            JobState::Killed => "killed"@,
            JobState::Denied => "denied"@,
            JobState::Suspended => "suspended"@,
        }
    }

    /// The value stored under a text.
    pub open spec fn of_text(s: Seq<char>) -> Option<JobState> {
        if s == "queued"@ {
            Some(JobState::Queued)
        } else if s == "running"@ {
            Some(JobState::Running)
        } else if s == "done"@ {
            Some(JobState::Done)
        } else if s == "failed"@ {
            Some(JobState::Failed)
        } else if s == "killed"@ {
            Some(JobState::Killed)
        } else if s == "denied"@ {
            Some(JobState::Denied)
        } else if s == "suspended"@ {
            Some(JobState::Suspended)
        } else {
            None
        }
    }

    pub fn as_str(self) -> (r: &'static str)
        ensures
            r@ == self.text(),
    {
        match self {
            JobState::Queued => "queued",
            JobState::Running => "running",
            JobState::Done => "done",
            JobState::Failed => "failed",
            JobState::Killed => "killed",
            JobState::Denied => "denied",
            JobState::Suspended => "suspended",
        }
    }

    /// Every value, in declaration order.
    pub fn all() -> (r: Vec<JobState>)
        ensures
            r@ == seq![JobState::Queued, JobState::Running, JobState::Done, JobState::Failed, JobState::Killed, JobState::Denied, JobState::Suspended],
            forall|v: JobState| r@.contains(v),
    {
        let r = vec![JobState::Queued, JobState::Running, JobState::Done, JobState::Failed, JobState::Killed, JobState::Denied, JobState::Suspended];
        proof {
            assert(r@[0] == JobState::Queued);
            assert(r@[1] == JobState::Running);
            assert(r@[2] == JobState::Done);
            assert(r@[3] == JobState::Failed);
            assert(r@[4] == JobState::Killed);
            assert(r@[5] == JobState::Denied);
            assert(r@[6] == JobState::Suspended);
            assert forall|v: JobState| r@.contains(v) by {
                match v {
                    JobState::Queued => assert(r@[0] == v),
                    JobState::Running => assert(r@[1] == v),
                    JobState::Done => assert(r@[2] == v),
                    JobState::Failed => assert(r@[3] == v),
                    JobState::Killed => assert(r@[4] == v),
                    JobState::Denied => assert(r@[5] == v),
                    JobState::Suspended => assert(r@[6] == v),
                }
            }
        }
        r
    }

    /// The value stored under `s`.
    pub fn from_text(s: &str) -> (r: Option<JobState>)
        ensures
            r == JobState::of_text(s@),
    {
        if text::same(s, "queued") {
            Some(JobState::Queued)
        } else if text::same(s, "running") {
            Some(JobState::Running)
        } else if text::same(s, "done") {
            Some(JobState::Done)
        } else if text::same(s, "failed") {
            Some(JobState::Failed)
        } else if text::same(s, "killed") {
            Some(JobState::Killed)
        } else if text::same(s, "denied") {
            Some(JobState::Denied)
        } else if text::same(s, "suspended") {
            Some(JobState::Suspended)
        } else {
            None
        }
    }

    /// A job that runs, or that waits to be continued.
    pub open spec fn live(self) -> bool {
        self is Running || self is Suspended
    }

    pub fn is_live(self) -> (r: bool)
        ensures
            r == self.live(),
    {
        match self {
            JobState::Running => true,
            JobState::Suspended => true,
            _ => false,
        }
    }
}

/// Reading the stored text of a JobState gives the value back.
pub proof fn law_job_state_round_trip(v: JobState)
    ensures
        JobState::of_text(v.text()) == Some(v),
{
    reveal_strlit("queued");
    reveal_strlit("running");
    reveal_strlit("done");
    reveal_strlit("failed");
    reveal_strlit("killed");
    reveal_strlit("denied");
    reveal_strlit("suspended");
    assert("queued"@.len() == 6);
    assert("running"@.len() == 7);
    assert("done"@.len() == 4);
    assert("failed"@.len() == 6);
    assert("killed"@.len() == 6);
    assert("denied"@.len() == 6);
    assert("suspended"@.len() == 9);
    assert("queued"@[0] != "failed"@[0]);
    assert("queued"@[0] != "killed"@[0]);
    assert("failed"@[0] != "killed"@[0]);
    assert("queued"@[0] != "denied"@[0]);
    assert("failed"@[0] != "denied"@[0]);
    assert("killed"@[0] != "denied"@[0]);
}

/// Only its own text names a JobState.
pub proof fn law_job_state_text_is_unique(s: Seq<char>, v: JobState)
    requires
        JobState::of_text(s) == Some(v),
    ensures
        s == v.text(),
{
}

// ---------------------------------------------------------------------
// FindingType
// ---------------------------------------------------------------------

/// What a finding is about.
#[derive(Debug, Clone, Copy, PartialEq, Eq, Hash, Structural)]
pub enum FindingType {
    Bug,
    DepUpdate,
    TestGap,
    Refactor,
    Modernization,
    Standards,
}

impl FindingType {
    /// The stored text.
    pub open spec fn text(self) -> Seq<char> {
        match self {
            FindingType::Bug => "bug"@,
            FindingType::DepUpdate => "dep_update"@,
            FindingType::TestGap => "test_gap"@,
            FindingType::Refactor => "refactor"@,
            FindingType::Modernization => "modernization"@,
            FindingType::Standards => "standards"@,
        }
    }

    /// The value stored under a text.
    pub open spec fn of_text(s: Seq<char>) -> Option<FindingType> {
        if s == "bug"@ {
            Some(FindingType::Bug)
        } else if s == "dep_update"@ {
            Some(FindingType::DepUpdate)
        } else if s == "test_gap"@ {
            Some(FindingType::TestGap)
        } else if s == "refactor"@ {
            Some(FindingType::Refactor)
        } else if s == "modernization"@ {
            Some(FindingType::Modernization)
        } else if s == "standards"@ {
            Some(FindingType::Standards)
        } else {
            None
        }
    }

    pub fn as_str(self) -> (r: &'static str)
        ensures
            r@ == self.text(),
    {
        match self {
            FindingType::Bug => "bug",
            FindingType::DepUpdate => "dep_update",
            FindingType::TestGap => "test_gap",
            FindingType::Refactor => "refactor",
            FindingType::Modernization => "modernization",
            FindingType::Standards => "standards",
        }
    }

    /// Every value, in declaration order.
    pub fn all() -> (r: Vec<FindingType>)
        ensures
            r@ == seq![FindingType::Bug, FindingType::DepUpdate, FindingType::TestGap, FindingType::Refactor, FindingType::Modernization, FindingType::Standards],
            forall|v: FindingType| r@.contains(v),
    {
        let r = vec![FindingType::Bug, FindingType::DepUpdate, FindingType::TestGap, FindingType::Refactor, FindingType::Modernization, FindingType::Standards];
        proof {
            assert(r@[0] == FindingType::Bug);
            assert(r@[1] == FindingType::DepUpdate);
            assert(r@[2] == FindingType::TestGap);
            assert(r@[3] == FindingType::Refactor);
            assert(r@[4] == FindingType::Modernization);
            assert(r@[5] == FindingType::Standards);
            assert forall|v: FindingType| r@.contains(v) by {
                match v {
                    FindingType::Bug => assert(r@[0] == v),
                    FindingType::DepUpdate => assert(r@[1] == v),
                    FindingType::TestGap => assert(r@[2] == v),
                    FindingType::Refactor => assert(r@[3] == v),
                    FindingType::Modernization => assert(r@[4] == v),
                    FindingType::Standards => assert(r@[5] == v),
                }
            }
        }
        r
    }

    /// The value stored under `s`, or what to report of an unknown one.
    pub fn from_str(s: &str) -> (r: Result<FindingType, String>)
        ensures
            match r {
                Ok(v) => FindingType::of_text(s@) == Some(v),
                Err(e) => FindingType::of_text(s@) is None && e@ == "unknown finding type: "@ + text::debug_text(s@),
            },
    {
        if text::same(s, "bug") {
            Ok(FindingType::Bug)
        } else if text::same(s, "dep_update") {
            Ok(FindingType::DepUpdate)
        } else if text::same(s, "test_gap") {
            Ok(FindingType::TestGap)
        } else if text::same(s, "refactor") {
            Ok(FindingType::Refactor)
        } else if text::same(s, "modernization") {
            Ok(FindingType::Modernization)
        } else if text::same(s, "standards") {
            Ok(FindingType::Standards)
        } else {
            Err("unknown finding type: ".to_owned().concat(text::quoted(s).as_str()))
        }
    }

    /// The type's name in messages about required fields.
    pub open spec fn label_text(self) -> Seq<char> {
        match self {
            FindingType::Bug => "Bug"@,
            FindingType::DepUpdate => "DepUpdate"@,
            FindingType::TestGap => "TestGap"@,
            FindingType::Refactor => "Refactor"@,
            FindingType::Modernization => "Modernization"@,
            FindingType::Standards => "Standards"@,
        }
    }

    pub fn label(self) -> (r: &'static str)
        ensures
            r@ == self.label_text(),
    {
        match self {
            FindingType::Bug => "Bug",
            FindingType::DepUpdate => "DepUpdate",
            FindingType::TestGap => "TestGap",
            FindingType::Refactor => "Refactor",
            FindingType::Modernization => "Modernization",
            FindingType::Standards => "Standards",
        }
    }
}

/// Reading the stored text of a FindingType gives the value back.
pub proof fn law_finding_type_round_trip(v: FindingType)
    ensures
        FindingType::of_text(v.text()) == Some(v),
{
    reveal_strlit("bug");
    reveal_strlit("dep_update");
    reveal_strlit("test_gap");
    reveal_strlit("refactor");
    reveal_strlit("modernization");
    reveal_strlit("standards");
    assert("bug"@.len() == 3);
    assert("dep_update"@.len() == 10);
    assert("test_gap"@.len() == 8);
    assert("refactor"@.len() == 8);
    assert("modernization"@.len() == 13);
    assert("standards"@.len() == 9);
    assert("test_gap"@[0] != "refactor"@[0]);
}

/// Only its own text names a FindingType.
pub proof fn law_finding_type_text_is_unique(s: Seq<char>, v: FindingType)
    requires
        FindingType::of_text(s) == Some(v),
    ensures
        s == v.text(),
{
}

// ---------------------------------------------------------------------
// RepoJobKind
// ---------------------------------------------------------------------

/// Job kinds that work on a whole repository: the hunt and the analysis scans.
#[derive(Debug, Clone, Copy, PartialEq, Eq, Hash, Structural)]
pub enum RepoJobKind {
    Hunt,
    TestGap,
    DepUpdate,
    Refactor,
    Modernization,
    Standards,
}

impl RepoJobKind {
    /// The stored text.
    pub open spec fn text(self) -> Seq<char> {
        match self {
            RepoJobKind::Hunt => "hunt"@,
            RepoJobKind::TestGap => "test_gap"@,
            RepoJobKind::DepUpdate => "dep_update"@,
            RepoJobKind::Refactor => "refactor"@,
            RepoJobKind::Modernization => "modernization"@,
            RepoJobKind::Standards => "standards"@,
        }
    }

    /// The value stored under a text.
    pub open spec fn of_text(s: Seq<char>) -> Option<RepoJobKind> {
        if s == "hunt"@ {
            Some(RepoJobKind::Hunt)
        } else if s == "test_gap"@ {
            Some(RepoJobKind::TestGap)
        } else if s == "dep_update"@ {
            Some(RepoJobKind::DepUpdate)
        } else if s == "refactor"@ {
            Some(RepoJobKind::Refactor)
        } else if s == "modernization"@ {
            Some(RepoJobKind::Modernization)
        } else if s == "standards"@ {
            Some(RepoJobKind::Standards)
        } else {
            None
        }
    }

    pub fn as_str(self) -> (r: &'static str)
        ensures
            r@ == self.text(),
    {
        match self {
            RepoJobKind::Hunt => "hunt",
            RepoJobKind::TestGap => "test_gap",
            RepoJobKind::DepUpdate => "dep_update",
            RepoJobKind::Refactor => "refactor",
            RepoJobKind::Modernization => "modernization",
            RepoJobKind::Standards => "standards",
        }
    }

    /// Every value, in declaration order.
    pub fn all() -> (r: Vec<RepoJobKind>)
        ensures
            r@ == seq![RepoJobKind::Hunt, RepoJobKind::TestGap, RepoJobKind::DepUpdate, RepoJobKind::Refactor, RepoJobKind::Modernization, RepoJobKind::Standards],
            forall|v: RepoJobKind| r@.contains(v),
    {
        let r = vec![RepoJobKind::Hunt, RepoJobKind::TestGap, RepoJobKind::DepUpdate, RepoJobKind::Refactor, RepoJobKind::Modernization, RepoJobKind::Standards];
        proof {
            assert(r@[0] == RepoJobKind::Hunt);
            assert(r@[1] == RepoJobKind::TestGap);
            assert(r@[2] == RepoJobKind::DepUpdate);
            assert(r@[3] == RepoJobKind::Refactor);
            assert(r@[4] == RepoJobKind::Modernization);
            assert(r@[5] == RepoJobKind::Standards);
            assert forall|v: RepoJobKind| r@.contains(v) by {
                match v {
                    RepoJobKind::Hunt => assert(r@[0] == v),
                    RepoJobKind::TestGap => assert(r@[1] == v),
                    RepoJobKind::DepUpdate => assert(r@[2] == v),
                    RepoJobKind::Refactor => assert(r@[3] == v),
                    RepoJobKind::Modernization => assert(r@[4] == v),
                    RepoJobKind::Standards => assert(r@[5] == v),
                }
            }
        }
        r
    }

    /// The value stored under `s`, or what to report of an unknown one.
    pub fn from_str(s: &str) -> (r: Result<RepoJobKind, String>)
        ensures
            match r {
                Ok(v) => RepoJobKind::of_text(s@) == Some(v),
                Err(e) => RepoJobKind::of_text(s@) is None && e@ == "unknown repo job kind: "@ + text::debug_text(s@),
            },
    {
        if text::same(s, "hunt") {
            Ok(RepoJobKind::Hunt)
        } else if text::same(s, "test_gap") {
            Ok(RepoJobKind::TestGap)
        } else if text::same(s, "dep_update") {
            Ok(RepoJobKind::DepUpdate)
        } else if text::same(s, "refactor") {
            Ok(RepoJobKind::Refactor)
        } else if text::same(s, "modernization") {
            Ok(RepoJobKind::Modernization)
        } else if text::same(s, "standards") {
            Ok(RepoJobKind::Standards)
        } else {
            Err("unknown repo job kind: ".to_owned().concat(text::quoted(s).as_str()))
        }
    }

    /// Everything but the hunt: the scans whose turn is recorded even when
    /// they fail.
    pub fn is_analysis(self) -> (r: bool)
        ensures
            r == !(self is Hunt),
    {
        match self {
            RepoJobKind::Hunt => false,
            _ => true,
        }
    }
}

/// Reading the stored text of a RepoJobKind gives the value back.
pub proof fn law_repo_job_kind_round_trip(v: RepoJobKind)
    ensures
        RepoJobKind::of_text(v.text()) == Some(v),
{
    reveal_strlit("hunt");
    reveal_strlit("test_gap");
    reveal_strlit("dep_update");
    reveal_strlit("refactor");
    reveal_strlit("modernization");
    reveal_strlit("standards");
    assert("hunt"@.len() == 4);
    assert("test_gap"@.len() == 8);
    assert("dep_update"@.len() == 10);
    assert("refactor"@.len() == 8);
    assert("modernization"@.len() == 13);
    assert("standards"@.len() == 9);
    assert("test_gap"@[0] != "refactor"@[0]);
}

/// Only its own text names a RepoJobKind.
pub proof fn law_repo_job_kind_text_is_unique(s: Seq<char>, v: RepoJobKind)
    requires
        RepoJobKind::of_text(s) == Some(v),
    ensures
        s == v.text(),
{
}

// ---------------------------------------------------------------------
// FindingJobKind
// ---------------------------------------------------------------------

/// Job kinds that work on one finding: the fix and the pull request's life.
#[derive(Debug, Clone, Copy, PartialEq, Eq, Hash, Structural)]
pub enum FindingJobKind {
    Fix,
    Engage,
    Harvest,
    Recheck,
}

impl FindingJobKind {
    /// The stored text.
    pub open spec fn text(self) -> Seq<char> {
        match self {
            FindingJobKind::Fix => "fix"@,
            FindingJobKind::Engage => "engage"@,
            FindingJobKind::Harvest => "harvest"@,
            FindingJobKind::Recheck => "recheck"@,
        }
    }

    /// The value stored under a text.
    pub open spec fn of_text(s: Seq<char>) -> Option<FindingJobKind> {
        if s == "fix"@ {
            Some(FindingJobKind::Fix)
        } else if s == "engage"@ {
            Some(FindingJobKind::Engage)
        } else if s == "harvest"@ {
            Some(FindingJobKind::Harvest)
        } else if s == "recheck"@ {
            Some(FindingJobKind::Recheck)
        } else {
            None
        }
    }

    pub fn as_str(self) -> (r: &'static str)
        ensures
            r@ == self.text(),
    {
        match self {
            FindingJobKind::Fix => "fix",
            FindingJobKind::Engage => "engage",
            FindingJobKind::Harvest => "harvest",
            FindingJobKind::Recheck => "recheck",
        }
    }

    /// Every value, in declaration order.
    pub fn all() -> (r: Vec<FindingJobKind>)
        ensures
            r@ == seq![FindingJobKind::Fix, FindingJobKind::Engage, FindingJobKind::Harvest, FindingJobKind::Recheck],
            forall|v: FindingJobKind| r@.contains(v),
    {
        let r = vec![FindingJobKind::Fix, FindingJobKind::Engage, FindingJobKind::Harvest, FindingJobKind::Recheck];
        proof {
            assert(r@[0] == FindingJobKind::Fix);
            assert(r@[1] == FindingJobKind::Engage);
            assert(r@[2] == FindingJobKind::Harvest);
            assert(r@[3] == FindingJobKind::Recheck);
            assert forall|v: FindingJobKind| r@.contains(v) by {
                match v {
                    FindingJobKind::Fix => assert(r@[0] == v),
                    FindingJobKind::Engage => assert(r@[1] == v),
                    FindingJobKind::Harvest => assert(r@[2] == v),
                    FindingJobKind::Recheck => assert(r@[3] == v),
                }
            }
        }
        r
    }

    /// The value stored under `s`, or what to report of an unknown one.
    pub fn from_str(s: &str) -> (r: Result<FindingJobKind, String>)
        ensures
            match r {
                Ok(v) => FindingJobKind::of_text(s@) == Some(v),
                Err(e) => FindingJobKind::of_text(s@) is None && e@ == "unknown finding job kind: "@ + text::debug_text(s@),
            },
    {
        if text::same(s, "fix") {
            Ok(FindingJobKind::Fix)
        } else if text::same(s, "engage") {
            Ok(FindingJobKind::Engage)
        } else if text::same(s, "harvest") {
            Ok(FindingJobKind::Harvest)
        } else if text::same(s, "recheck") {
            Ok(FindingJobKind::Recheck)
        } else {
            Err("unknown finding job kind: ".to_owned().concat(text::quoted(s).as_str()))
        }
    }
}

/// Reading the stored text of a FindingJobKind gives the value back.
pub proof fn law_finding_job_kind_round_trip(v: FindingJobKind)
    ensures
        FindingJobKind::of_text(v.text()) == Some(v),
{
    reveal_strlit("fix");
    reveal_strlit("engage");
    reveal_strlit("harvest");
    reveal_strlit("recheck");
    assert("fix"@.len() == 3);
    assert("engage"@.len() == 6);
    assert("harvest"@.len() == 7);
    assert("recheck"@.len() == 7);
    assert("harvest"@[0] != "recheck"@[0]);
}

/// Only its own text names a FindingJobKind.
pub proof fn law_finding_job_kind_text_is_unique(s: Seq<char>, v: FindingJobKind)
    requires
        FindingJobKind::of_text(s) == Some(v),
    ensures
        s == v.text(),
{
}

// ---------------------------------------------------------------------
// BugClass
// ---------------------------------------------------------------------

/// Class of a bug finding.
#[derive(Debug, Clone, Copy, PartialEq, Eq, Hash, Structural)]
pub enum BugClass {
    Boundary,
    ErrorPath,
    Race,
    ContractDrift,
    Leak,
    Logic,
}

impl BugClass {
    /// The stored text.
    pub open spec fn text(self) -> Seq<char> {
        match self {
            BugClass::Boundary => "boundary"@,
            BugClass::ErrorPath => "error-path"@,
            BugClass::Race => "race"@,
            BugClass::ContractDrift => "contract-drift"@,
            BugClass::Leak => "leak"@,
            BugClass::Logic => "logic"@,
        }
    }

    /// The value stored under a text.
    pub open spec fn of_text(s: Seq<char>) -> Option<BugClass> {
        if s == "boundary"@ {
            Some(BugClass::Boundary)
        } else if s == "error-path"@ {
            Some(BugClass::ErrorPath)
        } else if s == "race"@ {
            Some(BugClass::Race)
        } else if s == "contract-drift"@ {
            Some(BugClass::ContractDrift)
        } else if s == "leak"@ {
            Some(BugClass::Leak)
        } else if s == "logic"@ {
            Some(BugClass::Logic)
        } else {
            None
        }
    }

    pub fn as_str(self) -> (r: &'static str)
        ensures
            r@ == self.text(),
    {
        match self {
            BugClass::Boundary => "boundary",
            BugClass::ErrorPath => "error-path",
            BugClass::Race => "race",
            BugClass::ContractDrift => "contract-drift",
            BugClass::Leak => "leak",
            BugClass::Logic => "logic",
        }
    }

    /// Every value, in declaration order.
    pub fn all() -> (r: Vec<BugClass>)
        ensures
            r@ == seq![BugClass::Boundary, BugClass::ErrorPath, BugClass::Race, BugClass::ContractDrift, BugClass::Leak, BugClass::Logic],
            forall|v: BugClass| r@.contains(v),
    {
        let r = vec![BugClass::Boundary, BugClass::ErrorPath, BugClass::Race, BugClass::ContractDrift, BugClass::Leak, BugClass::Logic];
        proof {
            assert(r@[0] == BugClass::Boundary);
            assert(r@[1] == BugClass::ErrorPath);
            assert(r@[2] == BugClass::Race);
            assert(r@[3] == BugClass::ContractDrift);
            assert(r@[4] == BugClass::Leak);
            assert(r@[5] == BugClass::Logic);
            assert forall|v: BugClass| r@.contains(v) by {
                match v {
                    BugClass::Boundary => assert(r@[0] == v),
                    BugClass::ErrorPath => assert(r@[1] == v),
                    BugClass::Race => assert(r@[2] == v),
                    BugClass::ContractDrift => assert(r@[3] == v),
                    BugClass::Leak => assert(r@[4] == v),
                    BugClass::Logic => assert(r@[5] == v),
                }
            }
        }
        r
    }

    /// The value stored under `s`, or what to report of an unknown one.
    pub fn from_str(s: &str) -> (r: Result<BugClass, String>)
        ensures
            match r {
                Ok(v) => BugClass::of_text(s@) == Some(v),
                Err(e) => BugClass::of_text(s@) is None && e@ == "unknown bug class: "@ + text::debug_text(s@),
            },
    {
        if text::same(s, "boundary") {
            Ok(BugClass::Boundary)
        } else if text::same(s, "error-path") {
            Ok(BugClass::ErrorPath)
        } else if text::same(s, "race") {
            Ok(BugClass::Race)
        } else if text::same(s, "contract-drift") {
            Ok(BugClass::ContractDrift)
        } else if text::same(s, "leak") {
            Ok(BugClass::Leak)
        } else if text::same(s, "logic") {
            Ok(BugClass::Logic)
        } else {
            Err("unknown bug class: ".to_owned().concat(text::quoted(s).as_str()))
        }
    }
}

/// Reading the stored text of a BugClass gives the value back.
pub proof fn law_bug_class_round_trip(v: BugClass)
    ensures
        BugClass::of_text(v.text()) == Some(v),
{
    reveal_strlit("boundary");
    reveal_strlit("error-path");
    reveal_strlit("race");
    reveal_strlit("contract-drift");
    reveal_strlit("leak");
    reveal_strlit("logic");
    assert("boundary"@.len() == 8);
    assert("error-path"@.len() == 10);
    assert("race"@.len() == 4);
    assert("contract-drift"@.len() == 14);
    assert("leak"@.len() == 4);
    assert("logic"@.len() == 5);
    assert("race"@[0] != "leak"@[0]);
}

/// Only its own text names a BugClass.
pub proof fn law_bug_class_text_is_unique(s: Seq<char>, v: BugClass)
    requires
        BugClass::of_text(s) == Some(v),
    ensures
        s == v.text(),
{
}

// ---------------------------------------------------------------------
// ForgeName
// ---------------------------------------------------------------------

/// The forge a repository lives on.
#[derive(Debug, Clone, Copy, PartialEq, Eq, Hash, Structural)]
pub enum ForgeName {
    Github,
    Gitlab,
}

impl ForgeName {
    /// The stored text.
    pub open spec fn text(self) -> Seq<char> {
        match self {
            ForgeName::Github => "github"@,
            ForgeName::Gitlab => "gitlab"@,
        }
    }

    /// The value stored under a text.
    pub open spec fn of_text(s: Seq<char>) -> Option<ForgeName> {
        if s == "github"@ {
            Some(ForgeName::Github)
        } else if s == "gitlab"@ {
            Some(ForgeName::Gitlab)
        } else {
            None
        }
    }

    pub fn as_str(self) -> (r: &'static str)
        ensures
            r@ == self.text(),
    {
        match self {
            ForgeName::Github => "github",
            ForgeName::Gitlab => "gitlab",
        }
    }

    /// Every value, in declaration order.
    pub fn all() -> (r: Vec<ForgeName>)
        ensures
            r@ == seq![ForgeName::Github, ForgeName::Gitlab],
            forall|v: ForgeName| r@.contains(v),
    {
        let r = vec![ForgeName::Github, ForgeName::Gitlab];
        proof {
            assert(r@[0] == ForgeName::Github);
            assert(r@[1] == ForgeName::Gitlab);
            assert forall|v: ForgeName| r@.contains(v) by {
                match v {
                    ForgeName::Github => assert(r@[0] == v),
                    ForgeName::Gitlab => assert(r@[1] == v),
                }
            }
        }
        r
    }

    /// The value stored under `s`, or what to report of an unknown one.
    pub fn from_str(s: &str) -> (r: Result<ForgeName, String>)
        ensures
            match r {
                Ok(v) => ForgeName::of_text(s@) == Some(v),
                Err(e) => ForgeName::of_text(s@) is None && e@ == "unknown forge name: "@ + text::debug_text(s@),
            },
    {
        if text::same(s, "github") {
            Ok(ForgeName::Github)
        } else if text::same(s, "gitlab") {
            Ok(ForgeName::Gitlab)
        } else {
            Err("unknown forge name: ".to_owned().concat(text::quoted(s).as_str()))
        }
    }
}

/// Reading the stored text of a ForgeName gives the value back.
pub proof fn law_forge_name_round_trip(v: ForgeName)
    ensures
        ForgeName::of_text(v.text()) == Some(v),
{
    reveal_strlit("github");
    reveal_strlit("gitlab");
    assert("github"@.len() == 6);
    assert("gitlab"@.len() == 6);
    assert("github"@[3] != "gitlab"@[3]);
}

/// Only its own text names a ForgeName.
pub proof fn law_forge_name_text_is_unique(s: Seq<char>, v: ForgeName)
    requires
        ForgeName::of_text(s) == Some(v),
    ensures
        s == v.text(),
{
}

/// A status is never both active and suppressed: a finding stands in at most
/// one of the two lists that a worker is given.
pub proof fn law_active_and_suppressed_are_disjoint(s: FindingStatus)
    ensures
        !(s.active() && s.suppressed()),
        s.suppressed() ==> !s.active(),
{
}

// ---------------------------------------------------------------------
// Severity
// ---------------------------------------------------------------------

/// How bad a finding is.
#[derive(Debug, Clone, Copy, PartialEq, Eq, Ord, Hash, Structural)]
pub enum Severity {
    Low,
    Medium,
    High,
}

impl Severity {
    /// The stored text.
    pub open spec fn text(self) -> Seq<char> {
        match self {
            Severity::Low => "low"@,
            Severity::Medium => "medium"@,
            Severity::High => "high"@,
        }
    }

    /// The severity that a text names, in any case.
    pub open spec fn of_text(s: Seq<char>) -> Option<Severity> {
        let t = text::lower(s);
        if t == "low"@ {
            Some(Severity::Low)
        } else if t == "medium"@ {
            Some(Severity::Medium)
        } else if t == "high"@ {
            Some(Severity::High)
        } else {
            None
        }
    }

    /// Place in the order of severities.
    pub open spec fn level(self) -> int {
        match self {
            Severity::Low => 1,
            Severity::Medium => 2,
            Severity::High => 3,
        }
    }

    pub fn parse(s: &str) -> (r: Option<Severity>)
        ensures
            r == Severity::of_text(s@),
    {
        let t = text::to_lower(s);
        if text::same(&t, "low") {
            Some(Severity::Low)
        } else if text::same(&t, "medium") {
            Some(Severity::Medium)
        } else if text::same(&t, "high") {
            Some(Severity::High)
        } else {
            None
        }
    }

    pub fn rank(self) -> (r: i64)
        ensures
            r == self.level(),
    {
        match self {
            Severity::Low => 1,
            Severity::Medium => 2,
            Severity::High => 3,
        }
    }

    pub fn as_str(self) -> (r: &'static str)
        ensures
            r@ == self.text(),
    {
        match self {
            Severity::Low => "low",
            Severity::Medium => "medium",
            Severity::High => "high",
        }
    }
}

/// Severities are in the order of their ranks.
impl PartialOrd for Severity {
    fn partial_cmp(&self, other: &Severity) -> (r: Option<Ordering>) {
        let (a, b) = (self.rank(), other.rank());
        if a < b {
            Some(Ordering::Less)
        } else if a > b {
            Some(Ordering::Greater)
        } else {
            Some(Ordering::Equal)
        }
    }
}

impl vstd::std_specs::cmp::PartialOrdSpecImpl for Severity {
    open spec fn obeys_partial_cmp_spec() -> bool {
        true
    }

    open spec fn partial_cmp_spec(&self, other: &Severity) -> Option<Ordering> {
        if self.level() < other.level() {
            Some(Ordering::Less)
        } else if self.level() > other.level() {
            Some(Ordering::Greater)
        } else {
            Some(Ordering::Equal)
        }
    }
}

/// One severity comes before another exactly when its rank is lower, and the
/// two are as high exactly when they are the same.
pub proof fn law_order_is_by_rank(a: Severity, b: Severity)
    ensures
        vstd::std_specs::cmp::PartialOrdSpec::partial_cmp_spec(&a, &b) == Some(Ordering::Less) <==> a.level() < b.level(),
        vstd::std_specs::cmp::PartialOrdSpec::partial_cmp_spec(&a, &b) == Some(Ordering::Greater) <==> a.level() > b.level(),
        vstd::std_specs::cmp::PartialOrdSpec::partial_cmp_spec(&a, &b) == Some(Ordering::Equal) <==> a == b,
        Severity::Low.level() == 1,
        Severity::Medium.level() == 2,
        Severity::High.level() == 3,
{
}

/// Reading the stored text of a severity gives the severity back.
pub proof fn law_severity_round_trip(v: Severity)
    ensures
        Severity::of_text(v.text()) == Some(v),
{
    reveal_strlit("low");
    reveal_strlit("medium");
    reveal_strlit("high");
    assert("low"@.len() == 3 && "medium"@.len() == 6 && "high"@.len() == 4);
    assert(text::lower(v.text()) =~= v.text());
}

/// A severity is stored in its canonical spelling whatever the spelling that
/// named it.
pub proof fn law_severity_is_canonical(s: Seq<char>, v: Severity)
    requires
        Severity::of_text(s) == Some(v),
    ensures
        text::lower(s) == v.text(),
{
}

/// Different severities have different ranks.
pub proof fn law_rank_is_injective(a: Severity, b: Severity)
    requires
        a.level() == b.level(),
    ensures
        a == b,
{
}

// ---------------------------------------------------------------------
// JobKind
// ---------------------------------------------------------------------

/// Kind of a job: one of the repository kinds or one of the finding kinds,
/// stored under one flat text.
#[derive(Debug, Clone, Copy, PartialEq, Eq, Hash, Structural)]
pub enum JobKind {
    Repo(RepoJobKind),
    Finding(FindingJobKind),
}

impl JobKind {
    /// The stored text.
    pub open spec fn text(self) -> Seq<char> {
        match self {
            JobKind::Repo(k) => k.text(),
            JobKind::Finding(k) => k.text(),
        }
    }

    /// The kind stored under a text.
    pub open spec fn of_text(s: Seq<char>) -> Option<JobKind> {
        match RepoJobKind::of_text(s) {
            Some(k) => Some(JobKind::Repo(k)),
            None => match FindingJobKind::of_text(s) {
                Some(k) => Some(JobKind::Finding(k)),
                None => None,
            },
        }
    }

    pub fn as_str(self) -> (r: &'static str)
        ensures
            r@ == self.text(),
    {
        match self {
            JobKind::Repo(k) => k.as_str(),
            JobKind::Finding(k) => k.as_str(),
        }
    }

    pub fn is_repo(self) -> (r: bool)
        ensures
            r == self is Repo,
    {
        match self {
            JobKind::Repo(_) => true,
            JobKind::Finding(_) => false,
        }
    }

    pub fn is_finding(self) -> (r: bool)
        ensures
            r == self is Finding,
    {
        match self {
            JobKind::Repo(_) => false,
            JobKind::Finding(_) => true,
        }
    }

    pub fn as_repo(self) -> (r: Option<RepoJobKind>)
        ensures
            r == match self {
                JobKind::Repo(k) => Some(k),
                JobKind::Finding(_) => None,
            },
    {
        match self {
            JobKind::Repo(k) => Some(k),
            JobKind::Finding(_) => None,
        }
    }

    pub fn as_finding(self) -> (r: Option<FindingJobKind>)
        ensures
            r == match self {
                JobKind::Finding(k) => Some(k),
                JobKind::Repo(_) => None,
            },
    {
        match self {
            JobKind::Finding(k) => Some(k),
            JobKind::Repo(_) => None,
        }
    }

    /// The kind stored under `s`, or what to report of an unknown one.
    pub fn from_str(s: &str) -> (r: Result<JobKind, String>)
        ensures
            match r {
                Ok(v) => JobKind::of_text(s@) == Some(v),
                Err(e) => JobKind::of_text(s@) is None && e@ == "unknown job kind: "@ + text::debug_text(s@),
            },
    {
        match RepoJobKind::from_str(s) {
            Ok(k) => Ok(JobKind::Repo(k)),
            Err(_) => match FindingJobKind::from_str(s) {
                Ok(k) => Ok(JobKind::Finding(k)),
                Err(_) => Err("unknown job kind: ".to_owned().concat(text::quoted(s).as_str())),
            },
        }
    }
}

impl From<RepoJobKind> for JobKind {
    fn from(k: RepoJobKind) -> (r: JobKind) {
        JobKind::Repo(k)
    }
}

impl vstd::std_specs::convert::FromSpecImpl<RepoJobKind> for JobKind {
    open spec fn obeys_from_spec() -> bool {
        true
    }

    open spec fn from_spec(k: RepoJobKind) -> JobKind {
        JobKind::Repo(k)
    }
}

impl From<FindingJobKind> for JobKind {
    fn from(k: FindingJobKind) -> (r: JobKind) {
        JobKind::Finding(k)
    }
}

impl vstd::std_specs::convert::FromSpecImpl<FindingJobKind> for JobKind {
    open spec fn obeys_from_spec() -> bool {
        true
    }

    open spec fn from_spec(k: FindingJobKind) -> JobKind {
        JobKind::Finding(k)
    }
}

/// The two families of kinds share no text, so the flat text of a job kind
/// gives the kind back.
pub proof fn law_job_kind_round_trip(v: JobKind)
    ensures
        JobKind::of_text(v.text()) == Some(v),
{
    match v {
        JobKind::Repo(k) => law_repo_job_kind_round_trip(k),
        JobKind::Finding(k) => {
            law_finding_job_kind_round_trip(k);
            reveal_strlit("hunt");
            reveal_strlit("test_gap");
            reveal_strlit("dep_update");
            reveal_strlit("refactor");
            reveal_strlit("modernization");
            reveal_strlit("standards");
            reveal_strlit("fix");
            reveal_strlit("engage");
            reveal_strlit("harvest");
            reveal_strlit("recheck");
            assert("hunt"@.len() == 4);
            assert("test_gap"@.len() == 8);
            assert("dep_update"@.len() == 10);
            assert("refactor"@.len() == 8);
            assert("modernization"@.len() == 13);
            assert("standards"@.len() == 9);
            assert(k.text().len() == 3 || k.text().len() == 6 || k.text().len() == 7);
        },
    }
}

/// Every status is of one sort: a finding is being worked on, was turned down
/// by a person, or is settled.
pub proof fn law_statuses_are_of_three_sorts(s: FindingStatus)
    ensures
        s.active() <==> s == FindingStatus::New || s == FindingStatus::Rechecking || s
            == FindingStatus::Queued || s == FindingStatus::Fixing || s == FindingStatus::PrOpen,
        s.suppressed() <==> s == FindingStatus::Rejected || s == FindingStatus::Wontfix,
        !s.active() && !s.suppressed() <==> s == FindingStatus::Merged || s == FindingStatus::Note,
{
}

/// Of the states of a job only two keep its tree: it runs, or it waits to be
/// continued.
pub proof fn law_live_jobs_run_or_wait(s: JobState)
    ensures
        s.live() <==> s == JobState::Running || s == JobState::Suspended,
{
}

/// The stored texts of the kinds of a job: each kind keeps its own word,
/// whether it is about a repository or about a finding.
pub proof fn law_job_kind_text_is_its_own(r: RepoJobKind, f: FindingJobKind)
    ensures
        JobKind::Repo(r).text() == r.text(),
        JobKind::Finding(f).text() == f.text(),
        r.text() != f.text(),
{
    law_job_kind_round_trip(JobKind::Repo(r));
    law_job_kind_round_trip(JobKind::Finding(f));
}

} // verus!
