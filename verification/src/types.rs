//! Rows and results that the logic reads. Columns that hold fractions are
//! kept by the storage layer beside these.

use vstd::prelude::*;
use crate::domain::{BugClass, FindingStatus, FindingType, ForgeName, JobKind, JobState, Severity};
use crate::text;

verus! {

/// Whether the budget gate lets a job start.
#[derive(Debug, Clone, Copy, PartialEq, Eq, Structural)]
pub enum BudgetState {
    Allowed,
    Denied,
}

/// A row of the repositories.
#[derive(Debug, Clone)]
pub struct Repo {
    pub id: i64,
    pub name: String,
    pub url: String,
    pub path: String,
    pub forge: ForgeName,
    pub default_branch: String,
    pub last_hunt_sha: Option<String>,
    pub last_hunt_at: Option<i64>,
    pub enabled: i64,
    pub added_at: i64,
    pub last_full_hunt_at: Option<i64>,
    pub last_test_gap_at: Option<i64>,
    pub last_dep_update_at: Option<i64>,
    pub last_refactor_at: Option<i64>,
    pub last_modernization_at: Option<i64>,
    pub last_standards_at: Option<i64>,
}

/// The repository as the summary shows it.
#[derive(Debug, Clone)]
pub struct RepoBrief {
    pub id: i64,
    pub name: String,
    pub url: String,
    pub path: String,
    pub forge: String,
    pub default_branch: String,
    pub last_hunt_sha: Option<String>,
    pub last_hunt_at: Option<i64>,
    pub enabled: i64,
    pub added_at: i64,
}

impl RepoBrief {
    /// The brief of a repository: its own columns, the forge as text.
    pub fn of(r: &Repo) -> (b: RepoBrief)
        ensures
            b.id == r.id,
            b.name@ == r.name@,
            b.url@ == r.url@,
            b.path@ == r.path@,
            b.forge@ == r.forge.text(),
            b.default_branch@ == r.default_branch@,
            text::opt_text(b.last_hunt_sha) == text::opt_text(r.last_hunt_sha),
            b.last_hunt_at == r.last_hunt_at,
            b.enabled == r.enabled,
            b.added_at == r.added_at,
    {
        RepoBrief {
            id: r.id,
            name: r.name.clone(),
            url: r.url.clone(),
            path: r.path.clone(),
            forge: r.forge.as_str().to_owned(),
            default_branch: r.default_branch.clone(),
            last_hunt_sha: text::copy_opt(&r.last_hunt_sha),
            last_hunt_at: r.last_hunt_at,
            enabled: r.enabled,
            added_at: r.added_at,
        }
    }
}

/// A row of the findings.
#[derive(Debug, Clone)]
pub struct Finding {
    pub id: i64,
    pub kind: FindingType,
    pub repo_id: i64,
    pub fingerprint: String,
    pub file: Option<String>,
    pub symbol: Option<String>,
    pub line: Option<i64>,
    pub severity: Severity,
    pub summary: String,
    pub detail: Option<String>,
    pub status: FindingStatus,
    pub pr_url: Option<String>,
    pub created_at: i64,
    pub updated_at: i64,
    pub bug_class: Option<BugClass>,
    pub evidence_plan: Option<String>,
    pub introduced_by: Option<String>,
    pub rung_achieved: Option<i64>,
    pub verdict_reason: Option<String>,
    pub budget_override: Option<String>,
    pub fix_attempts: i64,
    pub last_fix_failure: Option<String>,
    pub recheck_attempts: i64,
    pub last_recheck_failure: Option<String>,
    pub ecosystem: Option<String>,
    pub package: Option<String>,
    pub current_version: Option<String>,
    pub latest_version: Option<String>,
    pub update_type: Option<String>,
    pub security_advisory: Option<String>,
    pub missing_tests: Option<String>,
    pub test_file: Option<String>,
    pub smell_type: Option<String>,
    pub suggested_refactor: Option<String>,
    pub modernization_class: Option<String>,
    pub current_approach: Option<String>,
    pub proposed_approach: Option<String>,
}

impl Finding {
    /// The category column of a finding: none for a standards finding, else
    /// the column of its type, which may be empty.
    pub open spec fn category_text(self) -> Option<Option<Seq<char>>> {
        match self.kind {
            FindingType::Bug => Some(
                match self.bug_class {
                    Some(b) => Some(b.text()),
                    None => None,
                },
            ),
            FindingType::DepUpdate => Some(text::opt_text(self.update_type)),
            FindingType::TestGap => Some(Some("coverage"@)),
            FindingType::Refactor => Some(text::opt_text(self.smell_type)),
            FindingType::Modernization => Some(text::opt_text(self.modernization_class)),
            FindingType::Standards => None,
        }
    }

    pub fn category(&self) -> (r: Option<Option<String>>)
        ensures
            match r {
                Some(c) => self.category_text() == Some(text::opt_text(c)),
                None => self.category_text() is None,
            },
    {
        match self.kind {
            FindingType::Bug => Some(
                match self.bug_class {
                    Some(b) => Some(b.as_str().to_owned()),
                    None => None,
                },
            ),
            FindingType::DepUpdate => Some(text::copy_opt(&self.update_type)),
            FindingType::TestGap => Some(Some("coverage".to_owned())),
            FindingType::Refactor => Some(text::copy_opt(&self.smell_type)),
            FindingType::Modernization => Some(text::copy_opt(&self.modernization_class)),
            FindingType::Standards => None,
        }
    }

    /// The budget override that is in force: an empty one counts as none.
    pub open spec fn override_text(self) -> Option<Seq<char>> {
        match self.budget_override {
            Some(s) => if s@.len() > 0 { Some(s@) } else { None },
            None => None,
        }
    }
}

/// A row of the jobs.
#[derive(Debug, Clone)]
pub struct Job {
    pub id: i64,
    pub kind: JobKind,
    pub repo_id: i64,
    pub finding_id: Option<i64>,
    pub state: JobState,
    pub pid: Option<i64>,
    pub session_file: Option<String>,
    pub cap_tokens: Option<i64>,
    pub tokens_new: Option<i64>,
    pub calls: Option<i64>,
    pub exit_code: Option<i64>,
    pub killed_reason: Option<String>,
    pub notes: Option<String>,
    pub model: Option<String>,
    pub started_at: Option<i64>,
    pub finished_at: Option<i64>,
    pub repo_name: String,
}

/// A row of the event log.
#[derive(Debug, Clone)]
pub struct Event {
    pub id: i64,
    pub at: i64,
    pub kind: String,
    pub message: String,
    pub job_id: Option<i64>,
    pub finding_id: Option<i64>,
}

/// What is stored of a finding's pull request.
#[derive(Debug, Clone)]
pub struct PrState {
    pub finding_id: i64,
    pub pr_number: Option<i64>,
    pub state: Option<String>,
    pub mergeable: Option<String>,
    pub checks: Option<String>,
    pub head_ref: Option<String>,
    pub last_activity_at: Option<i64>,
    pub last_engaged_activity_at: Option<i64>,
    pub needs_attention: Option<String>,
    pub attention_since: Option<i64>,
    pub attention_fingerprint: Option<String>,
    pub addressed_fingerprint: Option<String>,
    pub head_sha: Option<String>,
    pub addressed_head_sha: Option<String>,
    pub synced_at: Option<i64>,
    pub harvested_at: Option<i64>,
    pub harvest_attempts: i64,
    pub last_harvest_failure: Option<String>,
}

/// The scheduler's own row.
#[derive(Debug, Clone)]
pub struct SchedulerState {
    pub id: i64,
    pub state: String,
    pub detail: String,
    pub next_wake_at: Option<i64>,
    pub updated_at: i64,
}

/// Outcome of one worker run.
#[derive(Debug, Clone)]
pub struct RunResult {
    pub exit_code: Option<i32>,
    pub killed_reason: Option<String>,
    pub tokens_new: i64,
    pub calls: i64,
    pub session_file: Option<String>,
    pub stdout_tail: String,
}

/// The category of a finding is what its own type is sorted by.
pub proof fn law_category_is_of_the_findings_type(f: Finding)
    ensures
        f.bug_class matches Some(b) ==> f.kind == FindingType::Bug ==> f.category_text() == Some(Some(b.text())),
        f.update_type matches Some(s) ==> f.kind == FindingType::DepUpdate ==> f.category_text() == Some(Some(s@)),
        f.smell_type matches Some(s) ==> f.kind == FindingType::Refactor ==> f.category_text() == Some(Some(s@)),
        f.modernization_class matches Some(s) ==> f.kind == FindingType::Modernization ==> f.category_text()
            == Some(Some(s@)),
        f.kind == FindingType::TestGap ==> f.category_text() == Some(Some("coverage"@)),
        f.category_text() is None <==> f.kind == FindingType::Standards,
{
}

} // verus!
