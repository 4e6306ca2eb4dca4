//! The fix of a finding: what runs, and what its result means.

use vstd::prelude::*;
use crate::domain::{FindingJobKind, FindingStatus, FindingType, ForgeName, JobKind, JobState};
use crate::forge;
use crate::forge::Forge;
use crate::scheduler::effects;
use crate::scheduler::effects::{CycleSummary, CycleSummaryView, Effect, EffectView};
use crate::text;
use crate::text::Cut;
use crate::types::Finding;
use crate::util;

verus! {

/// How many identical failures in a row end the attempts.
pub const MAX_CONSECUTIVE_SAME_FAILURE: i64 = 3;

// ---------------------------------------------------------------------
// Before the launch
// ---------------------------------------------------------------------

/// Letters and digits in lower case, everything else as a dash.
pub open spec fn dashed(s: Seq<char>) -> Seq<char> {
    s.map_values(|c: char| if text::is_alnum(c) { text::lower_char(c) } else { '-' })
}

/// The words of a summary as a branch name part: at most 40 characters.
pub open spec fn slug_of(summary: Seq<char>) -> Seq<char> {
    let parts = text::split(dashed(summary), Cut::At('-')).filter(|w: Seq<char>| w.len() > 0);
    text::trim_end(text::first_chars(text::join(parts, "-"@), 40), Cut::At('-'))
}

pub open spec fn branch_prefix(kind: FindingType) -> Seq<char> {
    match kind {
        FindingType::Bug => "fix"@,
        FindingType::Modernization => "modernize"@,
        _ => "improve"@,
    }
}

/// The branch of a finding's fix.
pub open spec fn branch_of(f: Finding) -> Seq<char> {
    branch_prefix(f.kind) + "/"@ + slug_of(f.summary@) + "-"@ + text::int_text(f.id as int)
}

fn dash(s: &str) -> (r: String)
    ensures
        r@ == dashed(s@),
{
    let mut out = String::new();
    for c in it: s.chars()
        invariant
            it.seq() == s@,
            out@ == dashed(s@.take(it.index())),
    {
        let d: char = if text::alnum(c) {
            text::lower_of(c)
        } else {
            '-'
        };
        out.push(d);
        assert(dashed(s@.take(it.index() + 1)) =~= dashed(s@.take(it.index())).push(d));
    }
    assert(s@.take(s@.len() as int) =~= s@);
    out
}

/// The branch of a finding's fix: the kind of work, the summary's words and
/// the finding's number.
pub fn branch_name(f: &Finding) -> (r: String)
    ensures
        r@ == branch_of(*f),
{
    let d = dash(&f.summary);
    let parts = text::non_empty(text::split_text(&d, Cut::At('-')));
    let joined = text::join_texts(&parts, "-");
    let short = text::take_chars(&joined, 40);
    let slug = text::trim_end_text(&short, Cut::At('-'));
    let prefix: &str = match f.kind {
        FindingType::Bug => "fix",
        FindingType::Modernization => "modernize",
        _ => "improve",
    };
    prefix.to_owned().concat("/").concat(&slug).concat("-").concat(text::int_to_text(f.id).as_str())
}

/// The summary of a finding that is not where the job kind expects it.
pub open spec fn not_ready(
    kind: FindingJobKind,
    f: Finding,
    wanted: FindingStatus,
) -> CycleSummaryView {
    CycleSummaryView {
        kind: Some(JobKind::Finding(kind)),
        skipped: Some(
            "finding #"@ + text::int_text(f.id as int) + " is "@ + f.status.text() + ", not "@
                + wanted.text(),
        ),
        ..effects::blank()
    }
}

/// Where the finding is not in the status that the kind acts on, the summary
/// of the skipped job.
pub fn status_check(kind: FindingJobKind, f: &Finding, wanted: FindingStatus) -> (r: Option<
    CycleSummary,
>)
    ensures
        match r {
            Some(s) => f.status != wanted && s@ == not_ready(kind, *f, wanted),
            None => f.status == wanted,
        },
{
    if f.status == wanted {
        return None;
    }
    let msg = "finding #".to_owned().concat(text::int_to_text(f.id).as_str()).concat(" is ").concat(
        f.status.as_str(),
    ).concat(", not ").concat(wanted.as_str());
    Some(
        CycleSummary {
            kind: Some(JobKind::Finding(kind)),
            skipped: Some(msg),
            ..CycleSummary::default()
        },
    )
}

// ---------------------------------------------------------------------
// Addresses in error messages
// ---------------------------------------------------------------------

/// How many digits a text begins with.
pub open spec fn digit_run(s: Seq<char>) -> int
    decreases s.len(),
{
    if s.len() > 0 && text::is_digit(s[0]) {
        1 + digit_run(s.skip(1))
    } else {
        0
    }
}

/// The pull request's address that a word begins with.
pub open spec fn word_pr_url(w: Seq<char>) -> Option<Seq<char>> {
    if !"https://"@.is_prefix_of(w) {
        None
    } else {
        match text::find(w, "/pull/"@) {
            Some(i) => {
                let n = digit_run(w.skip(i + 6));
                if n > 0 { Some(w.take(i + 6 + n)) } else { None }
            },
            None => None,
        }
    }
}

/// The address in the first of the words from `i` on that has one.
pub open spec fn first_pr_url(ws: Seq<Seq<char>>, i: int) -> Option<Seq<char>>
    decreases ws.len() - i,
{
    if i < 0 || i >= ws.len() {
        None
    } else {
        match word_pr_url(ws[i]) {
            Some(u) => Some(u),
            None => first_pr_url(ws, i + 1),
        }
    }
}

fn leading_digits(v: &Vec<char>, from: usize) -> (r: usize)
    requires
        from <= v@.len(),
    ensures
        r == digit_run(v@.skip(from as int)),
        from + r <= v@.len(),
{
    let mut i: usize = from;
    while i < v.len() && text::digit(v[i])
        invariant
            from <= i <= v@.len(),
            digit_run(v@.skip(from as int)) == (i - from) + digit_run(v@.skip(i as int)),
        decreases v@.len() - i,
    {
        assert(v@.skip(i as int).skip(1) =~= v@.skip(i + 1));
        i = i + 1;
    }
    i - from
}

fn pr_url_of_word(w: &str) -> (r: Option<String>)
    ensures
        text::opt_text(r) == word_pr_url(w@),
{
    if !text::starts_with(w, "https://") {
        return None;
    }
    match text::find_text(w, "/pull/") {
        Some(i) => {
            proof {
                reveal_strlit("/pull/");
                text::lemma_find_from(w@, "/pull/"@, 0);
            }
            let v = text::chars_of(w);
            let total: usize = v.len();
            assert(i + 6 <= total);
            let n: usize = leading_digits(&v, i + 6);
            if n > 0 {
                Some(text::before(w, i + 6 + n))
            } else {
                None
            }
        },
        None => None,
    }
}

/// The first address of a pull request in a text, cut after its number.
pub fn extract_pr_url(s: &str) -> (r: Option<String>)
    ensures
        text::opt_text(r) == first_pr_url(text::words(s@), 0),
{
    let ws = text::words_of(s);
    let ghost all = text::words(s@);
    let mut i: usize = 0;
    while i < ws.len()
        invariant
            i <= ws@.len(),
            all == text::texts(ws@),
            all == text::words(s@),
            first_pr_url(all, 0) == first_pr_url(all, i as int),
        decreases ws@.len() - i,
    {
        assert(all[i as int] == ws@[i as int]@);
        match pr_url_of_word(&ws[i]) {
            Some(u) => {
                return Some(u);
            },
            None => {},
        }
        i = i + 1;
    }
    None
}

// ---------------------------------------------------------------------
// After the run
// ---------------------------------------------------------------------

/// A fix whose worker has run.
#[derive(Debug, Clone)]
pub struct FixRun {
    pub finding: i64,
    pub kind: FindingType,
    pub job: i64,
    /// The recorded state of the job.
    pub state: JobState,
    pub branch: String,
    pub default_branch: String,
    pub repo_url: String,
    pub forge: ForgeName,
    pub worktree: String,
    pub tokens_new: i64,
    pub stdout_tail: String,
    /// The budget override holds for one run.
    pub override_once: bool,
}

/// Where the conclusion of a fix stands.
#[derive(Debug, Clone)]
pub enum FixPhase {
    /// Waiting for the file in which the worker declines.
    Outcome,
    /// Waiting for the list of commits.
    Commits { retried: bool },
    /// Waiting to learn whether there is a description.
    Description,
    Push,
    /// Waiting for the subject of the last commit.
    Title,
    /// Waiting for the pull request.
    Create,
    /// Waiting for the length of the streak of this failure.
    Streak { failure: String },
    Ended,
}

pub enum FixPhaseView {
    Outcome,
    Commits { retried: bool },
    Description,
    Push,
    Title,
    Create,
    Streak { failure: Seq<char> },
    Ended,
}

impl View for FixPhase {
    type V = FixPhaseView;

    open spec fn view(&self) -> FixPhaseView {
        match *self {
            FixPhase::Outcome => FixPhaseView::Outcome,
            FixPhase::Commits { retried } => FixPhaseView::Commits { retried },
            FixPhase::Description => FixPhaseView::Description,
            FixPhase::Push => FixPhaseView::Push,
            FixPhase::Title => FixPhaseView::Title,
            FixPhase::Create => FixPhaseView::Create,
            FixPhase::Streak { failure } => FixPhaseView::Streak { failure: failure@ },
            FixPhase::Ended => FixPhaseView::Ended,
        }
    }
}

/// What the driver does next.
#[derive(Debug, Clone)]
pub enum FixAction {
    /// Read the first of these files of the worktree that exists.
    ReadOutcome { decline: String, blocked: String },
    /// Run a command with a time limit in seconds.
    Command { argv: Vec<String>, timeout_s: u64 },
    /// Look for this file in the worktree.
    LookFor { file: String },
    /// Open a draft pull request with the description as its body.
    CreatePr { head: String, base: String, title: String },
    /// Count this failure of a fix.
    RecordFailure { failure: String },
    Finish { summary: CycleSummary },
}

pub enum FixActionView {
    ReadOutcome { decline: Seq<char>, blocked: Seq<char> },
    Command { argv: Seq<Seq<char>>, timeout_s: u64 },
    LookFor { file: Seq<char> },
    CreatePr { head: Seq<char>, base: Seq<char>, title: Seq<char> },
    RecordFailure { failure: Seq<char> },
    Finish { summary: CycleSummaryView },
}

impl View for FixAction {
    type V = FixActionView;

    open spec fn view(&self) -> FixActionView {
        match *self {
            FixAction::ReadOutcome { decline, blocked } => FixActionView::ReadOutcome {
                decline: decline@,
                blocked: blocked@,
            },
            FixAction::Command { argv, timeout_s } => FixActionView::Command {
                argv: text::texts(argv@),
                timeout_s,
            },
            FixAction::LookFor { file } => FixActionView::LookFor { file: file@ },
            FixAction::CreatePr { head, base, title } => FixActionView::CreatePr {
                head: head@,
                base: base@,
                title: title@,
            },
            FixAction::RecordFailure { failure } => FixActionView::RecordFailure {
                failure: failure@,
            },
            FixAction::Finish { summary } => FixActionView::Finish { summary: summary@ },
        }
    }
}

/// What came back.
#[derive(Debug, Clone)]
pub enum FixEvent {
    /// The worker declined, or reported that it is blocked.
    Declined { blocked: bool, text: String },
    NoOutcome,
    /// A command ended.
    Done { rc: i32, out: String },
    Found { yes: bool },
    PrCreated { url: String },
    PrFailed { error: String },
    Streak { count: i64 },
}

/// The first 500 characters of what the worker wrote.
pub open spec fn reason_of(s: Seq<char>) -> Seq<char> {
    text::first_chars(s, 500)
}

/// At most 120 characters of the first line.
pub open spec fn headline(s: Seq<char>) -> Seq<char> {
    text::first_chars(text::first_line(s), 120)
}

pub open spec fn numbered(f: i64) -> Seq<char> {
    "#"@ + text::int_text(f as int)
}

/// The fields that every summary of a concluded fix has.
pub open spec fn fix_summary(run: FixRun) -> CycleSummaryView {
    CycleSummaryView {
        kind: Some(JobKind::Finding(FindingJobKind::Fix)),
        finding_id: Some(run.finding),
        job_id: Some(run.job),
        state: Some(run.state),
        branch: Some(run.branch@),
        tokens_new: Some(run.tokens_new),
        ..effects::blank()
    }
}

/// What a one-time override costs: it is gone after the run.
pub open spec fn spend_override(finding: i64, once: bool) -> Seq<EffectView> {
    if once { seq![EffectView::ClearOverride { finding }] } else { Seq::empty() }
}

/// The finding leaves the fixing status.
pub open spec fn put_back(finding: i64) -> EffectView {
    EffectView::FinalizeInProgress {
        finding,
        from: FindingStatus::Fixing,
        to: FindingStatus::Queued,
    }
}

/// A suspended job whose work concluded anyway cannot be continued.
pub open spec fn retire_concluded_view(job: i64, state: JobState, outcome: Seq<char>) -> Seq<
    EffectView,
> {
    if state == JobState::Suspended {
        seq![
            EffectView::RetireSuspended {
                job,
                state: JobState::Killed,
                reason: None,
                note: "job "@ + text::int_text(job as int) + " suspended after its work concluded ("@
                    + outcome + "); nothing to resume"@,
            },
        ]
    } else {
        Seq::empty()
    }
}

/// The list of commits that are on the branch and not on `base`.
pub open spec fn log_args(worktree: Seq<char>, base: Seq<char>) -> Seq<Seq<char>> {
    seq!["git"@, "-C"@, worktree, "log"@, base + "..HEAD"@, "--oneline"@]
}

/// Why the work did not lead to a pull request, before anything was pushed.
pub open spec fn unshipped(state: JobState, has_commits: bool) -> Seq<char> {
    if state == JobState::Done {
        if has_commits { "no PR-DESCRIPTION.md"@ } else { "no commits"@ }
    } else {
        "worker "@ + state.text()
    }
}

/// A failed fix: a pause goes back to the queue, any other failure is
/// counted.
pub open spec fn fix_failed(run: FixRun, failure: Seq<char>) -> (
    Seq<EffectView>,
    FixPhaseView,
    FixActionView,
) {
    if run.state == JobState::Suspended {
        (
            seq![
                EffectView::SetStatus { finding: run.finding, status: FindingStatus::Queued },
                effects::log_view(
                    "fix"@,
                    numbered(run.finding) + " suspended; worktree kept at "@ + run.worktree@
                        + " for the resume. tail: "@ + util::tail_text(run.stdout_tail@, 300),
                    Some(run.job),
                    Some(run.finding),
                ),
            ] + spend_override(run.finding, run.override_once) + seq![put_back(run.finding)],
            FixPhaseView::Ended,
            FixActionView::Finish {
                summary: CycleSummaryView {
                    outcome: Some("suspended"@),
                    worktree: Some(run.worktree@),
                    ..fix_summary(run)
                },
            },
        )
    } else {
        (
            Seq::empty(),
            FixPhaseView::Streak { failure },
            FixActionView::RecordFailure { failure },
        )
    }
}

/// A pull request is open: the finding moves on.
pub open spec fn fix_shipped(run: FixRun, url: Seq<char>, found: Seq<char>) -> (
    Seq<EffectView>,
    FixPhaseView,
    FixActionView,
) {
    (
        seq![
            EffectView::SetPrOpen { finding: run.finding, url },
            EffectView::ClearAttempts { finding: run.finding, kind: FindingJobKind::Fix },
            effects::log_view(
                "ship"@,
                numbered(run.finding) + found + url,
                Some(run.job),
                Some(run.finding),
            ),
        ] + spend_override(run.finding, run.override_once) + seq![put_back(run.finding)]
            + retire_concluded_view(run.job, run.state, "pr_open"@),
        FixPhaseView::Ended,
        FixActionView::Finish {
            summary: CycleSummaryView {
                outcome: Some("pr_open"@),
                pr_url: Some(url),
                ..fix_summary(run)
            },
        },
    )
}

/// One step of a fix's conclusion.
pub open spec fn fix_next(run: FixRun, phase: FixPhaseView, event: FixEvent) -> (
    Seq<EffectView>,
    FixPhaseView,
    FixActionView,
) {
    let quiet = Seq::<EffectView>::empty();
    match (phase, event) {
        (FixPhaseView::Outcome, FixEvent::Declined { blocked, text }) => (
            seq![
                EffectView::SetVerdict {
                    finding: run.finding,
                    status: FindingStatus::Rejected,
                    reason: reason_of(text@),
                },
                EffectView::ClearAttempts { finding: run.finding, kind: FindingJobKind::Fix },
                effects::log_view(
                    "fix"@,
                    numbered(run.finding) + " "@ + (if blocked { "blocked"@ } else { "rejected"@ })
                        + " by worker: "@ + headline(reason_of(text@)),
                    Some(run.job),
                    Some(run.finding),
                ),
                put_back(run.finding),
            ] + retire_concluded_view(run.job, run.state, "rejected"@),
            FixPhaseView::Ended,
            FixActionView::Finish {
                summary: CycleSummaryView { outcome: Some("rejected"@), ..fix_summary(run) },
            },
        ),
        (FixPhaseView::Outcome, FixEvent::NoOutcome) => (
            quiet,
            FixPhaseView::Commits { retried: false },
            FixActionView::Command {
                argv: log_args(run.worktree@, "origin/"@ + run.default_branch@),
                timeout_s: 30,
            },
        ),
        (FixPhaseView::Commits { retried }, FixEvent::Done { rc, out }) => if rc != 0 && !retried {
            (
                quiet,
                FixPhaseView::Commits { retried: true },
                FixActionView::Command {
                    argv: log_args(run.worktree@, run.default_branch@),
                    timeout_s: 30,
                },
            )
        } else if rc == 0 && text::trim(out@, Cut::White).len() > 0 {
            (
                quiet,
                FixPhaseView::Description,
                FixActionView::LookFor { file: "PR-DESCRIPTION.md"@ },
            )
        } else {
            fix_failed(run, unshipped(run.state, text::trim(out@, Cut::White).len() > 0))
        },
        (FixPhaseView::Description, FixEvent::Found { yes }) => if yes {
            (
                quiet,
                FixPhaseView::Push,
                FixActionView::Command {
                    argv: seq![
                        "git"@,
                        "-C"@,
                        run.worktree@,
                        "push"@,
                        "--force"@,
                        forge::ssh_url_of(run.forge, run.repo_url@),
                        "HEAD"@,
                    ],
                    timeout_s: 600,
                },
            )
        } else {
            fix_failed(run, unshipped(run.state, true))
        },
        (FixPhaseView::Push, FixEvent::Done { rc, out }) => if rc != 0 {
            fix_failed(run, "push failed: "@ + util::tail_text(out@, 300))
        } else if forge::owner_repo_of(run.forge, run.repo_url@) is None {
            fix_failed(run, "unparseable repo url for PR: "@ + text::debug_text(run.repo_url@))
        } else {
            (
                quiet,
                FixPhaseView::Title,
                FixActionView::Command {
                    argv: seq!["git"@, "-C"@, run.worktree@, "log"@, "-1"@, "--format=%s"@],
                    timeout_s: 30,
                },
            )
        },
        (FixPhaseView::Title, FixEvent::Done { rc, out }) => (
            quiet,
            FixPhaseView::Create,
            FixActionView::CreatePr {
                head: run.branch@,
                base: run.default_branch@,
                title: forge::title_or_head(text::trim(out@, Cut::White), run.branch@),
            },
        ),
        (FixPhaseView::Create, FixEvent::PrCreated { url }) => fix_shipped(
            run,
            url@,
            " draft PR: "@,
        ),
        (FixPhaseView::Create, FixEvent::PrFailed { error }) => {
            let known = first_pr_url(text::words(error@), 0);
            if text::has(error@, "already exists"@) && known is Some {
                fix_shipped(run, known->0, " recovered existing PR: "@)
            } else {
                fix_failed(run, "PR create failed: "@ + text::first_chars(error@, 300))
            }
        },
        (FixPhaseView::Streak { failure }, FixEvent::Streak { count }) => {
            let tail = util::tail_text(run.stdout_tail@, 300);
            if count >= MAX_CONSECUTIVE_SAME_FAILURE {
                (
                    seq![
                        EffectView::SetVerdict {
                            finding: run.finding,
                            status: FindingStatus::Rejected,
                            reason: "stuck: "@ + text::int_text(count as int)
                                + " consecutive fix attempts hit the same failure: "@ + failure,
                        },
                        EffectView::ClearAttempts {
                            finding: run.finding,
                            kind: FindingJobKind::Fix,
                        },
                        effects::log_view(
                            "fix"@,
                            numbered(run.finding) + " gave up after "@ + text::int_text(
                                count as int,
                            ) + " identical failures ("@ + failure + "). tail: "@ + tail,
                            Some(run.job),
                            Some(run.finding),
                        ),
                    ] + spend_override(run.finding, run.override_once) + seq![
                        put_back(run.finding),
                    ],
                    FixPhaseView::Ended,
                    FixActionView::Finish {
                        summary: CycleSummaryView {
                            outcome: Some("stuck"@),
                            failure: Some(failure),
                            attempts: Some(count),
                            ..fix_summary(run)
                        },
                    },
                )
            } else {
                (
                    seq![
                        EffectView::SetStatus {
                            finding: run.finding,
                            status: FindingStatus::Queued,
                        },
                        effects::log_view(
                            "fix"@,
                            numbered(run.finding) + " incomplete ("@ + failure + "). tail: "@
                                + tail,
                            Some(run.job),
                            Some(run.finding),
                        ),
                    ] + spend_override(run.finding, run.override_once) + seq![
                        put_back(run.finding),
                    ],
                    FixPhaseView::Ended,
                    FixActionView::Finish {
                        summary: CycleSummaryView {
                            outcome: Some("requeued"@),
                            failure: Some(failure),
                            ..fix_summary(run)
                        },
                    },
                )
            }
        },
        _ => (
            quiet,
            FixPhaseView::Ended,
            FixActionView::Finish {
                summary: CycleSummaryView { error: Some("out of turn"@), ..fix_summary(run) },
            },
        ),
    }
}

/// The first action after a fix's worker has run.
pub fn fix_start(run: &FixRun) -> (r: FixAction)
    ensures
        r@ == (FixActionView::ReadOutcome {
            decline: if run.kind == FindingType::Bug {
                "NOT-A-BUG.md"@
            } else {
                "DECLINED.md"@
            },
            blocked: "BLOCKED.md"@,
        }),
{
    let decline: &str = if run.kind == FindingType::Bug {
        "NOT-A-BUG.md"
    } else {
        "DECLINED.md"
    };
    FixAction::ReadOutcome { decline: decline.to_owned(), blocked: "BLOCKED.md".to_owned() }
}

fn base_summary(run: &FixRun) -> (r: CycleSummary)
    ensures
        r@ == fix_summary(*run),
{
    CycleSummary {
        kind: Some(JobKind::Finding(FindingJobKind::Fix)),
        finding_id: Some(run.finding),
        job_id: Some(run.job),
        state: Some(run.state),
        branch: Some(run.branch.clone()),
        tokens_new: Some(run.tokens_new),
        ..CycleSummary::default()
    }
}

pub(crate) fn numbered_text(f: i64) -> (r: String)
    ensures
        r@ == numbered(f),
{
    "#".to_owned().concat(text::int_to_text(f).as_str())
}

/// Append the cost of a one-time override.
pub(crate) fn add_spend(out: &mut Vec<Effect>, finding: i64, once: bool)
    ensures
        effects::effects(final(out)@) == effects::effects(old(out)@) + spend_override(
            finding,
            once,
        ),
{
    if once {
        effects::add_effect(out, Effect::ClearOverride { finding });
    }
    assert(effects::effects(out@) =~= effects::effects(old(out)@) + spend_override(finding, once));
}

fn add_put_back(out: &mut Vec<Effect>, finding: i64)
    ensures
        effects::effects(final(out)@) == effects::effects(old(out)@) + seq![put_back(finding)],
{
    effects::add_effect(
        out,
        Effect::FinalizeInProgress {
            finding,
            from: FindingStatus::Fixing,
            to: FindingStatus::Queued,
        },
    );
    assert(effects::effects(out@) =~= effects::effects(old(out)@) + seq![put_back(finding)]);
}

/// Append the retirement of a suspended job whose work concluded.
pub fn retire_concluded(out: &mut Vec<Effect>, job: i64, state: JobState, outcome: &str)
    ensures
        effects::effects(final(out)@) == effects::effects(old(out)@) + retire_concluded_view(
            job,
            state,
            outcome@,
        ),
{
    if state == JobState::Suspended {
        let note = "job ".to_owned().concat(text::int_to_text(job).as_str()).concat(
            " suspended after its work concluded (",
        ).concat(outcome).concat("); nothing to resume");
        effects::add_effect(
            out,
            Effect::RetireSuspended { job, state: JobState::Killed, reason: None, note },
        );
    }
    assert(effects::effects(out@) =~= effects::effects(old(out)@) + retire_concluded_view(
        job,
        state,
        outcome@,
    ));
}

fn log_command(worktree: &str, base: &str) -> (r: FixAction)
    ensures
        r@ == (FixActionView::Command { argv: log_args(worktree@, base@), timeout_s: 30 }),
{
    let range = base.to_owned().concat("..HEAD");
    let mut v = text::no_texts();
    text::add_text(&mut v, "git");
    text::add_text(&mut v, "-C");
    text::add_text(&mut v, worktree);
    text::add_text(&mut v, "log");
    text::add_text(&mut v, &range);
    text::add_text(&mut v, "--oneline");
    assert(text::texts(v@) =~= log_args(worktree@, base@));
    FixAction::Command { argv: v, timeout_s: 30 }
}

fn no_pr_reason(state: JobState, has_commits: bool) -> (r: String)
    ensures
        r@ == unshipped(state, has_commits),
{
    if state == JobState::Done {
        if has_commits {
            "no PR-DESCRIPTION.md".to_owned()
        } else {
            "no commits".to_owned()
        }
    } else {
        "worker ".to_owned().concat(state.as_str())
    }
}

fn conclude_failed(run: &FixRun, failure: String) -> (r: (Vec<Effect>, FixPhase, FixAction))
    ensures
        (effects::effects(r.0@), r.1@, r.2@) == fix_failed(*run, failure@),
{
    let mut out = effects::no_effects();
    if run.state == JobState::Suspended {
        effects::add_effect(
            &mut out,
            Effect::SetStatus { finding: run.finding, status: FindingStatus::Queued },
        );
        let msg = numbered_text(run.finding).concat(" suspended; worktree kept at ").concat(
            &run.worktree,
        ).concat(" for the resume. tail: ").concat(util::tail(&run.stdout_tail, 300));
        effects::add_effect(
            &mut out,
            effects::log("fix", msg, Some(run.job), Some(run.finding)),
        );
        add_spend(&mut out, run.finding, run.override_once);
        add_put_back(&mut out, run.finding);
        assert(effects::effects(out@) =~= fix_failed(*run, failure@).0);
        let summary = CycleSummary {
            outcome: Some("suspended".to_owned()),
            worktree: Some(run.worktree.clone()),
            ..base_summary(run)
        };
        (out, FixPhase::Ended, FixAction::Finish { summary })
    } else {
        (
            out,
            FixPhase::Streak { failure: failure.clone() },
            FixAction::RecordFailure { failure },
        )
    }
}

fn conclude_shipped(run: &FixRun, url: String, found: &str) -> (r: (
    Vec<Effect>,
    FixPhase,
    FixAction,
))
    ensures
        (effects::effects(r.0@), r.1@, r.2@) == fix_shipped(*run, url@, found@),
{
    let mut out = effects::no_effects();
    effects::add_effect(&mut out, Effect::SetPrOpen { finding: run.finding, url: url.clone() });
    effects::add_effect(
        &mut out,
        Effect::ClearAttempts { finding: run.finding, kind: FindingJobKind::Fix },
    );
    let msg = numbered_text(run.finding).concat(found).concat(&url);
    effects::add_effect(&mut out, effects::log("ship", msg, Some(run.job), Some(run.finding)));
    add_spend(&mut out, run.finding, run.override_once);
    add_put_back(&mut out, run.finding);
    retire_concluded(&mut out, run.job, run.state, "pr_open");
    assert(effects::effects(out@) =~= fix_shipped(*run, url@, found@).0);
    let summary = CycleSummary {
        outcome: Some("pr_open".to_owned()),
        pr_url: Some(url),
        ..base_summary(run)
    };
    (out, FixPhase::Ended, FixAction::Finish { summary })
}

fn conclude_declined(run: &FixRun, blocked: bool, body: &str) -> (r: (
    Vec<Effect>,
    FixPhase,
    FixAction,
))
    ensures
        forall|s: String| s@ == body@ ==> (effects::effects(r.0@), r.1@, r.2@) == #[trigger] fix_next(
            *run,
            FixPhaseView::Outcome,
            FixEvent::Declined { blocked, text: s },
        ),
{
    let mut out = effects::no_effects();
    let reason = text::take_chars(body, 500);
    let first = text::first_line_of(&reason);
    let short = text::take_chars(&first, 120);
    let verb: &str = if blocked {
        "blocked"
    } else {
        "rejected"
    };
    let msg = numbered_text(run.finding).concat(" ").concat(verb).concat(" by worker: ").concat(
        &short,
    );
    effects::add_effect(
        &mut out,
        Effect::SetVerdict { finding: run.finding, status: FindingStatus::Rejected, reason },
    );
    effects::add_effect(
        &mut out,
        Effect::ClearAttempts { finding: run.finding, kind: FindingJobKind::Fix },
    );
    effects::add_effect(&mut out, effects::log("fix", msg, Some(run.job), Some(run.finding)));
    add_put_back(&mut out, run.finding);
    retire_concluded(&mut out, run.job, run.state, "rejected");
    let summary = CycleSummary {
        outcome: Some("rejected".to_owned()),
        ..base_summary(run)
    };
    proof {
        assert forall|s: String| s@ == body@ implies effects::effects(out@) == (
        #[trigger] fix_next(
            *run,
            FixPhaseView::Outcome,
            FixEvent::Declined { blocked, text: s },
        )).0 by {
            assert(effects::effects(out@) =~= fix_next(
                *run,
                FixPhaseView::Outcome,
                FixEvent::Declined { blocked, text: s },
            ).0);
        }
    }
    (out, FixPhase::Ended, FixAction::Finish { summary })
}

fn conclude_streak(run: &FixRun, failure: String, count: i64) -> (r: (
    Vec<Effect>,
    FixPhase,
    FixAction,
))
    ensures
        (effects::effects(r.0@), r.1@, r.2@) == fix_next(
            *run,
            FixPhaseView::Streak { failure: failure@ },
            FixEvent::Streak { count },
        ),
{
    let ghost want = fix_next(
        *run,
        FixPhaseView::Streak { failure: failure@ },
        FixEvent::Streak { count },
    );
    let mut out = effects::no_effects();
    let tail = util::tail(&run.stdout_tail, 300);
    if count >= MAX_CONSECUTIVE_SAME_FAILURE {
        let n = text::int_to_text(count);
        let reason = "stuck: ".to_owned().concat(&n).concat(
            " consecutive fix attempts hit the same failure: ",
        ).concat(&failure);
        effects::add_effect(
            &mut out,
            Effect::SetVerdict { finding: run.finding, status: FindingStatus::Rejected, reason },
        );
        effects::add_effect(
            &mut out,
            Effect::ClearAttempts { finding: run.finding, kind: FindingJobKind::Fix },
        );
        let msg = numbered_text(run.finding).concat(" gave up after ").concat(&n).concat(
            " identical failures (",
        ).concat(&failure).concat("). tail: ").concat(tail);
        effects::add_effect(&mut out, effects::log("fix", msg, Some(run.job), Some(run.finding)));
        add_spend(&mut out, run.finding, run.override_once);
        add_put_back(&mut out, run.finding);
        assert(effects::effects(out@) =~= want.0);
        let summary = CycleSummary {
            outcome: Some("stuck".to_owned()),
            failure: Some(failure),
            attempts: Some(count),
            ..base_summary(run)
        };
        (out, FixPhase::Ended, FixAction::Finish { summary })
    } else {
        effects::add_effect(
            &mut out,
            Effect::SetStatus { finding: run.finding, status: FindingStatus::Queued },
        );
        let msg = numbered_text(run.finding).concat(" incomplete (").concat(&failure).concat(
            "). tail: ",
        ).concat(tail);
        effects::add_effect(&mut out, effects::log("fix", msg, Some(run.job), Some(run.finding)));
        add_spend(&mut out, run.finding, run.override_once);
        add_put_back(&mut out, run.finding);
        assert(effects::effects(out@) =~= want.0);
        let summary = CycleSummary {
            outcome: Some("requeued".to_owned()),
            failure: Some(failure),
            ..base_summary(run)
        };
        (out, FixPhase::Ended, FixAction::Finish { summary })
    }
}

/// One step of a fix's conclusion.
pub fn fix_step(run: &FixRun, phase: FixPhase, event: FixEvent) -> (r: (
    Vec<Effect>,
    FixPhase,
    FixAction,
))
    ensures
        (effects::effects(r.0@), r.1@, r.2@) == fix_next(*run, phase@, event),
{
    let out = effects::no_effects();
    match (phase, event) {
        (FixPhase::Outcome, FixEvent::Declined { blocked, text }) => conclude_declined(
            run,
            blocked,
            &text,
        ),
        (FixPhase::Outcome, FixEvent::NoOutcome) => {
            let base = "origin/".to_owned().concat(&run.default_branch);
            (out, FixPhase::Commits { retried: false }, log_command(&run.worktree, &base))
        },
        (FixPhase::Commits { retried }, FixEvent::Done { rc, out: printed }) => {
            let commits = text::trim_text(&printed, Cut::White);
            let some: bool = !commits.as_str().is_empty();
            if rc != 0 && !retried {
                (
                    out,
                    FixPhase::Commits { retried: true },
                    log_command(&run.worktree, &run.default_branch),
                )
            } else if rc == 0 && some {
                (
                    out,
                    FixPhase::Description,
                    FixAction::LookFor { file: "PR-DESCRIPTION.md".to_owned() },
                )
            } else {
                conclude_failed(run, no_pr_reason(run.state, some))
            }
        },
        (FixPhase::Description, FixEvent::Found { yes }) => {
            if yes {
                let remote = forge::forge_for(run.forge).ssh_url(&run.repo_url);
                let mut v = text::no_texts();
                text::add_text(&mut v, "git");
                text::add_text(&mut v, "-C");
                text::add_text(&mut v, &run.worktree);
                text::add_text(&mut v, "push");
                text::add_text(&mut v, "--force");
                text::add_text(&mut v, &remote);
                text::add_text(&mut v, "HEAD");
                assert(text::texts(v@) =~= seq![
                    "git"@,
                    "-C"@,
                    run.worktree@,
                    "push"@,
                    "--force"@,
                    forge::ssh_url_of(run.forge, run.repo_url@),
                    "HEAD"@,
                ]);
                (out, FixPhase::Push, FixAction::Command { argv: v, timeout_s: 600 })
            } else {
                conclude_failed(run, no_pr_reason(run.state, true))
            }
        },
        (FixPhase::Push, FixEvent::Done { rc, out: printed }) => {
            if rc != 0 {
                conclude_failed(
                    run,
                    "push failed: ".to_owned().concat(util::tail(&printed, 300)),
                )
            } else if forge::forge_for(run.forge).owner_repo(&run.repo_url).is_none() {
                conclude_failed(
                    run,
                    "unparseable repo url for PR: ".to_owned().concat(
                        text::quoted(&run.repo_url).as_str(),
                    ),
                )
            } else {
                let mut v = text::no_texts();
                text::add_text(&mut v, "git");
                text::add_text(&mut v, "-C");
                text::add_text(&mut v, &run.worktree);
                text::add_text(&mut v, "log");
                text::add_text(&mut v, "-1");
                text::add_text(&mut v, "--format=%s");
                assert(text::texts(v@) =~= seq![
                    "git"@,
                    "-C"@,
                    run.worktree@,
                    "log"@,
                    "-1"@,
                    "--format=%s"@,
                ]);
                (out, FixPhase::Title, FixAction::Command { argv: v, timeout_s: 30 })
            }
        },
        (FixPhase::Title, FixEvent::Done { rc: _, out: printed }) => {
            let t = text::trim_text(&printed, Cut::White);
            let title = if t.as_str().is_empty() {
                run.branch.clone()
            } else {
                t
            };
            (
                out,
                FixPhase::Create,
                FixAction::CreatePr {
                    head: run.branch.clone(),
                    base: run.default_branch.clone(),
                    title,
                },
            )
        },
        (FixPhase::Create, FixEvent::PrCreated { url }) => conclude_shipped(
            run,
            url,
            " draft PR: ",
        ),
        (FixPhase::Create, FixEvent::PrFailed { error }) => {
            if text::contains(&error, "already exists") {
                match extract_pr_url(&error) {
                    Some(url) => {
                        return conclude_shipped(run, url, " recovered existing PR: ");
                    },
                    None => {},
                }
            }
            let short = text::take_chars(&error, 300);
            conclude_failed(run, "PR create failed: ".to_owned().concat(&short))
        },
        (FixPhase::Streak { failure }, FixEvent::Streak { count }) => conclude_streak(
            run,
            failure,
            count,
        ),
        _ => {
            let summary = CycleSummary {
                error: Some("out of turn".to_owned()),
                ..base_summary(run)
            };
            (out, FixPhase::Ended, FixAction::Finish { summary })
        },
    }
}

// ---------------------------------------------------------------------
// Laws
// ---------------------------------------------------------------------

/// Whether a finished step puts the finding back from the fixing status.
pub open spec fn puts_back(finding: i64, effects: Seq<EffectView>) -> bool {
    exists|i: int| 0 <= i < effects.len() && effects[i] == put_back(finding)
}

/// However the conclusion of a fix ends in its turn, the finding does not
/// stay in the fixing status.
pub proof fn law_fix_never_leaves_fixing(run: FixRun, phase: FixPhaseView, event: FixEvent)
    requires
        fix_next(run, phase, event).1 is Ended,
        fix_next(run, phase, event).2 matches FixActionView::Finish { summary } && summary.error
            is None,
    ensures
        puts_back(run.finding, fix_next(run, phase, event).0),
{
    let e = fix_next(run, phase, event).0;
    match event {
        FixEvent::Declined { .. } => assert(e[3] == put_back(run.finding)),
        _ => {
            if run.override_once {
                if e.len() > 4 {
                    assert(e[4] == put_back(run.finding) || e[3] == put_back(run.finding));
                } else {
                    assert(e[3] == put_back(run.finding) || e[2] == put_back(run.finding));
                }
            } else {
                if e.len() > 3 {
                    assert(e[3] == put_back(run.finding) || e[2] == put_back(run.finding));
                } else {
                    assert(e[2] == put_back(run.finding));
                }
            }
        },
    }
}

/// A suspended fix is a pause: it is never counted as a failure, and it
/// never rejects the finding on its own account.
pub proof fn law_suspended_fix_is_not_counted(run: FixRun, phase: FixPhaseView, event: FixEvent)
    requires
        run.state == JobState::Suspended,
        !(phase is Streak),
    ensures
        !(fix_next(run, phase, event).2 is RecordFailure),
        !(event is Declined) ==> forall|i: int|
            0 <= i < fix_next(run, phase, event).0.len()
                ==> !(#[trigger] fix_next(run, phase, event).0[i] is SetVerdict),
{
}

/// A suspended job whose work concluded with a verdict or a pull request is
/// retired, so that nothing tries to continue it.
pub proof fn law_concluded_suspension_is_retired(run: FixRun, phase: FixPhaseView, event: FixEvent)
    requires
        run.state == JobState::Suspended,
        fix_next(run, phase, event).2 matches FixActionView::Finish { summary } && (
        summary.outcome == Some("rejected"@) || summary.outcome == Some("pr_open"@)),
    ensures
        fix_next(run, phase, event).0.last() matches EffectView::RetireSuspended {
            job,
            state,
            ..
        } && job == run.job && state == JobState::Killed,
{
    reveal_strlit("rejected");
    reveal_strlit("pr_open");
    reveal_strlit("suspended");
    reveal_strlit("stuck");
    reveal_strlit("requeued");
    assert("rejected"@.len() == 8 && "pr_open"@.len() == 7 && "suspended"@.len() == 9);
    assert("stuck"@.len() == 5 && "requeued"@.len() == 8);
    assert("rejected"@[2] != "requeued"@[2]);
}

/// A streak of identical failures below three puts the finding back into the
/// queue, and from the third on rejects it, with the failure as the reason.
/// No other finding and no other job is touched.
pub proof fn law_streak_below_three_is_tried_again(run: FixRun, failure: Seq<char>, count: i64)
    ensures
        ({
            let (v, next, action) = fix_next(
                run,
                FixPhaseView::Streak { failure },
                FixEvent::Streak { count },
            );
            let after = effects::status_after(v, run.finding, FindingStatus::Fixing);
            &&& next is Ended
            &&& effects::keeps_to(v, run.finding, run.job)
            &&& count < 3 ==> after == FindingStatus::Queued && effects::reason_after(v, run.finding)
                is None && !effects::forgets(v, run.finding, FindingJobKind::Fix)
            &&& count < 3 ==> forall|i: int|
                0 <= i < v.len() ==> !(#[trigger] v[i] is SetVerdict) && !(v[i] is SetPrOpen) && !(v[i]
                    is SetInProgress) && (v[i] matches EffectView::SetStatus { status, .. } ==> status
                    == FindingStatus::Queued)
            &&& count >= 3 ==> after == FindingStatus::Rejected && effects::forgets(
                v,
                run.finding,
                FindingJobKind::Fix,
            )
            &&& count >= 3 ==> (effects::reason_after(v, run.finding) matches Some(why)
                && failure.is_suffix_of(why))
            &&& effects::drops_override(v, run.finding) <==> run.override_once
            &&& action matches FixActionView::Finish { summary }
            &&& summary.outcome == Some(if count < 3 { "requeued"@ } else { "stuck"@ })
            &&& summary.failure == Some(failure)
        }),
{
    let (v, next, action) = fix_next(run, FixPhaseView::Streak { failure }, FixEvent::Streak { count });
    effects::lemma_short_lists(v, run.finding, FindingStatus::Fixing);
    effects::lemma_first_reason(v, run.finding);
    let gone = EffectView::ClearOverride { finding: run.finding };
    let forgotten = EffectView::ClearAttempts { finding: run.finding, kind: FindingJobKind::Fix };
    if count >= 3 {
        assert(v[1] == forgotten);
        assert(run.override_once ==> v[3] == gone);
        let start = "stuck: "@ + text::int_text(count as int)
            + " consecutive fix attempts hit the same failure: "@;
        let why = start + failure;
        assert(why.subrange(why.len() - failure.len(), why.len() as int) =~= failure);
    } else {
        assert(run.override_once ==> v[2] == gone);
    }
}

/// A worker that declines has its finding rejected, with the beginning of
/// what it wrote as the reason, and the failed attempts are forgotten.
pub proof fn law_declined_fix_is_rejected(run: FixRun, blocked: bool, said: String)
    ensures
        ({
            let (v, next, action) = fix_next(
                run,
                FixPhaseView::Outcome,
                FixEvent::Declined { blocked, text: said },
            );
            &&& next is Ended
            &&& effects::keeps_to(v, run.finding, run.job)
            &&& effects::status_after(v, run.finding, FindingStatus::Fixing)
                == FindingStatus::Rejected
            &&& effects::forgets(v, run.finding, FindingJobKind::Fix)
            &&& effects::reason_after(v, run.finding) matches Some(why)
            &&& why.is_prefix_of(said@)
            &&& said@.len() <= 500 ==> why == said@
            &&& said@.len() > 500 ==> why.len() == 500
            &&& action matches FixActionView::Finish { summary }
            &&& summary.outcome == Some("rejected"@)
        }),
{
    let (v, next, action) = fix_next(
        run,
        FixPhaseView::Outcome,
        FixEvent::Declined { blocked, text: said },
    );
    effects::lemma_short_lists(v, run.finding, FindingStatus::Fixing);
    effects::lemma_first_reason(v, run.finding);
    assert(v[1] == (EffectView::ClearAttempts { finding: run.finding, kind: FindingJobKind::Fix }));
    let why = reason_of(said@);
    assert(said@.take(why.len() as int) =~= why);
}

/// A created pull request makes the finding open at its address, forgets the
/// failed attempts and spends a one-time override.
pub proof fn law_created_pull_request_is_kept(run: FixRun, url: String)
    ensures
        ({
            let (v, next, action) = fix_next(
                run,
                FixPhaseView::Create,
                FixEvent::PrCreated { url },
            );
            &&& next is Ended
            &&& effects::keeps_to(v, run.finding, run.job)
            &&& effects::status_after(v, run.finding, FindingStatus::Fixing) == FindingStatus::PrOpen
            &&& v.contains(EffectView::SetPrOpen { finding: run.finding, url: url@ })
            &&& effects::forgets(v, run.finding, FindingJobKind::Fix)
            &&& effects::drops_override(v, run.finding) <==> run.override_once
            &&& action matches FixActionView::Finish { summary }
            &&& summary.outcome == Some("pr_open"@)
            &&& summary.pr_url == Some(url@)
        }),
{
    let (v, next, action) = fix_next(run, FixPhaseView::Create, FixEvent::PrCreated { url });
    lemma_shipped(run, url@, " draft PR: "@);
}

/// A pull request that exists already is taken over; any other refusal is a
/// failure of the fix and opens nothing.
pub proof fn law_refused_pull_request_is_taken_over_or_fails(run: FixRun, error: String)
    ensures
        ({
            let (v, next, action) = fix_next(
                run,
                FixPhaseView::Create,
                FixEvent::PrFailed { error },
            );
            let there = text::has(error@, "already exists"@) && first_pr_url(
                text::words(error@),
                0,
            ) is Some;
            let after = effects::status_after(v, run.finding, FindingStatus::Fixing);
            &&& effects::keeps_to(v, run.finding, run.job)
            &&& there ==> after == FindingStatus::PrOpen && v.contains(
                EffectView::SetPrOpen {
                    finding: run.finding,
                    url: first_pr_url(text::words(error@), 0)->0,
                },
            )
            &&& !there ==> after != FindingStatus::PrOpen && after != FindingStatus::Rejected
            &&& !there && run.state != JobState::Suspended ==> (action matches
                FixActionView::RecordFailure { failure } && text::first_chars(
                error@,
                300,
            ).is_suffix_of(failure))
        }),
{
    let (v, next, action) = fix_next(run, FixPhaseView::Create, FixEvent::PrFailed { error });
    let short = text::first_chars(error@, 300);
    let failure = "PR create failed: "@ + short;
    assert(failure.subrange(failure.len() - short.len(), failure.len() as int) =~= short);
    if text::has(error@, "already exists"@) && first_pr_url(text::words(error@), 0) is Some {
        lemma_shipped(run, first_pr_url(text::words(error@), 0)->0, " recovered existing PR: "@);
    } else {
        lemma_failed(run, failure);
    }
}

/// A failure is a pause where the worker was suspended: the finding is back
/// in the queue and nothing is counted. Any other is counted and decides
/// nothing yet.
pub proof fn law_failure_is_counted_unless_paused(run: FixRun, failure: Seq<char>)
    ensures
        ({
            let (v, next, action) = fix_failed(run, failure);
            &&& effects::keeps_to(v, run.finding, run.job)
            &&& run.state == JobState::Suspended ==> next is Ended && effects::status_after(
                v,
                run.finding,
                FindingStatus::Fixing,
            ) == FindingStatus::Queued && (effects::drops_override(v, run.finding)
                <==> run.override_once) && !effects::forgets(v, run.finding, FindingJobKind::Fix)
            &&& run.state == JobState::Suspended ==> (action matches FixActionView::Finish { summary }
                && summary.outcome == Some("suspended"@) && summary.worktree == Some(run.worktree@))
            &&& run.state != JobState::Suspended ==> v.len() == 0 && next == (FixPhaseView::Streak {
                failure,
            }) && action == (FixActionView::RecordFailure { failure })
        }),
{
    lemma_failed(run, failure);
}

/// Nothing is pushed before there are commits and a description, and nothing
/// is written before the fix has ended: a step that goes on writes nothing.
pub proof fn law_fix_ships_only_finished_work(run: FixRun, phase: FixPhaseView, event: FixEvent)
    ensures
        ({
            let (v, next, action) = fix_next(run, phase, event);
            &&& next is Description ==> phase is Commits && (event matches FixEvent::Done { rc, out }
                && rc == 0 && text::trim(out@, Cut::White).len() > 0)
            &&& next is Push ==> phase is Description && event == (FixEvent::Found { yes: true })
            &&& next is Title ==> phase is Push && (event matches FixEvent::Done { rc, .. } && rc == 0)
            &&& next is Create ==> phase is Title && (action matches FixActionView::CreatePr {
                head,
                base,
                ..
            } && head == run.branch@ && base == run.default_branch@)
            &&& !(next is Ended) ==> v.len() == 0
            &&& next is Push ==> (action matches FixActionView::Command { argv, .. } && argv[3]
                == "push"@ && argv[2] == run.worktree@ && argv.last() == "HEAD"@)
        }),
{
}

proof fn lemma_shipped(run: FixRun, url: Seq<char>, found: Seq<char>)
    ensures
        ({
            let v = fix_shipped(run, url, found).0;
            &&& effects::keeps_to(v, run.finding, run.job)
            &&& effects::status_after(v, run.finding, FindingStatus::Fixing) == FindingStatus::PrOpen
            &&& v.contains(EffectView::SetPrOpen { finding: run.finding, url })
            &&& effects::forgets(v, run.finding, FindingJobKind::Fix)
            &&& effects::drops_override(v, run.finding) <==> run.override_once
        }),
{
    let v = fix_shipped(run, url, found).0;
    effects::lemma_short_lists(v, run.finding, FindingStatus::Fixing);
    assert(v[0] == (EffectView::SetPrOpen { finding: run.finding, url }));
    assert(v[1] == (EffectView::ClearAttempts { finding: run.finding, kind: FindingJobKind::Fix }));
    assert(run.override_once ==> v[3] == (EffectView::ClearOverride { finding: run.finding }));
}

proof fn lemma_failed(run: FixRun, failure: Seq<char>)
    ensures
        ({
            let v = fix_failed(run, failure).0;
            &&& effects::keeps_to(v, run.finding, run.job)
            &&& run.state == JobState::Suspended ==> effects::status_after(
                v,
                run.finding,
                FindingStatus::Fixing,
            ) == FindingStatus::Queued
            &&& run.state != JobState::Suspended ==> effects::status_after(
                v,
                run.finding,
                FindingStatus::Fixing,
            ) == FindingStatus::Fixing
            &&& run.state == JobState::Suspended ==> (effects::drops_override(v, run.finding)
                <==> run.override_once)
            &&& !effects::forgets(v, run.finding, FindingJobKind::Fix)
        }),
{
    let v = fix_failed(run, failure).0;
    effects::lemma_short_lists(v, run.finding, FindingStatus::Fixing);
    if run.state == JobState::Suspended {
        assert(run.override_once ==> v[2] == (EffectView::ClearOverride { finding: run.finding }));
    }
}

/// The branch of a fix begins with the kind of work and ends with the
/// finding's number.
pub proof fn law_branch_names_its_finding(f: Finding)
    ensures
        ({
            let b = branch_of(f);
            let start = match f.kind {
                FindingType::Bug => "fix/"@,
                FindingType::Modernization => "modernize/"@,
                _ => "improve/"@,
            };
            let end = "-"@ + text::int_text(f.id as int);
            &&& start.is_prefix_of(b)
            &&& end.is_suffix_of(b)
            &&& b.len() <= start.len() + 40 + end.len()
        }),
{
    reveal_strlit("/");
    reveal_strlit("fix");
    reveal_strlit("fix/");
    reveal_strlit("modernize");
    reveal_strlit("modernize/");
    reveal_strlit("improve");
    reveal_strlit("improve/");
    let b = branch_of(f);
    let start = match f.kind {
        FindingType::Bug => "fix/"@,
        FindingType::Modernization => "modernize/"@,
        _ => "improve/"@,
    };
    let end = "-"@ + text::int_text(f.id as int);
    assert(branch_prefix(f.kind) + "/"@ =~= start);
    assert(b.subrange(0, start.len() as int) =~= start);
    assert(b.subrange(b.len() - end.len(), b.len() as int) =~= end);
    let parts = text::split(dashed(f.summary@), Cut::At('-')).filter(|w: Seq<char>| w.len() > 0);
    lemma_trimmed_len(text::first_chars(text::join(parts, "-"@), 40), Cut::At('-'));
}

proof fn lemma_trimmed_len(s: Seq<char>, k: Cut)
    ensures
        text::trim_end(s, k).len() <= s.len(),
        text::trim_end(s, k).len() > 0 ==> !text::cuts(k, text::trim_end(s, k).last()),
        text::trim_end(s, k).is_prefix_of(s),
    decreases s.len(),
{
    if s.len() > 0 && text::cuts(k, s.last()) {
        lemma_trimmed_len(s.drop_last(), k);
        let t = text::trim_end(s, k);
        assert(t =~= s.subrange(0, t.len() as int)) by {
            assert(t =~= s.drop_last().subrange(0, t.len() as int));
        }
    } else {
        assert(s.subrange(0, s.len() as int) =~= s);
    }
}

/// Two findings never share a branch.
pub proof fn law_branches_are_not_shared(f: Finding, g: Finding)
    requires
        f.id >= 0,
        g.id >= 0,
        branch_of(f) == branch_of(g),
    ensures
        f.id == g.id,
{
    reveal_strlit("-");
    assert("-"@ =~= seq!['-']);
    let x = branch_prefix(f.kind) + "/"@ + slug_of(f.summary@);
    let y = branch_prefix(g.kind) + "/"@ + slug_of(g.summary@);
    text::lemma_int_text_chars(f.id);
    text::lemma_int_text_chars(g.id);
    lemma_no_dash(f.id);
    lemma_no_dash(g.id);
    text::lemma_rsplit_once_at(x, '-', text::int_text(f.id as int));
    text::lemma_rsplit_once_at(y, '-', text::int_text(g.id as int));
    text::law_decimal_injective(f.id, g.id);
}

proof fn lemma_no_dash(n: i64)
    requires
        n >= 0,
    ensures
        !text::holds_char(text::int_text(n as int), '-'),
{
    lemma_nat_no_dash(n as nat);
}

proof fn lemma_nat_no_dash(n: nat)
    ensures
        !text::holds_char(text::nat_text(n), '-'),
    decreases n,
{
    if n >= 10 {
        lemma_nat_no_dash(n / 10);
    }
}

/// An address that is read from a message starts with the scheme, is the
/// beginning of its word, and ends with the number of a pull request.
pub proof fn law_found_address_names_a_pull_request(w: Seq<char>)
    ensures
        word_pr_url(w) matches Some(u) ==> {
            &&& "https://"@.is_prefix_of(u)
            &&& u.is_prefix_of(w)
            &&& u.len() > 0 && text::is_digit(u.last())
            &&& exists|i: int| #[trigger] text::occurs_at(u, "/pull/"@, i) && forall|k: int|
                i + 6 <= k < u.len() ==> text::is_digit(#[trigger] u[k])
            &&& u.len() < w.len() ==> !text::is_digit(w[u.len() as int])
        },
{
    reveal_strlit("https://");
    reveal_strlit("/pull/");
    if let Some(u) = word_pr_url(w) {
        let i = text::find(w, "/pull/"@)->0;
        text::lemma_find_from(w, "/pull/"@, 0);
        let n = digit_run(w.skip(i + 6));
        lemma_digit_run(w.skip(i + 6));
        assert(u =~= w.subrange(0, u.len() as int));
        assert(u.subrange(i, i + 6) =~= w.subrange(i, i + 6));
        assert(text::occurs_at(u, "/pull/"@, i));
        assert forall|k: int| i + 6 <= k < u.len() implies text::is_digit(#[trigger] u[k]) by {
            assert(w.skip(i + 6)[k - i - 6] == w[k]);
        }
        if u.len() < w.len() {
            assert(w.skip(i + 6)[n] == w[u.len() as int]);
        }
        assert(w.subrange(i, i + 6)[0] == '/');
        assert(w.subrange(0, 8) == "https://"@);
        assert(i >= 6) by {
            if i < 6 {
                assert("https://"@[i] == w[i]);
            }
        }
        assert(u.subrange(0, 8) =~= w.subrange(0, 8));
    }
}

proof fn lemma_digit_run(s: Seq<char>)
    ensures
        0 <= digit_run(s) <= s.len(),
        forall|k: int| 0 <= k < digit_run(s) ==> text::is_digit(#[trigger] s[k]),
        digit_run(s) < s.len() ==> !text::is_digit(s[digit_run(s)]),
    decreases s.len(),
{
    if s.len() > 0 && text::is_digit(s[0]) {
        let rest = s.skip(1);
        lemma_digit_run(rest);
        assert forall|k: int| 0 <= k < digit_run(s) implies text::is_digit(#[trigger] s[k]) by {
            if k > 0 {
                assert(rest[k - 1] == s[k]);
            }
        }
        if digit_run(s) < s.len() {
            assert(rest[digit_run(rest)] == s[digit_run(s)]);
        }
    }
}

/// Why a fix without a pull request failed, by what it left: nothing was
/// committed, the description is missing, or its worker did not finish.
pub proof fn law_unshipped_fix_says_why(run: FixRun, out: String)
    requires
        run.state != JobState::Suspended,
    ensures
        text::trim(out@, Cut::White).len() == 0 && run.state == JobState::Done ==> fix_next(
            run,
            FixPhaseView::Commits { retried: false },
            FixEvent::Done { rc: 0, out },
        ).2 == (FixActionView::RecordFailure { failure: "no commits"@ }),
        run.state == JobState::Done ==> fix_next(
            run,
            FixPhaseView::Description,
            FixEvent::Found { yes: false },
        ).2 == (FixActionView::RecordFailure { failure: "no PR-DESCRIPTION.md"@ }),
        run.state != JobState::Done ==> fix_next(
            run,
            FixPhaseView::Description,
            FixEvent::Found { yes: false },
        ).2 == (FixActionView::RecordFailure { failure: "worker "@ + run.state.text() }),
{
}

/// The commits of a fix are those that its branch has over the default
/// branch: as its origin has it, else as the clone has it.
pub proof fn law_commits_are_counted_over_the_default_branch(run: FixRun, rc: i32, out: String)
    ensures
        fix_next(run, FixPhaseView::Outcome, FixEvent::NoOutcome).2 matches FixActionView::Command { argv, .. }
            && argv == seq![
            "git"@,
            "-C"@,
            run.worktree@,
            "log"@,
            "origin/"@ + run.default_branch@ + "..HEAD"@,
            "--oneline"@,
        ],
        rc != 0 ==> (fix_next(run, FixPhaseView::Commits { retried: false }, FixEvent::Done { rc, out }).2 matches
            FixActionView::Command { argv, .. } && argv == seq![
            "git"@,
            "-C"@,
            run.worktree@,
            "log"@,
            run.default_branch@ + "..HEAD"@,
            "--oneline"@,
        ]),
{
}

/// A pull request is titled by the subject of the last commit, and by its
/// branch where there is none.
pub proof fn law_pull_request_is_titled_by_its_commit(run: FixRun, rc: i32, out: String)
    ensures
        fix_next(run, FixPhaseView::Title, FixEvent::Done { rc, out }).2 matches FixActionView::CreatePr {
            title,
            ..
        } && title == (if text::trim(out@, Cut::White).len() > 0 {
            text::trim(out@, Cut::White)
        } else {
            run.branch@
        }),
{
}

} // verus!
