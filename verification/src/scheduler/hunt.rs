//! Hunts and analysis scans: what is looked at, and what the result means.

use vstd::prelude::*;
use crate::domain::{FindingType, JobKind, JobState, RepoJobKind};
use crate::ingest::IngestResult;
use crate::scheduler::effects;
use crate::scheduler::effects::{CycleSummary, CycleSummaryView, Effect, EffectView};
use crate::scheduler::prepare;
use crate::scheduler::prepare::Refusal;
use crate::text;
use crate::text::Cut;
use crate::types::Repo;
use crate::util;

verus! {

pub const DAY_MS: i64 = 86_400_000;

/// Git's empty tree: a diff from it holds the root commit too.
pub open spec fn empty_tree() -> Seq<char> {
    "4b825dc642cb6eb9a060e54bf8d69288fbee4904"@
}

// ---------------------------------------------------------------------
// Scope of a hunt
// ---------------------------------------------------------------------

/// What a hunt looks at.
#[derive(Debug, Clone)]
pub enum HuntScope {
    /// Nothing: no new commits.
    Skip { summary: CycleSummary },
    /// These commits, with a note on why.
    Range { diff_range: String, note: String },
    /// The start of a first hunt, which git is asked for.
    First,
}

pub enum HuntScopeView {
    Skip { summary: CycleSummaryView },
    Range { diff_range: Seq<char>, note: Seq<char> },
    First,
}

impl View for HuntScope {
    type V = HuntScopeView;

    open spec fn view(&self) -> HuntScopeView {
        match *self {
            HuntScope::Skip { summary } => HuntScopeView::Skip { summary: summary@ },
            HuntScope::Range { diff_range, note } => HuntScopeView::Range {
                diff_range: diff_range@,
                note: note@,
            },
            HuntScope::First => HuntScopeView::First,
        }
    }
}

/// Whether the whole history is due again. Never on a resume: that was
/// settled when the work started.
pub open spec fn rehunt_due(repo: Repo, resuming: bool, now: i64, rehunt_days: i64) -> bool {
    !resuming && match repo.last_full_hunt_at {
        Some(t) => now - t > rehunt_days * 86_400_000,
        None => false,
    }
}

/// The commit up to which the repository was hunted, as this hunt takes it.
pub open spec fn hunted_up_to(repo: Repo, due: bool) -> Option<Seq<char>> {
    if due { None } else { text::opt_text(repo.last_hunt_sha) }
}

pub open spec fn range_text(from: Seq<char>, to: Seq<char>) -> Seq<char> {
    from + ".."@ + to
}

/// The effects with which a hunt's scope is settled, and the scope.
pub open spec fn hunt_scope_of(
    repo: Repo,
    head: Seq<char>,
    resuming: bool,
    now: i64,
    rehunt_days: i64,
) -> (Seq<EffectView>, HuntScopeView, bool) {
    let due = rehunt_due(repo, resuming, now, rehunt_days);
    let last = hunted_up_to(repo, due);
    let start = if due {
        seq![
            EffectView::ClearLastHunt { repo: repo.id },
            effects::log_view(
                "hunt"@,
                repo.name@ + ": full re-hunt triggered ("@ + text::int_text(rehunt_days as int)
                    + "d interval)"@,
                None,
                None,
            ),
        ]
    } else {
        Seq::<EffectView>::empty()
    };
    if !resuming && last == Some(head) {
        (
            start + seq![
                EffectView::SetLastHunt { repo: repo.id, sha: head },
                effects::log_view(
                    "hunt"@,
                    repo.name@ + ": no new commits since "@ + util::head_text(head, 12)
                        + " -- skipped"@,
                    None,
                    None,
                ),
            ],
            HuntScopeView::Skip {
                summary: CycleSummaryView {
                    kind: Some(JobKind::Repo(RepoJobKind::Hunt)),
                    skipped: Some("no new commits"@),
                    head: Some(head),
                    ..effects::blank()
                },
            },
            due,
        )
    } else {
        (
            start,
            match last {
                Some(l) => HuntScopeView::Range {
                    diff_range: range_text(l, head),
                    note: "Commits since the last completed hunt ("@ + util::head_text(l, 12)
                        + ")."@,
                },
                None => if due {
                    HuntScopeView::Range {
                        diff_range: range_text(empty_tree(), head),
                        note: "Periodic full re-hunt: complete history including root commit."@,
                    }
                } else {
                    HuntScopeView::First
                },
            },
            due,
        )
    }
}

/// Whether a commit name can be shortened for a message.
pub fn shortens(sha: &str) -> (r: bool)
    ensures
        r == util::head_cuts(sha@, 12),
{
    util::can_cut(sha, 12)
}

/// Whether the whole history is due again.
pub fn is_rehunt_due(repo: &Repo, resuming: bool, now: i64, rehunt_days: i64) -> (r: bool)
    ensures
        r == rehunt_due(*repo, resuming, now, rehunt_days),
{
    !resuming && match repo.last_full_hunt_at {
        Some(t) => now as i128 - t as i128 > rehunt_days as i128 * 86_400_000i128,
        None => false,
    }
}

/// Settle what a hunt looks at.
pub fn hunt_scope(repo: &Repo, head: &str, resuming: bool, now: i64, rehunt_days: i64) -> (r: (
    Vec<Effect>,
    HuntScope,
    bool,
))
    requires
        hunted_up_to(*repo, rehunt_due(*repo, resuming, now, rehunt_days)) matches Some(s)
            ==> util::head_cuts(s, 12),
    ensures
        (effects::effects(r.0@), r.1@, r.2) == hunt_scope_of(
            *repo,
            head@,
            resuming,
            now,
            rehunt_days,
        ),
{
    let ghost want = hunt_scope_of(*repo, head@, resuming, now, rehunt_days);
    let mut out = effects::no_effects();
    let due = is_rehunt_due(repo, resuming, now, rehunt_days);
    let last: Option<String> = if due {
        None
    } else {
        text::copy_opt(&repo.last_hunt_sha)
    };
    if due {
        effects::add_effect(&mut out, Effect::ClearLastHunt { repo: repo.id });
        let msg = repo.name.clone().concat(": full re-hunt triggered (").concat(
            text::int_to_text(rehunt_days).as_str(),
        ).concat("d interval)");
        effects::add_effect(&mut out, effects::log("hunt", msg, None, None));
    }
    if !resuming && text::opt_is(&last, head) {
        effects::add_effect(
            &mut out,
            Effect::SetLastHunt { repo: repo.id, sha: head.to_owned() },
        );
        let msg = repo.name.clone().concat(": no new commits since ").concat(
            util::head(head, 12),
        ).concat(" -- skipped");
        effects::add_effect(&mut out, effects::log("hunt", msg, None, None));
        assert(effects::effects(out@) =~= want.0);
        let summary = CycleSummary {
            kind: Some(JobKind::Repo(RepoJobKind::Hunt)),
            skipped: Some("no new commits".to_owned()),
            head: Some(head.to_owned()),
            ..CycleSummary::default()
        };
        return (out, HuntScope::Skip { summary }, due);
    }
    assert(effects::effects(out@) =~= want.0);
    match last {
        Some(l) => {
            let note = "Commits since the last completed hunt (".to_owned().concat(
                util::head(&l, 12),
            ).concat(").");
            let diff_range = l.concat("..").concat(head);
            (out, HuntScope::Range { diff_range, note }, due)
        },
        None => {
            if due {
                let diff_range = "4b825dc642cb6eb9a060e54bf8d69288fbee4904".to_owned().concat(
                    "..",
                ).concat(head);
                let note =
                    "Periodic full re-hunt: complete history including root commit.".to_owned();
                (out, HuntScope::Range { diff_range, note }, due)
            } else {
                (out, HuntScope::First, due)
            }
        },
    }
}

/// Asks git for the last commit before three weeks ago.
pub fn three_weeks_args(path: &str, head: &str) -> (r: Vec<String>)
    ensures
        text::texts(r@) == seq![
            "git"@,
            "-C"@,
            path@,
            "rev-list"@,
            "-1"@,
            "--before=3 weeks ago"@,
            head@,
        ],
{
    let mut v = text::no_texts();
    text::add_text(&mut v, "git");
    text::add_text(&mut v, "-C");
    text::add_text(&mut v, path);
    text::add_text(&mut v, "rev-list");
    text::add_text(&mut v, "-1");
    text::add_text(&mut v, "--before=3 weeks ago");
    text::add_text(&mut v, head);
    v
}

/// Asks git for the thirtieth ancestor.
pub fn thirty_back_args(path: &str, head: &str) -> (r: Vec<String>)
    ensures
        text::texts(r@) == seq!["git"@, "-C"@, path@, "rev-parse"@, head@ + "~30"@],
{
    let rev = head.to_owned().concat("~30");
    let mut v = text::no_texts();
    text::add_text(&mut v, "git");
    text::add_text(&mut v, "-C");
    text::add_text(&mut v, path);
    text::add_text(&mut v, "rev-parse");
    text::add_text(&mut v, &rev);
    v
}

/// Range and note of a first hunt by age, from what git printed; nothing
/// where there is no older commit.
pub open spec fn by_age(head: Seq<char>, printed: Seq<char>) -> Option<(Seq<char>, Seq<char>)> {
    let base = text::trim(printed, Cut::White);
    if base.len() == 0 || base == head {
        None
    } else {
        Some(
            (
                range_text(base, head),
                "First hunt for this repo: the last ~3 weeks (base "@ + util::head_text(base, 12)
                    + ")."@,
            ),
        )
    }
}

/// Range and note of a first hunt by number of commits.
pub open spec fn by_count(head: Seq<char>, rc: i32, printed: Seq<char>) -> (Seq<char>, Seq<char>) {
    let base = text::trim(printed, Cut::White);
    if rc != 0 || base.len() == 0 {
        (
            range_text(empty_tree(), head),
            "First hunt for this repo: the full history (small repo)."@,
        )
    } else {
        (
            range_text(base, head),
            "First hunt for this repo: the last 30 commits (base "@ + util::head_text(base, 12)
                + ")."@,
        )
    }
}

pub fn first_hunt_by_age(head: &str, printed: &str) -> (r: Option<(String, String)>)
    requires
        by_age(head@, printed@) is Some ==> util::head_cuts(text::trim(printed@, Cut::White), 12),
    ensures
        text::opt_pair(r) == by_age(head@, printed@),
{
    let base = text::trim_text(printed, Cut::White);
    if base.as_str().is_empty() || text::same(&base, head) {
        return None;
    }
    let note = "First hunt for this repo: the last ~3 weeks (base ".to_owned().concat(
        util::head(&base, 12),
    ).concat(").");
    Some((base.concat("..").concat(head), note))
}

pub fn first_hunt_by_count(head: &str, rc: i32, printed: &str) -> (r: (String, String))
    requires
        rc == 0 ==> util::head_cuts(text::trim(printed@, Cut::White), 12),
    ensures
        (r.0@, r.1@) == by_count(head@, rc, printed@),
{
    let base = text::trim_text(printed, Cut::White);
    if rc != 0 || base.as_str().is_empty() {
        (
            "4b825dc642cb6eb9a060e54bf8d69288fbee4904".to_owned().concat("..").concat(head),
            "First hunt for this repo: the full history (small repo).".to_owned(),
        )
    } else {
        let note = "First hunt for this repo: the last 30 commits (base ".to_owned().concat(
            util::head(&base, 12),
        ).concat(").");
        (base.concat("..").concat(head), note)
    }
}

/// Where the worker writes its findings: under the chain's first job, whose
/// prompt named the path.
pub open spec fn out_file(job: i64, origin: Option<i64>, plural: Seq<char>) -> Seq<char> {
    let id = match origin {
        Some(o) => o,
        None => job,
    };
    "job"@ + text::int_text(id as int) + "."@ + plural + ".json"@
}

pub fn out_name(job: i64, origin: Option<i64>, plural: &str) -> (r: String)
    ensures
        r@ == out_file(job, origin, plural@),
{
    let id: i64 = match origin {
        Some(o) => o,
        None => job,
    };
    "job".to_owned().concat(text::int_to_text(id).as_str()).concat(".").concat(plural).concat(
        ".json",
    )
}

// ---------------------------------------------------------------------
// After the run
// ---------------------------------------------------------------------

/// A hunt whose worker has run.
#[derive(Debug, Clone)]
pub struct HuntRun {
    pub repo: i64,
    pub name: String,
    pub job: i64,
    /// The recorded state of the job.
    pub state: JobState,
    pub diff_range: String,
    pub tokens_new: i64,
    pub head: String,
    /// The commit that the chain's tree was created at.
    pub pinned: String,
    pub full_rehunt: bool,
    /// The whole history was hunted before.
    pub had_full: bool,
}

/// The tally of a scan in a message.
pub open spec fn tally_text(c: IngestResult, tokens: i64) -> Seq<char> {
    "+"@ + text::int_text(c.inserted as int) + " new / "@ + text::int_text(c.duplicates as int)
        + " dup / "@ + text::int_text(c.invalid as int) + " invalid ("@ + text::int_text(
        tokens as int,
    ) + " tok)"@
}

fn tally(c: &IngestResult, tokens: i64) -> (r: String)
    ensures
        r@ == tally_text(*c, tokens),
{
    "+".to_owned().concat(text::int_to_text(c.inserted).as_str()).concat(" new / ").concat(
        text::int_to_text(c.duplicates).as_str(),
    ).concat(" dup / ").concat(text::int_to_text(c.invalid).as_str()).concat(" invalid (").concat(
        text::int_to_text(tokens).as_str(),
    ).concat(" tok)")
}

/// The beginning of a message about a scan's job.
pub open spec fn job_text(name: Seq<char>, job: i64, state: JobState) -> Seq<char> {
    name + ": job "@ + text::int_text(job as int) + " "@ + state.text()
}

fn job_words(name: &str, job: i64, state: JobState) -> (r: String)
    ensures
        r@ == job_text(name@, job, state),
{
    name.to_owned().concat(": job ").concat(text::int_to_text(job).as_str()).concat(" ").concat(
        state.as_str(),
    )
}

pub open spec fn hunt_summary(run: HuntRun, counts: Option<IngestResult>) -> CycleSummaryView {
    CycleSummaryView {
        kind: Some(JobKind::Repo(RepoJobKind::Hunt)),
        repo: Some(run.name@),
        job_id: Some(run.job),
        state: Some(run.state),
        diff_range: Some(run.diff_range@),
        tokens_new: Some(run.tokens_new),
        head: Some(run.head@),
        full_rehunt: Some(run.full_rehunt),
        ingest: counts,
        ..effects::blank()
    }
}

/// The effects of a concluded hunt. Only a finished hunt whose every finding
/// was valid moves the mark, and only up to the commit that was looked at.
pub open spec fn hunt_concluded(run: HuntRun, counts: Option<IngestResult>) -> Seq<EffectView> {
    match counts {
        Some(c) => {
            let told = seq![
                effects::log_view(
                    "hunt"@,
                    job_text(run.name@, run.job, run.state) + " over "@ + util::head_text(
                        run.diff_range@,
                        25,
                    ) + "... "@ + tally_text(c, run.tokens_new),
                    Some(run.job),
                    None,
                ),
            ];
            if run.state == JobState::Done && c.invalid == 0 {
                told + seq![EffectView::SetLastHunt { repo: run.repo, sha: run.pinned@ }]
                    + if run.full_rehunt || !run.had_full {
                    seq![EffectView::SetLastFullHunt { repo: run.repo }]
                } else {
                    Seq::<EffectView>::empty()
                }
            } else {
                told
            }
        },
        None => seq![
            effects::log_view(
                "hunt"@,
                job_text(run.name@, run.job, run.state) + ", no findings file ("@ + text::int_text(
                    run.tokens_new as int,
                ) + " tok)"@,
                Some(run.job),
                None,
            ),
        ],
    }
}

/// Conclude a hunt: `counts` is the tally of its findings file, where there
/// is one.
pub fn conclude_hunt(run: &HuntRun, counts: Option<IngestResult>) -> (r: (
    Vec<Effect>,
    CycleSummary,
))
    requires
        counts is Some ==> util::head_cuts(run.diff_range@, 25),
    ensures
        effects::effects(r.0@) == hunt_concluded(*run, counts),
        r.1@ == hunt_summary(*run, counts),
{
    let mut out = effects::no_effects();
    match &counts {
        Some(c) => {
            let msg = job_words(&run.name, run.job, run.state).concat(" over ").concat(
                util::head(&run.diff_range, 25),
            ).concat("... ").concat(&tally(c, run.tokens_new));
            effects::add_effect(&mut out, effects::log("hunt", msg, Some(run.job), None));
            if run.state == JobState::Done && c.invalid == 0 {
                effects::add_effect(
                    &mut out,
                    Effect::SetLastHunt { repo: run.repo, sha: run.pinned.clone() },
                );
                if run.full_rehunt || !run.had_full {
                    effects::add_effect(&mut out, Effect::SetLastFullHunt { repo: run.repo });
                }
            }
        },
        None => {
            let msg = job_words(&run.name, run.job, run.state).concat(
                ", no findings file (",
            ).concat(text::int_to_text(run.tokens_new).as_str()).concat(" tok)");
            effects::add_effect(&mut out, effects::log("hunt", msg, Some(run.job), None));
        },
    }
    assert(effects::effects(out@) =~= hunt_concluded(*run, counts));
    let summary = CycleSummary {
        kind: Some(JobKind::Repo(RepoJobKind::Hunt)),
        repo: Some(run.name.clone()),
        job_id: Some(run.job),
        state: Some(run.state),
        diff_range: Some(run.diff_range.clone()),
        tokens_new: Some(run.tokens_new),
        head: Some(run.head.clone()),
        full_rehunt: Some(run.full_rehunt),
        ingest: counts,
        ..CycleSummary::default()
    };
    (out, summary)
}

// ---------------------------------------------------------------------
// Analysis scans
// ---------------------------------------------------------------------

/// What is fixed for each kind of analysis scan.
pub open spec fn scan_type(kind: RepoJobKind) -> FindingType {
    match kind {
        RepoJobKind::Hunt => FindingType::Bug,
        RepoJobKind::TestGap => FindingType::TestGap,
        RepoJobKind::DepUpdate => FindingType::DepUpdate,
        RepoJobKind::Refactor => FindingType::Refactor,
        RepoJobKind::Modernization => FindingType::Modernization,
        RepoJobKind::Standards => FindingType::Standards,
    }
}

/// The type of the findings that a scan of this kind files.
pub fn finding_type_of(kind: RepoJobKind) -> (r: FindingType)
    ensures
        r == scan_type(kind),
{
    match kind {
        RepoJobKind::Hunt => FindingType::Bug,
        RepoJobKind::TestGap => FindingType::TestGap,
        RepoJobKind::DepUpdate => FindingType::DepUpdate,
        RepoJobKind::Refactor => FindingType::Refactor,
        RepoJobKind::Modernization => FindingType::Modernization,
        RepoJobKind::Standards => FindingType::Standards,
    }
}

/// What the output file of a scan is named after.
pub open spec fn scan_plural(kind: RepoJobKind) -> Seq<char> {
    match kind {
        RepoJobKind::Hunt => "findings"@,
        RepoJobKind::TestGap => "test_gaps"@,
        RepoJobKind::DepUpdate => "dep_updates"@,
        RepoJobKind::Refactor => "refactorings"@,
        RepoJobKind::Modernization => "modernizations"@,
        RepoJobKind::Standards => "standards"@,
    }
}

pub fn out_plural(kind: RepoJobKind) -> (r: &'static str)
    ensures
        r@ == scan_plural(kind),
{
    match kind {
        RepoJobKind::Hunt => "findings",
        RepoJobKind::TestGap => "test_gaps",
        RepoJobKind::DepUpdate => "dep_updates",
        RepoJobKind::Refactor => "refactorings",
        RepoJobKind::Modernization => "modernizations",
        RepoJobKind::Standards => "standards",
    }
}

/// What a scan without an output file is missing.
pub open spec fn scan_noun(kind: RepoJobKind) -> Seq<char> {
    match kind {
        RepoJobKind::Hunt => "findings"@,
        RepoJobKind::TestGap => "gaps"@,
        RepoJobKind::DepUpdate => "updates"@,
        RepoJobKind::Refactor => "refactorings"@,
        RepoJobKind::Modernization => "modernizations"@,
        RepoJobKind::Standards => "standards"@,
    }
}

fn no_output_noun(kind: RepoJobKind) -> (r: &'static str)
    ensures
        r@ == scan_noun(kind),
{
    match kind {
        RepoJobKind::Hunt => "findings",
        RepoJobKind::TestGap => "gaps",
        RepoJobKind::DepUpdate => "updates",
        RepoJobKind::Refactor => "refactorings",
        RepoJobKind::Modernization => "modernizations",
        RepoJobKind::Standards => "standards",
    }
}

/// The note on its scope that a scan's worker is given.
pub open spec fn scan_note(kind: RepoJobKind) -> Seq<char> {
    match kind {
        RepoJobKind::Hunt => ""@,
        RepoJobKind::TestGap => "Full repository scan for test coverage gaps."@,
        RepoJobKind::DepUpdate => "Check all package manifests for outdated dependencies."@,
        RepoJobKind::Refactor =>
            "Scan for safe, mechanical refactoring opportunities (duplication, dead code, complexity)."@,
        RepoJobKind::Modernization =>
            "Scan for SOTA-drift modernization opportunities (deprecated/unmaintained deps, language-feature gaps, format/protocol shifts, major version debt, platform EOL)."@,
        RepoJobKind::Standards => "Full repository audit against coding standards."@,
    }
}

pub fn scope_note(kind: RepoJobKind) -> (r: &'static str)
    ensures
        r@ == scan_note(kind),
{
    match kind {
        RepoJobKind::Hunt => "",
        RepoJobKind::TestGap => "Full repository scan for test coverage gaps.",
        RepoJobKind::DepUpdate => "Check all package manifests for outdated dependencies.",
        RepoJobKind::Refactor =>
            "Scan for safe, mechanical refactoring opportunities (duplication, dead code, complexity).",
        RepoJobKind::Modernization =>
            "Scan for SOTA-drift modernization opportunities (deprecated/unmaintained deps, language-feature gaps, format/protocol shifts, major version debt, platform EOL).",
        RepoJobKind::Standards => "Full repository audit against coding standards.",
    }
}

/// An analysis scan whose worker has run.
#[derive(Debug, Clone)]
pub struct ScanRun {
    pub kind: RepoJobKind,
    pub repo: i64,
    pub name: String,
    pub job: i64,
    /// The recorded state of the job.
    pub state: JobState,
    pub tokens_new: i64,
}

pub open spec fn scan_summary(run: ScanRun, counts: Option<IngestResult>) -> CycleSummaryView {
    CycleSummaryView {
        kind: Some(JobKind::Repo(run.kind)),
        repo: Some(run.name@),
        job_id: Some(run.job),
        state: Some(run.state),
        tokens_new: Some(run.tokens_new),
        ingest: counts,
        ..effects::blank()
    }
}

/// The effects of a concluded scan. Only a finished scan whose every finding
/// was valid counts as done.
pub open spec fn scan_concluded(run: ScanRun, counts: Option<IngestResult>) -> Seq<EffectView> {
    match counts {
        Some(c) => {
            let told = seq![
                effects::log_view(
                    run.kind.text(),
                    job_text(run.name@, run.job, run.state) + " -- "@ + tally_text(
                        c,
                        run.tokens_new,
                    ),
                    Some(run.job),
                    None,
                ),
            ];
            if run.state == JobState::Done && c.invalid == 0 {
                told + seq![EffectView::SetLastKind { repo: run.repo, kind: run.kind }]
            } else {
                told
            }
        },
        None => seq![
            effects::log_view(
                run.kind.text(),
                job_text(run.name@, run.job, run.state) + ", no "@ + scan_noun(run.kind)
                    + " file ("@ + text::int_text(run.tokens_new as int) + " tok)"@,
                Some(run.job),
                None,
            ),
        ],
    }
}

/// Conclude an analysis scan.
pub fn conclude_scan(run: &ScanRun, counts: Option<IngestResult>) -> (r: (
    Vec<Effect>,
    CycleSummary,
))
    ensures
        effects::effects(r.0@) == scan_concluded(*run, counts),
        r.1@ == scan_summary(*run, counts),
{
    let mut out = effects::no_effects();
    match &counts {
        Some(c) => {
            let msg = job_words(&run.name, run.job, run.state).concat(" -- ").concat(
                &tally(c, run.tokens_new),
            );
            effects::add_effect(
                &mut out,
                effects::log(run.kind.as_str(), msg, Some(run.job), None),
            );
            if run.state == JobState::Done && c.invalid == 0 {
                effects::add_effect(
                    &mut out,
                    Effect::SetLastKind { repo: run.repo, kind: run.kind },
                );
            }
        },
        None => {
            let msg = job_words(&run.name, run.job, run.state).concat(", no ").concat(
                no_output_noun(run.kind),
            ).concat(" file (").concat(text::int_to_text(run.tokens_new).as_str()).concat(" tok)");
            effects::add_effect(
                &mut out,
                effects::log(run.kind.as_str(), msg, Some(run.job), None),
            );
        },
    }
    assert(effects::effects(out@) =~= scan_concluded(*run, counts));
    let summary = CycleSummary {
        kind: Some(JobKind::Repo(run.kind)),
        repo: Some(run.name.clone()),
        job_id: Some(run.job),
        state: Some(run.state),
        tokens_new: Some(run.tokens_new),
        ingest: counts,
        ..CycleSummary::default()
    };
    (out, summary)
}

/// The refusal of a scan of a repository that is not cloned.
pub fn not_cloned(kind: RepoJobKind, name: &str) -> (r: Refusal)
    ensures
        prepare::refusal_view(r) == (
            seq![
                effects::log_view(
                    "error"@,
                    kind.text() + " "@ + name@ + ": repo not cloned"@,
                    None,
                    None,
                ),
            ],
            "repo not cloned"@,
        ),
{
    let msg = kind.as_str().to_owned().concat(" ").concat(name).concat(": repo not cloned");
    Refusal {
        effects: effects::one_effect(effects::log("error", msg, None, None)),
        error: "repo not cloned".to_owned(),
    }
}

/// The refusal of a hunt in a clone that does not know the default branch.
pub fn unresolved(name: &str, branch: &str) -> (r: Refusal)
    ensures
        prepare::refusal_view(r) == (
            seq![
                effects::log_view(
                    "error"@,
                    "hunt "@ + name@ + ": origin/"@ + branch@ + " does not resolve"@,
                    None,
                    None,
                ),
            ],
            "origin/"@ + branch@ + " does not resolve"@,
        ),
{
    let msg = "hunt ".to_owned().concat(name).concat(": origin/").concat(branch).concat(
        " does not resolve",
    );
    Refusal {
        effects: effects::one_effect(effects::log("error", msg, None, None)),
        error: "origin/".to_owned().concat(branch).concat(" does not resolve"),
    }
}

/// The file that the updates of a free scan of a repository are written to.
pub fn free_scan_name(repo: i64) -> (r: String)
    ensures
        r@ == "dep_scan_"@ + text::int_text(repo as int) + ".json"@,
{
    "dep_scan_".to_owned().concat(text::int_to_text(repo).as_str()).concat(".json")
}

/// Whether the dependency scan needs a worker: always on a resume, and where
/// the free scan was not available or found nothing.
pub fn needs_worker(resuming: bool, found: Option<usize>) -> (r: bool)
    ensures
        r == (resuming || match found {
            Some(n) => n == 0,
            None => true,
        }),
{
    resuming || match found {
        Some(n) => n == 0,
        None => true,
    }
}

/// The effects of a dependency scan that needed no worker.
pub open spec fn free_scan_concluded(repo: i64, name: Seq<char>, c: IngestResult) -> Seq<
    EffectView,
> {
    let told = seq![
        effects::log_view(
            "dep_update"@,
            name + ": renovate scan "@ + tally_text(c, 0),
            None,
            None,
        ),
    ];
    if c.invalid == 0 {
        told + seq![EffectView::SetLastKind { repo, kind: RepoJobKind::DepUpdate }]
    } else {
        told
    }
}

/// Conclude a dependency scan that needed no worker.
pub fn conclude_free_scan(repo: i64, name: &str, c: IngestResult) -> (r: (
    Vec<Effect>,
    CycleSummary,
))
    ensures
        effects::effects(r.0@) == free_scan_concluded(repo, name@, c),
        r.1@ == (CycleSummaryView {
            kind: Some(JobKind::Repo(RepoJobKind::DepUpdate)),
            repo: Some(name@),
            state: Some(JobState::Done),
            ingest: Some(c),
            ..effects::blank()
        }),
{
    let mut out = effects::no_effects();
    let msg = name.to_owned().concat(": renovate scan ").concat(&tally(&c, 0));
    effects::add_effect(&mut out, effects::log("dep_update", msg, None, None));
    if c.invalid == 0 {
        effects::add_effect(
            &mut out,
            Effect::SetLastKind { repo, kind: RepoJobKind::DepUpdate },
        );
    }
    assert(effects::effects(out@) =~= free_scan_concluded(repo, name@, c));
    let summary = CycleSummary {
        kind: Some(JobKind::Repo(RepoJobKind::DepUpdate)),
        repo: Some(name.to_owned()),
        state: Some(JobState::Done),
        ingest: Some(c),
        ..CycleSummary::default()
    };
    (out, summary)
}

// ---------------------------------------------------------------------
// Laws
// ---------------------------------------------------------------------

/// The mark of a hunt only ever names the commit that the worker was given,
/// and only a finished hunt without invalid findings sets it.
pub proof fn law_mark_names_what_was_hunted(
    run: HuntRun,
    counts: Option<IngestResult>,
    i: int,
    repo: i64,
    sha: Seq<char>,
)
    requires
        0 <= i < hunt_concluded(run, counts).len(),
        hunt_concluded(run, counts)[i] == (EffectView::SetLastHunt { repo, sha }),
    ensures
        repo == run.repo,
        sha == run.pinned@,
        run.state == JobState::Done,
        counts matches Some(c) && c.invalid == 0,
{
}

/// A resumed hunt is neither skipped nor widened: it keeps the range that
/// starts where the last completed hunt ended.
pub proof fn law_resume_keeps_its_scope(
    repo: Repo,
    head: Seq<char>,
    now: i64,
    rehunt_days: i64,
)
    ensures
        !(hunt_scope_of(repo, head, true, now, rehunt_days).1 is Skip),
        hunt_scope_of(repo, head, true, now, rehunt_days).0.len() == 0,
        !hunt_scope_of(repo, head, true, now, rehunt_days).2,
        repo.last_hunt_sha matches Some(l) ==> (hunt_scope_of(
            repo,
            head,
            true,
            now,
            rehunt_days,
        ).1 matches HuntScopeView::Range { diff_range, .. } && diff_range == range_text(l@, head)),
{
}

/// A continuing worker's findings are looked for where its first prompt told
/// it to write them.
pub proof fn law_resume_reads_the_first_path(job: i64, origin: i64, plural: Seq<char>)
    ensures
        out_file(job, Some(origin), plural) == out_file(origin, None, plural),
{
}

/// What a hunt looks at, by the columns of its repository. A hunt that is not
/// resumed looks at the whole history again where the last look at it is more
/// than the given number of days past; nothing where the head was hunted; the
/// commits since the last hunt where there was one.
pub proof fn law_hunt_looks_at_what_is_new(
    repo: Repo,
    head: Seq<char>,
    resuming: bool,
    now: i64,
    rehunt_days: i64,
)
    ensures
        ({
            let (v, scope, full) = hunt_scope_of(repo, head, resuming, now, rehunt_days);
            let due = !resuming && (repo.last_full_hunt_at matches Some(t) && now - t > rehunt_days
                * 86_400_000);
            let same = repo.last_hunt_sha matches Some(s) && s@ == head;
            &&& full == due
            &&& due ==> v.contains(EffectView::ClearLastHunt { repo: repo.id }) && (scope matches
                HuntScopeView::Range { diff_range, .. } && diff_range
                == "4b825dc642cb6eb9a060e54bf8d69288fbee4904"@ + ".."@ + head)
            &&& scope is Skip <==> !resuming && !due && same
            &&& scope is Skip ==> v.contains(EffectView::SetLastHunt { repo: repo.id, sha: head })
            &&& !(scope is Skip) ==> forall|i: int| 0 <= i < v.len() ==> !(#[trigger] v[i] is SetLastHunt)
            &&& !due ==> forall|i: int| 0 <= i < v.len() ==> !(#[trigger] v[i] is ClearLastHunt)
            &&& !due && !(scope is Skip) ==> (match repo.last_hunt_sha {
                Some(s) => scope matches HuntScopeView::Range { diff_range, .. } && diff_range == s@ + ".."@
                    + head,
                None => scope is First,
            })
            &&& forall|i: int|
                0 <= i < v.len() ==> !(#[trigger] v[i] is SetLastFullHunt) && !(v[i] is SetLastKind)
        }),
{
    let (v, scope, full) = hunt_scope_of(repo, head, resuming, now, rehunt_days);
    if full {
        assert(v[0] == EffectView::ClearLastHunt { repo: repo.id });
    }
    if scope is Skip {
        assert(v[0] == EffectView::SetLastHunt { repo: repo.id, sha: head });
    }
}

/// A first hunt starts at the commit that git printed, and at the root where
/// it printed none; it always goes up to the head.
pub proof fn law_first_hunt_starts_at_the_printed_commit(
    head: Seq<char>,
    rc: i32,
    printed: Seq<char>,
)
    requires
        printed.len() > 0,
        text::trim(printed, Cut::White) == printed,
    ensures
        by_age(head, printed) is None <==> printed == head,
        by_age(head, printed) matches Some((range, _)) ==> range == printed + ".."@ + head,
        rc == 0 ==> by_count(head, rc, printed).0 == printed + ".."@ + head,
        rc != 0 ==> by_count(head, rc, printed).0 == "4b825dc642cb6eb9a060e54bf8d69288fbee4904"@ + ".."@
            + head,
{
}

/// A hunt moves its mark exactly where the worker finished and left findings
/// that are all valid, and then to the commit that it was pinned to. It then
/// also counts as a look at the whole history where it was one, or where there
/// was none before.
pub proof fn law_finished_hunt_moves_the_mark(run: HuntRun, counts: Option<IngestResult>)
    ensures
        ({
            let v = hunt_concluded(run, counts);
            let good = run.state == JobState::Done && (counts matches Some(c) && c.invalid == 0);
            &&& v.contains(EffectView::SetLastHunt { repo: run.repo, sha: run.pinned@ }) <==> good
            &&& v.contains(EffectView::SetLastFullHunt { repo: run.repo }) <==> good && (run.full_rehunt
                || !run.had_full)
            &&& forall|i: int|
                0 <= i < v.len() ==> (#[trigger] v[i] matches EffectView::SetLastHunt { repo, sha } ==> repo
                    == run.repo && sha == run.pinned@) && (v[i] matches EffectView::SetLastFullHunt { repo }
                    ==> repo == run.repo) && !(v[i] is SetLastKind) && !(v[i] is ClearLastHunt)
            &&& v[0] matches EffectView::Log { kind, job, .. } && kind == "hunt"@ && job == Some(run.job)
        }),
{
    let v = hunt_concluded(run, counts);
    let good = run.state == JobState::Done && (counts matches Some(c) && c.invalid == 0);
    if good {
        assert(v[1] == EffectView::SetLastHunt { repo: run.repo, sha: run.pinned@ });
        if run.full_rehunt || !run.had_full {
            assert(v[2] == EffectView::SetLastFullHunt { repo: run.repo });
        }
    }
}

/// A scan counts as its kind's turn exactly where the worker finished and
/// left findings that are all valid. It is no turn of another kind, and moves
/// no mark of the hunts.
pub proof fn law_finished_scan_had_its_turn(run: ScanRun, counts: Option<IngestResult>)
    ensures
        ({
            let v = scan_concluded(run, counts);
            let good = run.state == JobState::Done && (counts matches Some(c) && c.invalid == 0);
            &&& v.contains(EffectView::SetLastKind { repo: run.repo, kind: run.kind }) <==> good
            &&& forall|i: int|
                0 <= i < v.len() ==> (#[trigger] v[i] matches EffectView::SetLastKind { repo, kind } ==> repo
                    == run.repo && kind == run.kind) && !(v[i] is SetLastHunt) && !(v[i] is SetLastFullHunt)
                    && !(v[i] is ClearLastHunt)
            &&& v[0] matches EffectView::Log { job, .. } && job == Some(run.job)
        }),
{
    let v = scan_concluded(run, counts);
    if run.state == JobState::Done && (counts matches Some(c) && c.invalid == 0) {
        assert(v[1] == EffectView::SetLastKind { repo: run.repo, kind: run.kind });
    }
}

/// A dependency scan without a worker counts as the turn of the dependency
/// updates exactly where all of its updates are valid.
pub proof fn law_free_scan_had_its_turn(repo: i64, name: Seq<char>, c: IngestResult)
    ensures
        ({
            let v = free_scan_concluded(repo, name, c);
            &&& v.contains(EffectView::SetLastKind { repo, kind: RepoJobKind::DepUpdate }) <==> c.invalid == 0
            &&& forall|i: int|
                0 <= i < v.len() ==> (#[trigger] v[i] matches EffectView::SetLastKind { repo: r, kind } ==> r
                    == repo && kind == RepoJobKind::DepUpdate)
        }),
{
    let v = free_scan_concluded(repo, name, c);
    if c.invalid == 0 {
        assert(v[1] == EffectView::SetLastKind { repo, kind: RepoJobKind::DepUpdate });
    }
}

/// A scan files findings of the type that is stored under its own name; a
/// hunt files bugs.
pub proof fn law_scan_files_its_own_type(kind: RepoJobKind)
    ensures
        kind == RepoJobKind::Hunt ==> scan_type(kind) == FindingType::Bug,
        kind != RepoJobKind::Hunt ==> scan_type(kind).text() == kind.text(),
{
}

/// No two kinds of scan write to one file.
pub proof fn law_scans_write_apart(a: RepoJobKind, b: RepoJobKind)
    requires
        a != b,
    ensures
        scan_plural(a) != scan_plural(b),
{
    reveal_strlit("findings");
    reveal_strlit("test_gaps");
    reveal_strlit("dep_updates");
    reveal_strlit("refactorings");
    reveal_strlit("modernizations");
    reveal_strlit("standards");
    assert("findings"@.len() == 8);
    assert("test_gaps"@.len() == 9 && "test_gaps"@[0] == 't');
    assert("dep_updates"@.len() == 11);
    assert("refactorings"@.len() == 12);
    assert("modernizations"@.len() == 14);
    assert("standards"@.len() == 9 && "standards"@[0] == 's');
}

} // verus!
