//! Whether and how a suspended attempt is continued, and what an attempt
//! reserves.

use vstd::prelude::*;
use crate::domain::{JobKind, JobState};
use crate::scheduler::effects;
use crate::scheduler::effects::{Effect, EffectView};
use crate::text;
use crate::types::{Job, Repo};
use crate::util;
use crate::workspace;
use crate::workspace::{Workspace, WorkspaceView};

verus! {

/// The least work that an attempt is funded for.
pub const MIN_PROGRESS_TOKENS: i64 = 25_000;

/// What a cold session loads before it reads anything of its job.
pub const START_CONTEXT_FLOOR_TOKENS: i64 = 15_000;

/// Multiple of the typical cost at which a chain is abandoned, counted
/// without its largest attempt.
pub const GIVE_UP_MULTIPLE: i64 = 3;

/// How many attempts one piece of work gets.
pub const MAX_RESUME_ATTEMPTS: i64 = 4;

/// The whole prompt of a continued attempt.
pub fn resume_prompt() -> (r: String)
    ensures
        r@
            == "Continue the work you were doing in this session. You were interrupted; pick up where you left off."@,
{
    "Continue the work you were doing in this session. You were interrupted; pick up where you left off.".to_owned()
}

/// Everything that a continued attempt needs and a cold one does not.
#[derive(Debug, Clone)]
pub struct ResumePlan {
    pub kind: JobKind,
    pub repo_id: i64,
    pub repo: String,
    pub finding_id: Option<i64>,
    /// The suspended attempt.
    pub predecessor_id: i64,
    /// The first attempt of the chain.
    pub origin_job_id: i64,
    pub session_file: String,
    pub workspace: Workspace,
    /// The commit that the chain's tree was created at.
    pub pinned_sha: String,
    /// What the budget gate reserves.
    pub anticipated: i64,
    pub ctx: i64,
    pub typical: i64,
    pub chain_spent: i64,
}

pub struct ResumePlanView {
    pub kind: JobKind,
    pub repo_id: i64,
    pub repo: Seq<char>,
    pub finding_id: Option<i64>,
    pub predecessor_id: i64,
    pub origin_job_id: i64,
    pub session_file: Seq<char>,
    pub workspace: WorkspaceView,
    pub pinned_sha: Seq<char>,
    pub anticipated: i64,
    pub ctx: i64,
    pub typical: i64,
    pub chain_spent: i64,
}

impl View for ResumePlan {
    type V = ResumePlanView;

    open spec fn view(&self) -> ResumePlanView {
        ResumePlanView {
            kind: self.kind,
            repo_id: self.repo_id,
            repo: self.repo@,
            finding_id: self.finding_id,
            predecessor_id: self.predecessor_id,
            origin_job_id: self.origin_job_id,
            session_file: self.session_file@,
            workspace: self.workspace@,
            pinned_sha: self.pinned_sha@,
            anticipated: self.anticipated,
            ctx: self.ctx,
            typical: self.typical,
            chain_spent: self.chain_spent,
        }
    }
}

// ---------------------------------------------------------------------
// Reservations
// ---------------------------------------------------------------------

/// The least work worth paying `ctx` tokens of loading for: as much as is
/// loaded, and never less than the floor.
pub open spec fn least_work(ctx: int) -> int {
    if ctx > MIN_PROGRESS_TOKENS { ctx } else { MIN_PROGRESS_TOKENS as int }
}

pub fn min_useful(ctx: i64) -> (r: i64)
    ensures
        r == least_work(ctx as int),
{
    if ctx > MIN_PROGRESS_TOKENS {
        ctx
    } else {
        MIN_PROGRESS_TOKENS
    }
}

/// What a continued attempt reserves: its context, and what is left of the
/// typical cost, but never less than the least work.
pub open spec fn reserve_resume(ctx: int, typical: int, spent: int) -> int {
    ctx + if typical - spent > least_work(ctx) { typical - spent } else { least_work(ctx) }
}

pub open spec fn in_i64(n: int) -> bool {
    i64::MIN <= n <= i64::MAX
}

pub fn resume_reservation(ctx_at_suspension: i64, z: i64, chain_spent: i64) -> (r: i64)
    requires
        in_i64(z - chain_spent),
        in_i64(reserve_resume(ctx_at_suspension as int, z as int, chain_spent as int)),
    ensures
        r == reserve_resume(ctx_at_suspension as int, z as int, chain_spent as int),
{
    let left: i64 = z - chain_spent;
    let least: i64 = min_useful(ctx_at_suspension);
    if left > least {
        ctx_at_suspension + left
    } else {
        ctx_at_suspension + least
    }
}

/// What a cold attempt reserves: the history of its kind, but never less than
/// the cheapest start that is worth it.
pub open spec fn reserve_cold(history: int) -> int {
    let least = START_CONTEXT_FLOOR_TOKENS + least_work(START_CONTEXT_FLOOR_TOKENS as int);
    if history > least { history } else { least }
}

pub fn cold_reservation(history: i64) -> (r: i64)
    ensures
        r == reserve_cold(history as int),
{
    let least: i64 = START_CONTEXT_FLOOR_TOKENS + min_useful(START_CONTEXT_FLOOR_TOKENS);
    if history > least {
        history
    } else {
        least
    }
}

/// The position in a history of `n` costs, in ascending order, that estimates
/// the next: the median where the caches are warm, else the ninth decile.
pub open spec fn estimate_index(n: int, warm: bool) -> int {
    util::min_int(if warm { n / 2 } else { n * 9 / 10 }, n - 1)
}

/// The cost that a kind's history estimates; none without a history.
pub open spec fn estimate(history: Seq<i64>, warm: bool) -> i64 {
    if history.len() == 0 { 0 } else { history[estimate_index(history.len() as int, warm)] }
}

pub fn anticipated_tokens(history: &Vec<i64>, warm: bool) -> (r: i64)
    ensures
        r == estimate(history@, warm),
{
    let n: usize = history.len();
    if n == 0 {
        return 0;
    }
    let wide: u128 = n as u128;
    let at: u128 = if warm {
        wide / 2
    } else {
        wide * 9 / 10
    };
    let idx: usize = if at < wide {
        at as usize
    } else {
        n - 1
    };
    history[idx]
}

// ---------------------------------------------------------------------
// Continue, or give up
// ---------------------------------------------------------------------

/// What a chain has cost so far.
#[derive(Debug, Clone, Copy, PartialEq, Eq, Structural)]
pub struct ChainStats {
    pub total: i64,
    pub max_single: i64,
    pub attempts: i64,
}

/// What the disk and the table say of a suspended attempt.
#[derive(Debug, Clone)]
pub struct ResumeFacts {
    pub origin_job_id: i64,
    pub pinned_sha: Option<String>,
    /// Whether the chain's tree is there.
    pub tree_there: bool,
    pub typical: i64,
    pub chain: ChainStats,
    /// The context at the suspension, where the transcript tells.
    pub ctx: Option<i64>,
}

/// What becomes of a suspended attempt.
#[derive(Debug, Clone)]
pub enum ResumeDecision {
    /// It cannot be continued now.
    Skip,
    /// It can never be continued: these are written, where they can be.
    Retire { effects: Vec<Effect> },
    Continue { plan: ResumePlan },
}

pub enum ResumeDecisionView {
    Skip,
    Retire { effects: Seq<EffectView> },
    Continue { plan: ResumePlanView },
}

impl View for ResumeDecision {
    type V = ResumeDecisionView;

    open spec fn view(&self) -> ResumeDecisionView {
        match *self {
            ResumeDecision::Skip => ResumeDecisionView::Skip,
            ResumeDecision::Retire { effects } => ResumeDecisionView::Retire {
                effects: effects::effects(effects@),
            },
            ResumeDecision::Continue { plan } => ResumeDecisionView::Continue { plan: plan@ },
        }
    }
}

/// Whether the chain's place is still there: its tree, its commit, and the
/// transcript in its session directory.
pub open spec fn place_stands(session_file: Seq<char>, ws: WorkspaceView, f: ResumeFacts) -> bool {
    f.pinned_sha is Some && f.tree_there && util::path_under(session_file, ws.session)
}

/// Whether the chain has had its attempts.
pub open spec fn too_many(c: ChainStats) -> bool {
    c.attempts >= MAX_RESUME_ATTEMPTS
}

/// Whether the chain spent too much besides its largest attempt.
pub open spec fn too_costly(c: ChainStats, typical: int) -> bool {
    c.attempts >= 2 && c.total - c.max_single > GIVE_UP_MULTIPLE * typical
}

pub open spec fn gone_note(job: Job, repo: Seq<char>, root: Seq<char>) -> Seq<char> {
    "resume "@ + job.kind.text() + " "@ + repo + ": job "@ + text::int_text(job.id as int)
        + " retired, workspace "@ + root + " is gone"@
}

pub open spec fn give_up_note(job: Job, repo: Seq<char>, c: ChainStats, typical: i64) -> Seq<char> {
    "resume "@ + job.kind.text() + " "@ + repo + ": giving up after "@ + text::int_text(
        c.total as int,
    ) + " tok across the chain ("@ + (if too_many(c) {
        text::int_text(c.attempts as int) + " attempts, the limit"@
    } else {
        text::int_text(c.total - c.max_single) + " tok outside its largest attempt > 3x "@
            + text::int_text(typical as int) + " typical"@
    }) + ")"@
}

pub open spec fn retirement(job: Job, state: JobState, reason: Seq<char>, note: Seq<char>) -> Seq<
    EffectView,
> {
    seq![
        EffectView::RetireSuspended { job: job.id, state, reason: Some(reason), note },
        EffectView::Log { kind: "resume"@, message: note, job: Some(job.id), finding: job.finding_id },
    ]
}

/// The context that the first call loads: what the transcript says, else the
/// typical cost.
pub open spec fn known_ctx(f: ResumeFacts) -> i64 {
    match f.ctx {
        Some(c) => c,
        None => f.typical,
    }
}

/// What becomes of a suspended attempt whose workspace is `ws`.
pub open spec fn decision(job: Job, repo: Repo, ws: WorkspaceView, f: ResumeFacts) -> ResumeDecisionView {
    match job.session_file {
        None => ResumeDecisionView::Skip,
        Some(session) => if !place_stands(session@, ws, f) {
            ResumeDecisionView::Retire {
                effects: retirement(
                    job,
                    JobState::Killed,
                    "workdir-gone"@,
                    gone_note(job, repo.name@, ws.root),
                ),
            }
        } else if too_many(f.chain) || too_costly(f.chain, f.typical as int) {
            ResumeDecisionView::Retire {
                effects: retirement(
                    job,
                    JobState::Failed,
                    "give-up"@,
                    give_up_note(job, repo.name@, f.chain, f.typical),
                ),
            }
        } else {
            ResumeDecisionView::Continue {
                plan: ResumePlanView {
                    kind: job.kind,
                    repo_id: job.repo_id,
                    repo: repo.name@,
                    finding_id: job.finding_id,
                    predecessor_id: job.id,
                    origin_job_id: f.origin_job_id,
                    session_file: session@,
                    workspace: ws,
                    pinned_sha: f.pinned_sha->0@,
                    anticipated: reserve_resume(
                        known_ctx(f) as int,
                        f.typical as int,
                        f.chain.total as int,
                    ) as i64,
                    ctx: known_ctx(f),
                    typical: f.typical,
                    chain_spent: f.chain.total,
                },
            }
        },
    }
}

/// Whether the sums that a decision comes to fit.
pub open spec fn sums_fit(session_file: Option<String>, ws: WorkspaceView, f: ResumeFacts) -> bool {
    session_file matches Some(s) && place_stands(s@, ws, f) ==> {
        &&& in_i64(f.chain.total - f.chain.max_single)
        &&& too_many(f.chain) || too_costly(f.chain, f.typical as int) || {
            &&& in_i64(f.typical - f.chain.total)
            &&& in_i64(reserve_resume(known_ctx(f) as int, f.typical as int, f.chain.total as int))
        }
    }
}

fn in_range(n: i128) -> (r: bool)
    ensures
        r == in_i64(n as int),
{
    i64::MIN as i128 <= n && n <= i64::MAX as i128
}

/// Whether the sums that `resume_plan` comes to fit.
pub fn plan_fits(job: &Job, repo: &Repo, work_root: &str, f: &ResumeFacts) -> (r: bool)
    ensures
        r == sums_fit(
            job.session_file,
            workspace::chain_workspace(work_root@, repo.path@, f.origin_job_id),
            *f,
        ),
{
    let ws = Workspace::for_chain(work_root, &repo.path, f.origin_job_id);
    let stands: bool = match &job.session_file {
        Some(s) => f.pinned_sha.is_some() && f.tree_there && util::path_starts_with(s, &ws.session),
        None => false,
    };
    if !stands {
        return true;
    }
    let c = f.chain;
    let typical: i128 = f.typical as i128;
    let excess: i128 = c.total as i128 - c.max_single as i128;
    if !in_range(excess) {
        return false;
    }
    if c.attempts >= MAX_RESUME_ATTEMPTS || (c.attempts >= 2 && excess > GIVE_UP_MULTIPLE as i128
        * typical) {
        return true;
    }
    let ctx: i64 = match f.ctx {
        Some(n) => n,
        None => f.typical,
    };
    let left: i128 = typical - c.total as i128;
    let least: i128 = min_useful(ctx) as i128;
    let work: i128 = if left > least {
        left
    } else {
        least
    };
    in_range(left) && in_range(ctx as i128 + work)
}

fn retire(job: &Job, state: JobState, reason: &str, note: String) -> (r: ResumeDecision)
    ensures
        r@ == (ResumeDecisionView::Retire { effects: retirement(*job, state, reason@, note@) }),
{
    let mut out = effects::no_effects();
    effects::add_effect(
        &mut out,
        Effect::RetireSuspended {
            job: job.id,
            state,
            reason: Some(reason.to_owned()),
            note: note.clone(),
        },
    );
    effects::add_effect(&mut out, effects::log("resume", note, Some(job.id), job.finding_id));
    assert(effects::effects(out@) =~= retirement(*job, state, reason@, note@));
    ResumeDecision::Retire { effects: out }
}

/// How to continue one suspended job, or what is written where that can never
/// be. The workspace is that of the chain's first attempt.
pub fn resume_plan(job: &Job, repo: &Repo, work_root: &str, f: &ResumeFacts) -> (r: ResumeDecision)
    requires
        sums_fit(
            job.session_file,
            workspace::chain_workspace(work_root@, repo.path@, f.origin_job_id),
            *f,
        ),
    ensures
        r@ == decision(
            *job,
            *repo,
            workspace::chain_workspace(work_root@, repo.path@, f.origin_job_id),
            *f,
        ),
{
    let ws = Workspace::for_chain(work_root, &repo.path, f.origin_job_id);
    let session: &String = match &job.session_file {
        Some(s) => s,
        None => {
            return ResumeDecision::Skip;
        },
    };
    let kind = job.kind.as_str();
    let sha: Option<String> = match &f.pinned_sha {
        Some(sha) => if f.tree_there && util::path_starts_with(session, &ws.session) {
            Some(sha.clone())
        } else {
            None
        },
        None => None,
    };
    let sha: String = match sha {
        Some(sha) => sha,
        None => {
            let note = "resume ".to_owned().concat(kind).concat(" ").concat(&repo.name).concat(
                ": job ",
            ).concat(text::int_to_text(job.id).as_str()).concat(" retired, workspace ").concat(
                &ws.root,
            ).concat(" is gone");
            return retire(job, JobState::Killed, "workdir-gone", note);
        },
    };
    let c = f.chain;
    let excess: i64 = c.total - c.max_single;
    let many: bool = c.attempts >= MAX_RESUME_ATTEMPTS;
    let costly: bool = c.attempts >= 2 && excess as i128 > GIVE_UP_MULTIPLE as i128
        * f.typical as i128;
    if many || costly {
        let why: String = if many {
            text::int_to_text(c.attempts).concat(" attempts, the limit")
        } else {
            text::int_to_text(excess).concat(" tok outside its largest attempt > 3x ").concat(
                text::int_to_text(f.typical).as_str(),
            ).concat(" typical")
        };
        let note = "resume ".to_owned().concat(kind).concat(" ").concat(&repo.name).concat(
            ": giving up after ",
        ).concat(text::int_to_text(c.total).as_str()).concat(" tok across the chain (").concat(
            &why,
        ).concat(")");
        return retire(job, JobState::Failed, "give-up", note);
    }
    let ctx: i64 = match f.ctx {
        Some(n) => n,
        None => f.typical,
    };
    let anticipated: i64 = resume_reservation(ctx, f.typical, c.total);
    let plan = ResumePlan {
        kind: job.kind,
        repo_id: job.repo_id,
        repo: repo.name.clone(),
        finding_id: job.finding_id,
        predecessor_id: job.id,
        origin_job_id: f.origin_job_id,
        session_file: session.clone(),
        workspace: ws,
        pinned_sha: sha,
        anticipated,
        ctx,
        typical: f.typical,
        chain_spent: c.total,
    };
    ResumeDecision::Continue { plan }
}

// ---------------------------------------------------------------------
// Laws
// ---------------------------------------------------------------------

/// At least half of what a continued attempt reserves is work.
pub proof fn law_half_of_a_resume_is_work(ctx: i64, typical: i64, spent: i64)
    ensures
        2 * (reserve_resume(ctx as int, typical as int, spent as int) - ctx) >= reserve_resume(
            ctx as int,
            typical as int,
            spent as int,
        ),
        reserve_resume(ctx as int, typical as int, spent as int) >= ctx + MIN_PROGRESS_TOKENS,
{
}

/// The least work is the least that is at least half of the attempt and no
/// less than the floor.
pub proof fn law_least_work_is_least(ctx: i64, work: int)
    requires
        work >= MIN_PROGRESS_TOKENS,
        2 * work >= ctx + work,
    ensures
        work >= least_work(ctx as int),
        2 * least_work(ctx as int) >= ctx + least_work(ctx as int),
{
}

/// A cold attempt reserves at least the floor, and at least its history.
pub proof fn law_cold_floor(history: i64)
    ensures
        reserve_cold(history as int) >= 40_000,
        reserve_cold(history as int) >= history,
{
}

/// A first suspension is never given up: with its place standing, a chain of
/// one attempt is continued whatever it cost.
pub proof fn law_first_suspension_is_continued(job: Job, repo: Repo, ws: WorkspaceView, f: ResumeFacts)
    requires
        job.session_file matches Some(s) && place_stands(s@, ws, f),
        f.chain.attempts <= 1,
    ensures
        decision(job, repo, ws, f) is Continue,
{
}

/// A chain gets a bounded number of attempts.
pub proof fn law_attempts_are_bounded(job: Job, repo: Repo, ws: WorkspaceView, f: ResumeFacts)
    requires
        f.chain.attempts >= MAX_RESUME_ATTEMPTS,
    ensures
        decision(job, repo, ws, f) !is Continue,
{
}

/// A job that is passed over for good leaves the suspended ones: whatever is
/// not continued although it has a transcript is retired.
pub proof fn law_hopeless_jobs_are_retired(job: Job, repo: Repo, ws: WorkspaceView, f: ResumeFacts)
    requires
        job.session_file is Some,
        decision(job, repo, ws, f) !is Continue,
    ensures
        decision(job, repo, ws, f) is Retire,
        decision(job, repo, ws, f)->effects[0] is RetireSuspended,
        decision(job, repo, ws, f)->effects[0]->RetireSuspended_job == job.id,
{
}

/// A continued attempt runs in a workspace of its chain, on the commit that
/// the chain was pinned to, and reads a transcript of that workspace.
pub proof fn law_resume_stays_in_its_chain(job: Job, repo: Repo, ws: WorkspaceView, f: ResumeFacts)
    requires
        decision(job, repo, ws, f) is Continue,
    ensures
        decision(job, repo, ws, f)->plan.workspace == ws,
        f.pinned_sha matches Some(s) && decision(job, repo, ws, f)->plan.pinned_sha == s@,
        util::path_under(decision(job, repo, ws, f)->plan.session_file, ws.session),
{
}

/// The reservation of a continued attempt, in tokens: its context, and beside
/// it the most of what is left of the typical cost, the context once more, and
/// twenty-five thousand.
pub proof fn law_resume_reserves(ctx: int, typical: int, spent: int)
    ensures
        ({
            let work = reserve_resume(ctx, typical, spent) - ctx;
            &&& work >= typical - spent && work >= ctx && work >= 25_000
            &&& work == typical - spent || work == ctx || work == 25_000
        }),
{
}

/// The reservation of a cold attempt, in tokens: its history, and forty
/// thousand where that is less.
pub proof fn law_cold_reserves(history: int)
    ensures
        reserve_cold(history) >= history && reserve_cold(history) >= 40_000,
        reserve_cold(history) == history || reserve_cold(history) == 40_000,
{
}

/// The estimate of a history is one of its costs. Of costs in ascending order
/// half are below it at most where the caches are warm, and one in ten above
/// it at most where they are not; so the cold estimate is never the lower.
pub proof fn law_estimate_is_a_quantile(history: Seq<i64>)
    requires
        history.len() > 0,
        forall|i: int, j: int| 0 <= i <= j < history.len() ==> history[i] <= history[j],
    ensures
        ({
            let n = history.len() as int;
            let m = n / 2;
            let d = n * 9 / 10;
            &&& 0 <= m < n && estimate(history, true) == history[m]
            &&& 0 <= d < n && estimate(history, false) == history[d]
            &&& n > 1 ==> estimate(history, true) <= estimate(history, false)
        }),
{
}

/// A chain without an attempt on record is estimated at nothing.
pub proof fn law_no_history_estimates_nothing(warm: bool)
    ensures
        estimate(Seq::empty(), warm) == 0,
{
}

/// What becomes of a suspended attempt, by its own numbers. Without a
/// transcript it is left alone. It is killed where its tree, its commit or its
/// transcript's place is gone; it is failed with the fourth attempt, or where
/// from the second on all attempts but the largest cost more than three times
/// the typical cost; else it is continued.
pub proof fn law_suspended_attempt_is_continued_while_it_pays(
    job: Job,
    repo: Repo,
    ws: WorkspaceView,
    f: ResumeFacts,
)
    ensures
        job.session_file is None ==> decision(job, repo, ws, f) is Skip,
        job.session_file matches Some(s) ==> {
            let there = f.pinned_sha is Some && f.tree_there && util::path_under(s@, ws.session);
            let spent = f.chain.attempts >= 4 || (f.chain.attempts >= 2 && f.chain.total - f.chain.max_single > 3
                * f.typical);
            &&& decision(job, repo, ws, f) is Continue <==> there && !spent
            &&& !there ==> (decision(job, repo, ws, f) matches ResumeDecisionView::Retire { effects: v }
                && v[0] matches EffectView::RetireSuspended { job: j, state, reason, .. } && j == job.id && state
                == JobState::Killed && reason == Some("workdir-gone"@))
            &&& there && spent ==> (decision(job, repo, ws, f) matches ResumeDecisionView::Retire { effects: v }
                && v[0] matches EffectView::RetireSuspended { job: j, state, reason, .. } && j == job.id && state
                == JobState::Failed && reason == Some("give-up"@))
        },
{
}

/// A continued attempt carries on its predecessor's work: the same kind, the
/// same finding and repository, the same transcript, and what the chain spent.
pub proof fn law_continued_attempt_is_the_same_work(job: Job, repo: Repo, ws: WorkspaceView, f: ResumeFacts)
    ensures
        decision(job, repo, ws, f) matches ResumeDecisionView::Continue { plan } ==> {
            &&& plan.kind == job.kind
            &&& plan.repo_id == job.repo_id
            &&& plan.repo == repo.name@
            &&& plan.finding_id == job.finding_id
            &&& plan.predecessor_id == job.id
            &&& plan.origin_job_id == f.origin_job_id
            &&& job.session_file matches Some(s) && plan.session_file == s@
            &&& plan.chain_spent == f.chain.total
            &&& plan.typical == f.typical
            &&& plan.ctx == (match f.ctx {
                Some(c) => c,
                None => f.typical,
            })
            &&& in_i64(reserve_resume(plan.ctx as int, plan.typical as int, plan.chain_spent as int))
                ==> plan.anticipated == reserve_resume(
                plan.ctx as int,
                plan.typical as int,
                plan.chain_spent as int,
            )
        },
{
}

} // verus!
