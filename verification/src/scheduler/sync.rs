//! Synchronisation with the open pull requests.

use vstd::prelude::*;
use crate::domain::FindingStatus;
use crate::forge;
use crate::forge::{CheckConclusion, Forge, GhCheckRun, GhComment, GhReview, Mergeable, PrState as ForgeState, PrView, ReviewDecision};
use crate::scheduler::effects;
use crate::scheduler::effects::{Effect, EffectView, SyncResult};
use crate::scheduler::fix;
use crate::store::{SyncPrData, SyncPrDataView};
use crate::text;
use crate::time;
use crate::types::{Finding, PrState, Repo};

verus! {

// ---------------------------------------------------------------------
// Activity and checks
// ---------------------------------------------------------------------

/// The latest of the stamps, where there are any.
pub open spec fn latest(stamps: Seq<int>) -> Option<int>
    decreases stamps.len(),
{
    if stamps.len() == 0 {
        None
    } else {
        match latest(stamps.drop_last()) {
            Some(m) => Some(if m > stamps.last() { m } else { stamps.last() }),
            None => Some(stamps.last()),
        }
    }
}

pub open spec fn comment_stamps(v: Seq<GhComment>) -> Seq<int> {
    v.map_values(|c: GhComment| time::iso_value(c.created_at@))
}

pub open spec fn review_stamps(v: Seq<GhReview>) -> Seq<int> {
    v.map_values(|c: GhReview| time::iso_value(c.submitted_at@))
}

/// The latest comment or review; zero where there is none.
pub open spec fn activity_of(pr: PrView) -> int {
    match latest(comment_stamps(pr.comments@) + review_stamps(pr.reviews@)) {
        Some(m) => m,
        None => 0,
    }
}

/// Time of the latest comment or review, in milliseconds since the epoch.
pub fn latest_activity_ms(pr: &PrView) -> (r: i64)
    ensures
        r == activity_of(*pr),
{
    let ghost cs = comment_stamps(pr.comments@);
    let ghost all = cs + review_stamps(pr.reviews@);
    let mut best: Option<i64> = None;
    let mut i: usize = 0;
    assert(all.take(0) =~= Seq::<int>::empty());
    while i < pr.comments.len()
        invariant
            i <= pr.comments@.len(),
            cs == comment_stamps(pr.comments@),
            all == cs + review_stamps(pr.reviews@),
            match best {
                Some(b) => latest(all.take(i as int)) == Some(b as int),
                None => latest(all.take(i as int)) is None,
            },
        decreases pr.comments@.len() - i,
    {
        let t: i64 = time::iso_ms(&pr.comments[i].created_at);
        assert(all.take(i + 1).drop_last() =~= all.take(i as int));
        assert(all.take(i + 1).last() == t);
        best = match best {
            Some(b) => Some(if b > t { b } else { t }),
            None => Some(t),
        };
        i = i + 1;
    }
    let n: usize = pr.comments.len();
    let mut j: usize = 0;
    while j < pr.reviews.len()
        invariant
            j <= pr.reviews@.len(),
            n == pr.comments@.len(),
            cs == comment_stamps(pr.comments@),
            all == cs + review_stamps(pr.reviews@),
            match best {
                Some(b) => latest(all.take(n + j)) == Some(b as int),
                None => latest(all.take(n + j)) is None,
            },
        decreases pr.reviews@.len() - j,
    {
        let t: i64 = time::iso_ms(&pr.reviews[j].submitted_at);
        assert(all.take(n + j + 1).drop_last() =~= all.take(n + j));
        assert(all.take(n + j + 1).last() == t);
        best = match best {
            Some(b) => Some(if b > t { b } else { t }),
            None => Some(t),
        };
        j = j + 1;
    }
    assert(all.take(n + pr.reviews@.len()) =~= all);
    match best {
        Some(b) => b,
        None => 0,
    }
}

/// Name of a check.
pub open spec fn check_name(c: GhCheckRun) -> Seq<char> {
    forge::first_of(c.name, c.context, "?"@)
}

/// How a check ended.
pub open spec fn check_end(c: GhCheckRun) -> CheckConclusion {
    CheckConclusion::of_text(forge::first_of(c.conclusion, c.state, ""@))
}

/// How many checks fail.
pub open spec fn failing_count(v: Seq<GhCheckRun>) -> int
    decreases v.len(),
{
    if v.len() == 0 {
        0
    } else {
        failing_count(v.drop_last()) + if check_end(v.last()).failing() { 1int } else { 0int }
    }
}

/// How many checks pass.
pub open spec fn passing_count(v: Seq<GhCheckRun>) -> int
    decreases v.len(),
{
    if v.len() == 0 {
        0
    } else {
        passing_count(v.drop_last()) + if check_end(v.last()).passing() { 1int } else { 0int }
    }
}

/// Whether a failing check has this name.
pub open spec fn fails_under(v: Seq<GhCheckRun>, name: Seq<char>) -> bool {
    exists|i: int|
        0 <= i < v.len() && check_end(#[trigger] v[i]).failing() && check_name(v[i]) == name
}

/// The counts of passing, failing and pending checks, where there are any.
pub open spec fn checks_text(v: Seq<GhCheckRun>) -> Option<Seq<char>> {
    if v.len() == 0 {
        None
    } else {
        let pass = passing_count(v);
        let fail = failing_count(v);
        let pending = v.len() - fail - pass;
        Some(
            text::int_text(pass) + " pass"@ + (if fail > 0 {
                " / "@ + text::int_text(fail) + " fail"@
            } else {
                Seq::empty()
            }) + (if pending > 0 {
                " / "@ + text::int_text(pending) + " pending"@
            } else {
                Seq::empty()
            }),
        )
    }
}

/// The names of the failing checks: ascending, each once.
pub open spec fn failing_names(v: Seq<GhCheckRun>, names: Seq<Seq<char>>) -> bool {
    &&& text::ascending(names)
    &&& forall|n: Seq<char>| #[trigger] names.contains(n) <==> fails_under(v, n)
}

/// Summary of the checks, whether any fails, and the names of those that do.
pub fn checks_summary(rollup: &Vec<GhCheckRun>) -> (r: (Option<String>, bool, Vec<String>))
    requires
        rollup@.len() <= i64::MAX,
    ensures
        text::opt_text(r.0) == checks_text(rollup@),
        r.1 == (failing_count(rollup@) > 0),
        r.1 == (r.2@.len() > 0),
        failing_names(rollup@, text::texts(r.2@)),
{
    let mut names = text::no_texts();
    let mut fail: i64 = 0;
    let mut pass: i64 = 0;
    let mut i: usize = 0;
    while i < rollup.len()
        invariant
            i <= rollup@.len() <= i64::MAX,
            fail == failing_count(rollup@.take(i as int)),
            pass == passing_count(rollup@.take(i as int)),
            0 <= fail,
            0 <= pass,
            fail + pass <= i,
            fail > 0 <==> names@.len() > 0,
            failing_names(rollup@.take(i as int), text::texts(names@)),
        decreases rollup@.len() - i,
    {
        let c = &rollup[i];
        let name = forge::pick_first(&c.name, &c.context, "?");
        let raw = forge::pick_first(&c.conclusion, &c.state, "");
        let end = CheckConclusion::parse(&raw);
        let ghost before = rollup@.take(i as int);
        let ghost now = rollup@.take(i + 1);
        assert(now.drop_last() =~= before);
        assert(now.last() == *c);
        let ghost had = text::texts(names@);
        if end.is_failing() {
            text::insert_text(&mut names, &name);
            proof {
                assert(text::texts(names@).contains(name@));
                assert forall|n: Seq<char>| fails_under(now, n) <==> fails_under(before, n) || n
                    == name@ by {
                    if fails_under(before, n) {
                        let k = choose|k: int|
                            0 <= k < before.len() && check_end(#[trigger] before[k]).failing()
                                && check_name(before[k]) == n;
                        assert(now[k] == before[k]);
                    }
                    if n == name@ {
                        assert(now[i as int] == *c);
                    }
                    if fails_under(now, n) {
                        let k = choose|k: int|
                            0 <= k < now.len() && check_end(#[trigger] now[k]).failing()
                                && check_name(now[k]) == n;
                        if k < i {
                            assert(before[k] == now[k]);
                        }
                    }
                }
            }
            fail = fail + 1;
        } else {
            proof {
                assert forall|n: Seq<char>| fails_under(now, n) <==> fails_under(before, n) by {
                    if fails_under(before, n) {
                        let k = choose|k: int|
                            0 <= k < before.len() && check_end(#[trigger] before[k]).failing()
                                && check_name(before[k]) == n;
                        assert(now[k] == before[k]);
                    }
                    if fails_under(now, n) {
                        let k = choose|k: int|
                            0 <= k < now.len() && check_end(#[trigger] now[k]).failing()
                                && check_name(now[k]) == n;
                        assert(before[k] == now[k]);
                    }
                }
            }
            if end.is_passing() {
                pass = pass + 1;
            }
        }
        i = i + 1;
    }
    assert(rollup@.take(rollup@.len() as int) =~= rollup@);
    if rollup.len() == 0 {
        return (None, false, names);
    }
    let pending: i64 = rollup.len() as i64 - fail - pass;
    let mut out = text::int_to_text(pass).concat(" pass");
    let ghost first = out@;
    if fail > 0 {
        let part = " / ".to_owned().concat(text::int_to_text(fail).as_str()).concat(" fail");
        out.append(&part);
    }
    if pending > 0 {
        let part = " / ".to_owned().concat(text::int_to_text(pending).as_str()).concat(" pending");
        out.append(&part);
    }
    assert(out@ =~= checks_text(rollup@)->0);
    (Some(out), fail > 0, names)
}

/// The parts of a fingerprint, joined by bars; nothing where there are none.
pub open spec fn joined(parts: Seq<Seq<char>>, sep: Seq<char>) -> Option<Seq<char>> {
    if parts.len() == 0 { None } else { Some(text::join(parts, sep)) }
}

pub open spec fn when(b: bool, s: Seq<char>) -> Seq<Seq<char>> {
    if b { seq![s] } else { Seq::empty() }
}

/// What is wrong with a pull request apart from new remarks.
pub open spec fn fingerprint_of(pr: PrView, names: Seq<Seq<char>>) -> Option<Seq<char>> {
    joined(
        when(
            pr.review_decision == ReviewDecision::ChangesRequested,
            "review:CHANGES_REQUESTED"@,
        ) + when(pr.mergeable == Mergeable::Conflicting, "mergeable:CONFLICTING"@) + when(
            names.len() > 0,
            "checks:"@ + text::join(names, ","@),
        ),
        "|"@,
    )
}

/// Fingerprint of the static attention reasons.
pub fn attention_fingerprint(pr: &PrView, names: &Vec<String>) -> (r: Option<String>)
    ensures
        text::opt_text(r) == fingerprint_of(*pr, text::texts(names@)),
{
    let mut parts = text::no_texts();
    if pr.review_decision == ReviewDecision::ChangesRequested {
        text::add_text(&mut parts, "review:CHANGES_REQUESTED");
    }
    if pr.mergeable == Mergeable::Conflicting {
        text::add_text(&mut parts, "mergeable:CONFLICTING");
    }
    if names.len() > 0 {
        let part = "checks:".to_owned().concat(text::join_texts(names, ",").as_str());
        text::add_text(&mut parts, &part);
    }
    assert(text::texts(parts@) =~= when(
        pr.review_decision == ReviewDecision::ChangesRequested,
        "review:CHANGES_REQUESTED"@,
    ) + when(pr.mergeable == Mergeable::Conflicting, "mergeable:CONFLICTING"@) + when(
        text::texts(names@).len() > 0,
        "checks:"@ + text::join(text::texts(names@), ","@),
    ));
    if parts.len() == 0 {
        None
    } else {
        Some(text::join_texts(&parts, "|"))
    }
}

// ---------------------------------------------------------------------
// One open pull request
// ---------------------------------------------------------------------

/// How far remarks are dealt with. On the first look everything is: the
/// daemon's own chatter is not flagged.
pub open spec fn engaged_up_to(pr: PrView, prev: Option<PrState>) -> int {
    let known = match prev {
        Some(p) => p.last_engaged_activity_at,
        None => None,
    };
    match known {
        Some(e) => e as int,
        None => {
            let updated = time::iso_value(pr.updated_at@);
            if updated > activity_of(pr) { updated } else { activity_of(pr) }
        },
    }
}

pub open spec fn addressed_fp(prev: Option<PrState>) -> Option<Seq<char>> {
    match prev {
        Some(p) => text::opt_text(p.addressed_fingerprint),
        None => None,
    }
}

pub open spec fn addressed_sha(prev: Option<PrState>) -> Option<Seq<char>> {
    match prev {
        Some(p) => text::opt_text(p.addressed_head_sha),
        None => None,
    }
}

/// Whether an engage already declined exactly this: the same fingerprint at
/// the same head.
pub open spec fn is_suppressed(fp: Option<Seq<char>>, head_sha: Seq<char>, prev: Option<PrState>) -> bool {
    fp is Some && fp == addressed_fp(prev) && addressed_sha(prev) == Some(head_sha)
}

/// Why the pull request needs attention.
pub open spec fn attention_of(pr: PrView, prev: Option<PrState>, fp: Option<Seq<char>>) -> Option<
    Seq<char>,
> {
    let shown = !is_suppressed(fp, pr.head_sha@, prev);
    joined(
        when(activity_of(pr) > engaged_up_to(pr, prev), "new_comments"@) + when(
            shown && pr.review_decision == ReviewDecision::ChangesRequested,
            "changes_requested"@,
        ) + when(shown && pr.mergeable == Mergeable::Conflicting, "conflict"@) + when(
            shown && failing_count(pr.status_check_rollup@) > 0,
            "checks_failing"@,
        ),
        ","@,
    )
}

pub open spec fn prev_attention(prev: Option<PrState>) -> Option<Seq<char>> {
    match prev {
        Some(p) => text::opt_text(p.needs_attention),
        None => None,
    }
}

/// What is stored of an open pull request. The time since when it needs
/// attention changes only with the reason.
pub open spec fn open_data(
    pr: PrView,
    prev: Option<PrState>,
    number: i64,
    fp: Option<Seq<char>>,
    now: i64,
) -> SyncPrDataView {
    let attention = attention_of(pr, prev, fp);
    SyncPrDataView {
        pr_number: number,
        state: pr.state.text(),
        mergeable: pr.mergeable.text(),
        checks: checks_text(pr.status_check_rollup@),
        head_ref: pr.head_ref@,
        head_sha: pr.head_sha@,
        last_activity_at: activity_of(pr) as i64,
        last_engaged_activity_at: engaged_up_to(pr, prev) as i64,
        needs_attention: attention,
        attention_fingerprint: fp,
        synced_at: now,
        attention_since: if attention == prev_attention(prev) {
            None
        } else if attention is Some {
            Some(Some(now))
        } else {
            Some(None)
        },
        clear_addressed: addressed_fp(prev) is Some && (fp != addressed_fp(prev) || addressed_sha(
            prev,
        ) != Some(pr.head_sha@)),
    }
}

/// The effects of looking at an open pull request.
pub open spec fn open_effects(
    finding: i64,
    pr: PrView,
    prev: Option<PrState>,
    number: i64,
    fp: Option<Seq<char>>,
    now: i64,
) -> Seq<EffectView> {
    let attention = attention_of(pr, prev, fp);
    let stored = seq![
        EffectView::SyncPrOpen { finding, data: open_data(pr, prev, number, fp, now) },
    ];
    if attention is Some && attention != prev_attention(prev) {
        stored + seq![
            effects::log_view(
                "engage"@,
                fix::numbered(finding) + " PR #"@ + text::int_text(number as int)
                    + " needs attention: "@ + attention->0,
                None,
                Some(finding),
            ),
        ]
    } else {
        stored
    }
}

/// What the pass counts of one finding.
#[derive(Debug, Clone, Copy, PartialEq, Eq, Structural)]
pub enum SyncTally {
    /// The finding went back to the queue.
    Requeued,
    Error,
    Merged,
    Closed,
    Synced { attention: bool },
}

/// The reasons for attention, joined by commas.
fn reasons_for(pr: &PrView, remarks: bool, shown: bool, failing: bool) -> (r: Option<String>)
    ensures
        text::opt_text(r) == joined(
            when(remarks, "new_comments"@) + when(
                shown && pr.review_decision == ReviewDecision::ChangesRequested,
                "changes_requested"@,
            ) + when(shown && pr.mergeable == Mergeable::Conflicting, "conflict"@) + when(
                shown && failing,
                "checks_failing"@,
            ),
            ","@,
        ),
{
    let mut reasons = text::no_texts();
    if remarks {
        text::add_text(&mut reasons, "new_comments");
    }
    if shown {
        if pr.review_decision == ReviewDecision::ChangesRequested {
            text::add_text(&mut reasons, "changes_requested");
        }
        if pr.mergeable == Mergeable::Conflicting {
            text::add_text(&mut reasons, "conflict");
        }
        if failing {
            text::add_text(&mut reasons, "checks_failing");
        }
    }
    assert(text::texts(reasons@) =~= when(remarks, "new_comments"@) + when(
        shown && pr.review_decision == ReviewDecision::ChangesRequested,
        "changes_requested"@,
    ) + when(shown && pr.mergeable == Mergeable::Conflicting, "conflict"@) + when(
        shown && failing,
        "checks_failing"@,
    ));
    if reasons.len() == 0 {
        None
    } else {
        Some(text::join_texts(&reasons, ","))
    }
}

/// Look at an open pull request. The fingerprint is that of the ascending
/// list of failing checks.
fn sync_open(finding: i64, pr: &PrView, prev: &Option<PrState>, number: i64, now: i64) -> (r: (
    Vec<Effect>,
    SyncTally,
))
    requires
        pr.status_check_rollup@.len() <= i64::MAX,
    ensures
        exists|names: Seq<Seq<char>>| #[trigger]
            failing_names(pr.status_check_rollup@, names) && effects::effects(r.0@) == open_effects(
                finding,
                *pr,
                *prev,
                number,
                fingerprint_of(*pr, names),
                now,
            ) && r.1 == (SyncTally::Synced {
                attention: attention_of(*pr, *prev, fingerprint_of(*pr, names)) is Some,
            }),
{
    let last_activity: i64 = latest_activity_ms(pr);
    let (checks, failing, names) = checks_summary(&pr.status_check_rollup);
    let known: Option<i64> = match prev {
        Some(p) => p.last_engaged_activity_at,
        None => None,
    };
    let engaged: i64 = match known {
        Some(e) => e,
        None => {
            let updated: i64 = time::iso_ms(&pr.updated_at);
            if updated > last_activity {
                updated
            } else {
                last_activity
            }
        },
    };
    let fp = attention_fingerprint(pr, &names);
    let (afp, asha, pat): (Option<String>, Option<String>, Option<String>) = match prev {
        Some(p) => (
            text::copy_opt(&p.addressed_fingerprint),
            text::copy_opt(&p.addressed_head_sha),
            text::copy_opt(&p.needs_attention),
        ),
        None => (None, None, None),
    };
    let same_fp: bool = text::same_opt(&fp, &afp);
    let same_sha: bool = text::opt_is(&asha, &pr.head_sha);
    let ghost gfp = text::opt_text(fp);
    let suppressed: bool = fp.is_some() && same_fp && same_sha;
    assert(suppressed == is_suppressed(gfp, pr.head_sha@, *prev));
    let attention = reasons_for(pr, last_activity > engaged, !suppressed, failing);
    assert(text::opt_text(attention) == attention_of(*pr, *prev, gfp));
    let unchanged: bool = text::same_opt(&attention, &pat);
    let attention_since: Option<Option<i64>> = if unchanged {
        None
    } else if attention.is_some() {
        Some(Some(now))
    } else {
        Some(None)
    };
    let clear_addressed: bool = afp.is_some() && (!same_fp || !same_sha);
    let needs: bool = attention.is_some();
    let data = SyncPrData {
        pr_number: number,
        state: pr.state.as_str().to_owned(),
        mergeable: pr.mergeable.as_str().to_owned(),
        checks,
        head_ref: pr.head_ref.clone(),
        head_sha: pr.head_sha.clone(),
        last_activity_at: last_activity,
        last_engaged_activity_at: engaged,
        needs_attention: text::copy_opt(&attention),
        attention_fingerprint: fp,
        synced_at: now,
        attention_since,
        clear_addressed,
    };
    assert(data@ == open_data(*pr, *prev, number, gfp, now));
    let mut out = effects::no_effects();
    effects::add_effect(&mut out, Effect::SyncPrOpen { finding, data });
    if !unchanged {
        if let Some(a) = attention {
            let msg = fix::numbered_text(finding).concat(" PR #").concat(
                text::int_to_text(number).as_str(),
            ).concat(" needs attention: ").concat(&a);
            effects::add_effect(&mut out, effects::log("engage", msg, None, Some(finding)));
        }
    }
    proof {
        assert(effects::effects(out@) =~= open_effects(finding, *pr, *prev, number, gfp, now));
        assert(failing_names(pr.status_check_rollup@, text::texts(names@)));
    }
    (out, SyncTally::Synced { attention: needs })
}

// ---------------------------------------------------------------------
// One finding
// ---------------------------------------------------------------------

/// What is done about a finding with an open pull request.
#[derive(Debug, Clone)]
pub enum SyncPlan {
    /// Settled without asking the forge.
    Settled { effects: Vec<Effect>, tally: SyncTally },
    /// The forge is asked about this pull request.
    View { number: i64 },
}

pub enum SyncPlanView {
    Settled { effects: Seq<EffectView>, tally: SyncTally },
    View { number: int },
}

impl View for SyncPlan {
    type V = SyncPlanView;

    open spec fn view(&self) -> SyncPlanView {
        match *self {
            SyncPlan::Settled { effects, tally } => SyncPlanView::Settled {
                effects: effects::effects(effects@),
                tally,
            },
            SyncPlan::View { number } => SyncPlanView::View { number: number as int },
        }
    }
}

pub open spec fn sync_error(finding: i64, message: Seq<char>) -> SyncPlanView {
    SyncPlanView::Settled {
        effects: seq![
            effects::log_view(
                "error"@,
                "sync #"@ + text::int_text(finding as int) + message,
                None,
                Some(finding),
            ),
        ],
        tally: SyncTally::Error,
    }
}

/// The plan for a finding: without an address it goes back to the queue.
pub open spec fn sync_plan_of(f: Finding, repo: Option<Repo>) -> SyncPlanView {
    let url = match f.pr_url {
        Some(u) => u@,
        None => Seq::empty(),
    };
    if url.len() == 0 {
        SyncPlanView::Settled {
            effects: seq![
                EffectView::SetStatus { finding: f.id, status: FindingStatus::Queued },
                effects::log_view(
                    "fix"@,
                    fix::numbered(f.id)
                        + " requeued: pr_open with no pr_url (prior fix failed before PR creation)"@,
                    None,
                    Some(f.id),
                ),
            ],
            tally: SyncTally::Requeued,
        }
    } else {
        match repo {
            None => sync_error(
                f.id,
                ": repo "@ + text::int_text(f.repo_id as int) + " missing"@,
            ),
            Some(r) => match forge::pr_url_parts(r.forge, url) {
                None => sync_error(f.id, ": unparseable pr_url "@ + text::debug_text(url)),
                Some((_, n)) => SyncPlanView::View { number: n },
            },
        }
    }
}

fn error_plan(finding: i64, message: &str) -> (r: SyncPlan)
    ensures
        r@ == sync_error(finding, message@),
{
    let msg = "sync #".to_owned().concat(text::int_to_text(finding).as_str()).concat(message);
    let effects = effects::one_effect(effects::log("error", msg, None, Some(finding)));
    SyncPlan::Settled { effects, tally: SyncTally::Error }
}

/// Plan what is done about a finding with an open pull request.
pub fn sync_plan(f: &Finding, repo: &Option<Repo>) -> (r: SyncPlan)
    ensures
        r@ == sync_plan_of(*f, *repo),
{
    let url: String = match &f.pr_url {
        Some(u) => u.clone(),
        None => String::new(),
    };
    if url.as_str().is_empty() {
        let mut out = effects::no_effects();
        effects::add_effect(
            &mut out,
            Effect::SetStatus { finding: f.id, status: FindingStatus::Queued },
        );
        let msg = fix::numbered_text(f.id).concat(
            " requeued: pr_open with no pr_url (prior fix failed before PR creation)",
        );
        effects::add_effect(&mut out, effects::log("fix", msg, None, Some(f.id)));
        assert(effects::effects(out@) =~= sync_plan_of(*f, *repo)->effects);
        return SyncPlan::Settled { effects: out, tally: SyncTally::Requeued };
    }
    match repo {
        None => {
            let msg = ": repo ".to_owned().concat(text::int_to_text(f.repo_id).as_str()).concat(
                " missing",
            );
            error_plan(f.id, &msg)
        },
        Some(r) => match forge::forge_for(r.forge).parse_pr_url(&url) {
            None => {
                let msg = ": unparseable pr_url ".to_owned().concat(text::quoted(&url).as_str());
                error_plan(f.id, &msg)
            },
            Some((_, number)) => SyncPlan::View { number },
        },
    }
}

/// What the forge's answer does to the finding. `names` are the failing
/// checks of an open pull request.
pub open spec fn answered(
    finding: i64,
    url: Seq<char>,
    number: i64,
    answer: Result<PrView, String>,
    prev: Option<PrState>,
    names: Seq<Seq<char>>,
    now: i64,
) -> (Seq<EffectView>, SyncTally) {
    match answer {
        Err(e) => (
            seq![
                effects::log_view(
                    "error"@,
                    "sync #"@ + text::int_text(finding as int) + ": PR view failed: "@ + e@,
                    None,
                    Some(finding),
                ),
            ],
            SyncTally::Error,
        ),
        Ok(pr) => match pr.state {
            ForgeState::Merged => (
                seq![
                    EffectView::SetStatus { finding, status: FindingStatus::Merged },
                    EffectView::MarkPrMerged { finding, number },
                    effects::log_view(
                        "ship"@,
                        fix::numbered(finding) + " PR merged: "@ + url,
                        None,
                        Some(finding),
                    ),
                ],
                SyncTally::Merged,
            ),
            ForgeState::Closed => (
                seq![
                    EffectView::SetVerdict {
                        finding,
                        status: FindingStatus::Rejected,
                        reason:
                            "PR closed without merge -- treat this bug class/location as human-rejected"@,
                    },
                    EffectView::MarkPrClosed { finding, number },
                    effects::log_view(
                        "verdict"@,
                        fix::numbered(finding) + " PR closed without merge: "@ + url,
                        None,
                        Some(finding),
                    ),
                ],
                SyncTally::Closed,
            ),
            ForgeState::Open => (
                open_effects(finding, pr, prev, number, fingerprint_of(pr, names), now),
                SyncTally::Synced {
                    attention: attention_of(pr, prev, fingerprint_of(pr, names)) is Some,
                },
            ),
        },
    }
}

/// Whether a list names the failing checks of an answer.
pub open spec fn names_for(answer: Result<PrView, String>, names: Seq<Seq<char>>) -> bool {
    answer matches Ok(pr) ==> pr.state == ForgeState::Open ==> failing_names(
        pr.status_check_rollup@,
        names,
    )
}

/// Take the forge's answer about a finding's pull request.
pub fn sync_answer(
    finding: i64,
    url: &str,
    number: i64,
    answer: Result<PrView, String>,
    prev: &Option<PrState>,
    now: i64,
) -> (r: (Vec<Effect>, SyncTally))
    requires
        answer matches Ok(pr) ==> pr.status_check_rollup@.len() <= i64::MAX,
    ensures
        exists|names: Seq<Seq<char>>| #[trigger]
            names_for(answer, names) && (effects::effects(r.0@), r.1) == answered(
                finding,
                url@,
                number,
                answer,
                *prev,
                names,
                now,
            ),
{
    let ghost none = Seq::<Seq<char>>::empty();
    let mut out = effects::no_effects();
    match &answer {
        Err(e) => {
            let msg = "sync #".to_owned().concat(text::int_to_text(finding).as_str()).concat(
                ": PR view failed: ",
            ).concat(e);
            effects::add_effect(&mut out, effects::log("error", msg, None, Some(finding)));
            proof {
                assert(names_for(answer, none));
                assert(effects::effects(out@) =~= answered(
                    finding,
                    url@,
                    number,
                    answer,
                    *prev,
                    none,
                    now,
                ).0);
            }
            (out, SyncTally::Error)
        },
        Ok(pr) => match pr.state {
            ForgeState::Merged => {
                effects::add_effect(
                    &mut out,
                    Effect::SetStatus { finding, status: FindingStatus::Merged },
                );
                effects::add_effect(&mut out, Effect::MarkPrMerged { finding, number });
                let msg = fix::numbered_text(finding).concat(" PR merged: ").concat(url);
                effects::add_effect(&mut out, effects::log("ship", msg, None, Some(finding)));
                proof {
                    assert(names_for(answer, none));
                    assert(effects::effects(out@) =~= answered(
                        finding,
                        url@,
                        number,
                        answer,
                        *prev,
                        none,
                        now,
                    ).0);
                }
                (out, SyncTally::Merged)
            },
            ForgeState::Closed => {
                effects::add_effect(
                    &mut out,
                    Effect::SetVerdict {
                        finding,
                        status: FindingStatus::Rejected,
                        reason:
                            "PR closed without merge -- treat this bug class/location as human-rejected".to_owned(),
                    },
                );
                effects::add_effect(&mut out, Effect::MarkPrClosed { finding, number });
                let msg = fix::numbered_text(finding).concat(" PR closed without merge: ").concat(
                    url,
                );
                effects::add_effect(&mut out, effects::log("verdict", msg, None, Some(finding)));
                proof {
                    assert(names_for(answer, none));
                    assert(effects::effects(out@) =~= answered(
                        finding,
                        url@,
                        number,
                        answer,
                        *prev,
                        none,
                        now,
                    ).0);
                }
                (out, SyncTally::Closed)
            },
            ForgeState::Open => {
                let r = sync_open(finding, pr, prev, number, now);
                proof {
                    let names = choose|names: Seq<Seq<char>>| #[trigger]
                        failing_names(pr.status_check_rollup@, names) && effects::effects(r.0@)
                            == open_effects(
                            finding,
                            *pr,
                            *prev,
                            number,
                            fingerprint_of(*pr, names),
                            now,
                        ) && r.1 == (SyncTally::Synced {
                            attention: attention_of(*pr, *prev, fingerprint_of(*pr, names)) is Some,
                        });
                    assert(names_for(answer, names));
                }
                r
            },
        },
    }
}

// ---------------------------------------------------------------------
// The whole pass
// ---------------------------------------------------------------------

/// The counts with one finding more.
pub open spec fn tallied(s: SyncResult, t: SyncTally) -> SyncResult {
    match t {
        SyncTally::Requeued => s,
        SyncTally::Error => SyncResult { errors: (s.errors + 1) as i64, ..s },
        SyncTally::Merged => SyncResult { merged: (s.merged + 1) as i64, ..s },
        SyncTally::Closed => SyncResult { closed: (s.closed + 1) as i64, ..s },
        SyncTally::Synced { attention } => SyncResult {
            synced: (s.synced + 1) as i64,
            attention: if attention { (s.attention + 1) as i64 } else { s.attention },
            ..s
        },
    }
}

/// The counts of a whole pass.
pub open spec fn totals_of(v: Seq<SyncTally>) -> SyncResult
    decreases v.len(),
{
    if v.len() == 0 {
        SyncResult::zero()
    } else {
        tallied(totals_of(v.drop_last()), v.last())
    }
}

/// Count a pass over the open pull requests.
pub fn sync_totals(v: &Vec<SyncTally>) -> (r: SyncResult)
    requires
        v@.len() < i64::MAX,
    ensures
        r == totals_of(v@),
{
    let mut s = SyncResult::default();
    let mut i: usize = 0;
    while i < v.len()
        invariant
            i <= v@.len() < i64::MAX,
            s == totals_of(v@.take(i as int)),
            0 <= s.synced <= i,
            0 <= s.merged <= i,
            0 <= s.closed <= i,
            0 <= s.attention <= i,
            0 <= s.errors <= i,
        decreases v@.len() - i,
    {
        assert(v@.take(i + 1).drop_last() =~= v@.take(i as int));
        match v[i] {
            SyncTally::Requeued => {},
            SyncTally::Error => {
                s.errors = s.errors + 1;
            },
            SyncTally::Merged => {
                s.merged = s.merged + 1;
            },
            SyncTally::Closed => {
                s.closed = s.closed + 1;
            },
            SyncTally::Synced { attention } => {
                s.synced = s.synced + 1;
                if attention {
                    s.attention = s.attention + 1;
                }
            },
        }
        i = i + 1;
    }
    assert(v@.take(v@.len() as int) =~= v@);
    s
}

/// A pass over the findings with an open pull request, one after the other.
#[derive(Debug, Clone)]
pub struct SyncPass {
    pub findings: Vec<Finding>,
    /// What the findings so far came to.
    pub tallies: Vec<SyncTally>,
    /// The pull request of the current finding, where the forge is asked.
    pub asked: Option<i64>,
}

pub struct SyncPassView {
    pub findings: Seq<Finding>,
    pub tallies: Seq<SyncTally>,
    pub asked: Option<i64>,
}

impl View for SyncPass {
    type V = SyncPassView;

    open spec fn view(&self) -> SyncPassView {
        SyncPassView { findings: self.findings@, tallies: self.tallies@, asked: self.asked }
    }
}

impl SyncPassView {
    /// The findings so far came to one tally each.
    pub open spec fn well_formed(self) -> bool {
        &&& self.findings.len() < i64::MAX
        &&& self.tallies.len() <= self.findings.len()
        &&& self.asked is Some ==> self.tallies.len() < self.findings.len()
    }

    /// The finding whose turn it is.
    pub open spec fn current(self) -> Option<Finding> {
        if self.tallies.len() < self.findings.len() {
            Some(self.findings[self.tallies.len() as int])
        } else {
            None
        }
    }

    /// The pass with the current finding's tally.
    pub open spec fn with(self, t: SyncTally) -> SyncPassView {
        SyncPassView { tallies: self.tallies.push(t), asked: None, ..self }
    }
}

/// The pass after the plan for its current finding.
pub open spec fn after_plan(pass: SyncPassView, plan: SyncPlanView) -> SyncPassView {
    match plan {
        SyncPlanView::Settled { tally, .. } => pass.with(tally),
        SyncPlanView::View { number } => SyncPassView { asked: Some(number as i64), ..pass },
    }
}

pub open spec fn url_text(f: Finding) -> Seq<char> {
    match f.pr_url {
        Some(u) => u@,
        None => Seq::empty(),
    }
}

impl SyncPass {
    pub fn new(findings: Vec<Finding>) -> (r: SyncPass)
        requires
            findings@.len() < i64::MAX,
        ensures
            r@ == (SyncPassView {
                findings: findings@,
                tallies: Seq::<SyncTally>::empty(),
                asked: None::<i64>,
            }),
            r@.well_formed(),
    {
        SyncPass { findings, tallies: Vec::new(), asked: None }
    }

    /// The finding whose turn it is.
    pub fn next(&self) -> (r: Option<&Finding>)
        requires
            self@.well_formed(),
        ensures
            match r {
                Some(f) => self@.current() == Some(*f),
                None => self@.current() is None,
            },
    {
        let at: usize = self.tallies.len();
        if at < self.findings.len() {
            Some(&self.findings[at])
        } else {
            None
        }
    }

    /// Plan what is done about the current finding.
    pub fn plan(&mut self, repo: &Option<Repo>) -> (r: SyncPlan)
        requires
            old(self)@.well_formed(),
            old(self)@.current() is Some,
            old(self)@.asked is None,
        ensures
            r@ == sync_plan_of(old(self)@.current()->0, *repo),
            final(self)@ == after_plan(old(self)@, r@),
            final(self)@.well_formed(),
    {
        let at: usize = self.tallies.len();
        let plan = sync_plan(&self.findings[at], repo);
        match &plan {
            SyncPlan::Settled { effects: _, tally } => {
                self.tallies.push(*tally);
            },
            SyncPlan::View { number } => {
                self.asked = Some(*number);
            },
        }
        plan
    }

    /// Take the forge's answer about the current finding's pull request.
    pub fn answer(&mut self, answer: Result<PrView, String>, prev: &Option<PrState>, now: i64) -> (r: Vec<
        Effect,
    >)
        requires
            old(self)@.well_formed(),
            old(self)@.asked is Some,
            answer matches Ok(pr) ==> pr.status_check_rollup@.len() <= i64::MAX,
        ensures
            exists|names: Seq<Seq<char>>| #[trigger]
                names_for(answer, names) && ({
                    let f = old(self)@.current()->0;
                    let said = answered(
                        f.id,
                        url_text(f),
                        old(self)@.asked->0,
                        answer,
                        *prev,
                        names,
                        now,
                    );
                    effects::effects(r@) == said.0 && final(self)@ == old(self)@.with(said.1)
                }),
            final(self)@.well_formed(),
    {
        let at: usize = self.tallies.len();
        let number: i64 = match self.asked {
            Some(n) => n,
            None => 0,
        };
        let f = &self.findings[at];
        let url: String = match &f.pr_url {
            Some(u) => u.clone(),
            None => String::new(),
        };
        assert(url@ =~= url_text(*f));
        let (out, tally) = sync_answer(f.id, &url, number, answer, prev, now);
        self.tallies.push(tally);
        self.asked = None;
        out
    }

    /// The counts of the pass.
    pub fn result(&self) -> (r: SyncResult)
        requires
            self@.well_formed(),
        ensures
            r == totals_of(self@.tallies),
    {
        sync_totals(&self.tallies)
    }
}

// ---------------------------------------------------------------------
// Laws
// ---------------------------------------------------------------------

/// How many findings went back to the queue.
pub open spec fn requeued(v: Seq<SyncTally>) -> int
    decreases v.len(),
{
    if v.len() == 0 {
        0
    } else {
        requeued(v.drop_last()) + if v.last() == SyncTally::Requeued { 1int } else { 0 }
    }
}

/// Every finding counts exactly once: as synced, merged, closed or an error,
/// or it went back to the queue. Only one that was synced can need attention.
pub proof fn law_every_pull_request_counts_once(v: Seq<SyncTally>)
    requires
        v.len() < i64::MAX,
    ensures
        ({
            let t = totals_of(v);
            &&& t.synced + t.merged + t.closed + t.errors + requeued(v) == v.len()
            &&& 0 <= t.attention <= t.synced
            &&& 0 <= t.merged && 0 <= t.closed && 0 <= t.errors && 0 <= requeued(v)
        }),
    decreases v.len(),
{
    if v.len() > 0 {
        law_every_pull_request_counts_once(v.drop_last());
    }
}

/// A pass that has come to its end has one tally for each of its findings,
/// and its counts are those of all of them.
pub proof fn law_finished_pass_counts_all(pass: SyncPassView)
    requires
        pass.well_formed(),
        pass.current() is None,
    ensures
        ({
            let t = totals_of(pass.tallies);
            t.synced + t.merged + t.closed + t.errors + requeued(pass.tallies) == pass.findings.len()
        }),
{
    law_every_pull_request_counts_once(pass.tallies);
}


/// On the first look nothing counts as a new remark: the pull request's own
/// creation is not flagged.
pub proof fn law_first_look_flags_no_remarks(pr: PrView, prev: Option<PrState>)
    requires
        prev matches Some(p) ==> p.last_engaged_activity_at is None,
    ensures
        activity_of(pr) <= engaged_up_to(pr, prev),
{
}

/// A push resets the suppression, even where the fingerprint is the same.
pub proof fn law_push_resets_suppression(pr: PrView, prev: Option<PrState>, fp: Option<Seq<char>>)
    requires
        addressed_sha(prev) != Some(pr.head_sha@),
    ensures
        !is_suppressed(fp, pr.head_sha@, prev),
{
}

/// What an engage declined is not flagged again while neither the reason nor
/// the head changes.
pub proof fn law_declined_reason_stays_quiet(pr: PrView, prev: Option<PrState>, fp: Option<Seq<char>>)
    requires
        is_suppressed(fp, pr.head_sha@, prev),
        activity_of(pr) <= engaged_up_to(pr, prev),
    ensures
        attention_of(pr, prev, fp) is None,
{
}

/// The time since when a pull request needs attention is left alone while
/// the reason stays the same, and is set whenever a reason appears.
pub proof fn law_attention_keeps_its_age(
    pr: PrView,
    prev: Option<PrState>,
    number: i64,
    fp: Option<Seq<char>>,
    now: i64,
)
    ensures
        attention_of(pr, prev, fp) == prev_attention(prev) <==> open_data(
            pr,
            prev,
            number,
            fp,
            now,
        ).attention_since is None,
        attention_of(pr, prev, fp) is Some && attention_of(pr, prev, fp) != prev_attention(prev)
            ==> open_data(pr, prev, number, fp, now).attention_since == Some(Some(now)),
{
}

/// The ascending list of failing checks is determined by the checks.
pub proof fn law_failing_names_are_unique(
    v: Seq<GhCheckRun>,
    a: Seq<Seq<char>>,
    b: Seq<Seq<char>>,
)
    requires
        failing_names(v, a),
        failing_names(v, b),
    ensures
        a == b,
{
    assert forall|n: Seq<char>| a.contains(n) <==> b.contains(n) by {
        assert(a.contains(n) <==> fails_under(v, n));
        assert(b.contains(n) <==> fails_under(v, n));
    }
    lemma_ascending_unique(a, b);
}

proof fn lemma_ascending_unique(a: Seq<Seq<char>>, b: Seq<Seq<char>>)
    requires
        text::ascending(a),
        text::ascending(b),
        forall|n: Seq<char>| a.contains(n) <==> b.contains(n),
    ensures
        a == b,
    decreases a.len(),
{
    if a.len() == 0 {
        if b.len() > 0 {
            assert(b.contains(b[0]));
            assert(a.contains(b[0]));
        }
        assert(a =~= b);
    } else {
        assert(a.contains(a.last()));
        assert(b.contains(a.last()));
        let k = choose|k: int| 0 <= k < b.len() && b[k] == a.last();
        assert(b.contains(b.last()));
        assert(a.contains(b.last()));
        let l = choose|l: int| 0 <= l < a.len() && a[l] == b.last();
        if k < b.len() - 1 {
            assert(text::lex_lt(b[k], b[b.len() - 1]));
            if l < a.len() - 1 {
                assert(text::lex_lt(a[l], a[a.len() - 1]));
                text::lemma_lex_transitive(a.last(), b.last(), a.last());
            }
            text::lemma_lex_irreflexive(a.last());
        }
        assert(a.last() == b.last());
        let (x, y) = (a.drop_last(), b.drop_last());
        assert forall|n: Seq<char>| x.contains(n) <==> y.contains(n) by {
            text::lemma_lex_irreflexive(n);
            if x.contains(n) {
                let i = choose|i: int| 0 <= i < x.len() && x[i] == n;
                assert(text::lex_lt(a[i], a[a.len() - 1]));
                assert(a.contains(n));
                let j = choose|j: int| 0 <= j < b.len() && b[j] == n;
                assert(y[j] == n);
            }
            if y.contains(n) {
                let i = choose|i: int| 0 <= i < y.len() && y[i] == n;
                assert(text::lex_lt(b[i], b[b.len() - 1]));
                assert(b.contains(n));
                let j = choose|j: int| 0 <= j < a.len() && a[j] == n;
                assert(x[j] == n);
            }
        }
        lemma_ascending_unique(x, y);
        assert(a =~= x.push(a.last()));
        assert(b =~= y.push(b.last()));
    }
}

/// A finding whose pull request was merged ends as merged, without a verdict,
/// and the pull request is kept as merged. Other findings stay as they are.
pub proof fn law_merged_pull_request_merges_its_finding(
    finding: i64,
    url: Seq<char>,
    number: i64,
    pr: PrView,
    prev: Option<PrState>,
    names: Seq<Seq<char>>,
    now: i64,
    id: i64,
    was: FindingStatus,
)
    requires
        pr.state == ForgeState::Merged,
    ensures
        ({
            let (v, tally) = answered(finding, url, number, Ok(pr), prev, names, now);
            &&& effects::status_after(v, id, was) == (if id == finding { FindingStatus::Merged } else { was })
            &&& forall|i: int| 0 <= i < v.len() ==> !(#[trigger] v[i] is SetVerdict)
            &&& v.contains(EffectView::MarkPrMerged { finding, number })
            &&& forall|i: int|
                0 <= i < v.len() ==> !(#[trigger] v[i] is MarkPrClosed) && !(v[i] is SyncPrOpen)
            &&& forall|i: int| 0 <= i < v.len() ==> effects::finding_of(#[trigger] v[i]) == Some(finding)
            &&& tally == SyncTally::Merged
        }),
{
    let v = answered(finding, url, number, Ok(pr), prev, names, now).0;
    effects::lemma_short_lists(v, id, was);
    assert(v[1] == EffectView::MarkPrMerged { finding, number });
}

/// A finding whose pull request was closed without a merge ends as rejected,
/// with the reason that later scans read, and the pull request is kept as
/// closed. Other findings stay as they are.
pub proof fn law_closed_pull_request_rejects_its_finding(
    finding: i64,
    url: Seq<char>,
    number: i64,
    pr: PrView,
    prev: Option<PrState>,
    names: Seq<Seq<char>>,
    now: i64,
    id: i64,
    was: FindingStatus,
)
    requires
        pr.state == ForgeState::Closed,
    ensures
        ({
            let (v, tally) = answered(finding, url, number, Ok(pr), prev, names, now);
            &&& effects::status_after(v, id, was) == (if id == finding {
                FindingStatus::Rejected
            } else {
                was
            })
            &&& effects::reason_after(v, finding) == Some(
                "PR closed without merge -- treat this bug class/location as human-rejected"@,
            )
            &&& v.contains(EffectView::MarkPrClosed { finding, number })
            &&& forall|i: int|
                0 <= i < v.len() ==> !(#[trigger] v[i] is MarkPrMerged) && !(v[i] is SyncPrOpen)
            &&& forall|i: int| 0 <= i < v.len() ==> effects::finding_of(#[trigger] v[i]) == Some(finding)
            &&& tally == SyncTally::Closed
        }),
{
    let v = answered(finding, url, number, Ok(pr), prev, names, now).0;
    effects::lemma_short_lists(v, id, was);
    effects::lemma_first_reason(v, finding);
    assert(v[1] == EffectView::MarkPrClosed { finding, number });
}

/// An open pull request leaves its finding's status alone and gives no
/// verdict; what was seen of it is stored. The pass counts whether it needs
/// attention.
pub proof fn law_open_pull_request_settles_nothing(
    finding: i64,
    url: Seq<char>,
    number: i64,
    pr: PrView,
    prev: Option<PrState>,
    names: Seq<Seq<char>>,
    now: i64,
    id: i64,
    was: FindingStatus,
)
    requires
        pr.state == ForgeState::Open,
    ensures
        ({
            let (v, tally) = answered(finding, url, number, Ok(pr), prev, names, now);
            &&& effects::status_after(v, id, was) == was
            &&& forall|i: int|
                0 <= i < v.len() ==> !(#[trigger] v[i] is SetVerdict) && !(v[i] is MarkPrMerged) && !(v[i] is MarkPrClosed)
            &&& forall|i: int| 0 <= i < v.len() ==> effects::finding_of(#[trigger] v[i]) == Some(finding)
            &&& v.len() > 0
            &&& v[0] matches EffectView::SyncPrOpen { data, .. } && ({
                &&& data.pr_number == number
                &&& data.head_ref == pr.head_ref@
                &&& data.head_sha == pr.head_sha@
                &&& data.synced_at == now
                &&& data.state == "OPEN"@
                &&& data.mergeable == (match pr.mergeable {
                    Mergeable::Mergeable => "MERGEABLE"@,
                    Mergeable::Conflicting => "CONFLICTING"@,
                    Mergeable::Unknown => "UNKNOWN"@,
                })
                &&& data.needs_attention == attention_of(pr, prev, data.attention_fingerprint)
                &&& tally == SyncTally::Synced { attention: data.needs_attention is Some }
            })
        }),
{
    let v = answered(finding, url, number, Ok(pr), prev, names, now).0;
    effects::lemma_short_lists(v, id, was);
    assert(v[0] is SyncPrOpen);
}

/// Where the forge does not answer, nothing changes but the log.
pub proof fn law_unanswered_pull_request_changes_nothing(
    finding: i64,
    url: Seq<char>,
    number: i64,
    e: String,
    prev: Option<PrState>,
    names: Seq<Seq<char>>,
    now: i64,
)
    ensures
        ({
            let (v, tally) = answered(finding, url, number, Err(e), prev, names, now);
            &&& v.len() == 1
            &&& v[0] matches EffectView::Log { kind, finding: f, .. } && kind == "error"@ && f == Some(finding)
            &&& tally == SyncTally::Error
        }),
{
}

/// A finding that waits on a pull request without an address is queued again;
/// where there is an address, its status is not touched before the forge is
/// asked.
pub proof fn law_finding_without_address_is_queued_again(
    f: Finding,
    repo: Option<Repo>,
    id: i64,
    was: FindingStatus,
)
    ensures
        sync_plan_of(f, repo) matches SyncPlanView::Settled { effects: v, tally } ==> {
            &&& (f.pr_url is None || f.pr_url->0@.len() == 0) <==> tally == SyncTally::Requeued
            &&& tally != SyncTally::Requeued ==> tally == SyncTally::Error
            &&& effects::status_after(v, id, was) == (if id == f.id && tally == SyncTally::Requeued {
                FindingStatus::Queued
            } else {
                was
            })
            &&& effects::keeps_to(v, f.id, 0)
        },
        sync_plan_of(f, repo) is View ==> f.pr_url is Some && repo is Some,
{
    if let SyncPlanView::Settled { effects: v, tally } = sync_plan_of(f, repo) {
        effects::lemma_short_lists(v, id, was);
        assert(v.len() > 0);
    }
}

/// The check says this word, in any case, of how it ended: as its conclusion,
/// or as its state where it has none.
pub open spec fn says(c: GhCheckRun, word: Seq<char>) -> bool {
    match (c.conclusion, c.state) {
        (Some(s), _) => text::upper(s@) == word,
        (None, Some(s)) => text::upper(s@) == word,
        (None, None) => false,
    }
}

/// The check failed, by its own word.
pub open spec fn says_failed(c: GhCheckRun) -> bool {
    says(c, "FAILURE"@) || says(c, "TIMED_OUT"@) || says(c, "CANCELLED"@)
}

/// The check passed, by its own word.
pub open spec fn says_passed(c: GhCheckRun) -> bool {
    says(c, "SUCCESS"@) || says(c, "NEUTRAL"@) || says(c, "SKIPPED"@)
}

/// A check fails where it says so, times out or is cancelled; it passes where
/// it says so, is neutral or skipped. What says anything else waits.
pub proof fn law_checks_end_as_they_say(c: GhCheckRun)
    ensures
        check_end(c).failing() == says_failed(c),
        check_end(c).passing() == says_passed(c),
        !(says_failed(c) && says_passed(c)),
{
    reveal_strlit("SUCCESS");
    reveal_strlit("FAILURE");
    reveal_strlit("TIMED_OUT");
    reveal_strlit("CANCELLED");
    reveal_strlit("NEUTRAL");
    reveal_strlit("SKIPPED");
    reveal_strlit("PENDING");
    reveal_strlit("");
    assert("SUCCESS"@[0] == 'S' && "SUCCESS"@[1] == 'U');
    assert("FAILURE"@[0] == 'F');
    assert("TIMED_OUT"@[0] == 'T');
    assert("CANCELLED"@[0] == 'C');
    assert("NEUTRAL"@[0] == 'N');
    assert("SKIPPED"@[0] == 'S' && "SKIPPED"@[1] == 'K');
    assert("PENDING"@[0] == 'P');
    assert(text::upper(""@).len() == 0);
}

/// The summary counts the checks that pass, fail and wait; together they are
/// all of them.
pub proof fn law_checks_are_counted(v: Seq<GhCheckRun>)
    ensures
        passing_count(v) == v.filter(|c: GhCheckRun| says_passed(c)).len(),
        failing_count(v) == v.filter(|c: GhCheckRun| says_failed(c)).len(),
        passing_count(v) + failing_count(v) + v.filter(
            |c: GhCheckRun| !says_passed(c) && !says_failed(c),
        ).len() == v.len(),
    decreases v.len(),
{
    reveal(Seq::filter);
    if v.len() > 0 {
        law_checks_are_counted(v.drop_last());
        law_checks_end_as_they_say(v.last());
    }
}

/// Some check fails where the count says so.
proof fn lemma_some_fail(v: Seq<GhCheckRun>)
    ensures
        failing_count(v) >= 0,
        failing_count(v) > 0 <==> exists|i: int| 0 <= i < v.len() && says_failed(#[trigger] v[i]),
    decreases v.len(),
{
    if v.len() > 0 {
        let rest = v.drop_last();
        lemma_some_fail(rest);
        law_checks_end_as_they_say(v.last());
        assert(v[v.len() - 1] == v.last());
        assert(forall|i: int| 0 <= i < rest.len() ==> rest[i] == v[i]);
        if exists|i: int| 0 <= i < v.len() && says_failed(#[trigger] v[i]) {
            let i = choose|i: int| 0 <= i < v.len() && says_failed(#[trigger] v[i]);
            if i < rest.len() {
                assert(says_failed(rest[i]));
            }
        }
        if failing_count(rest) > 0 {
            let i = choose|i: int| 0 <= i < rest.len() && says_failed(#[trigger] rest[i]);
            assert(says_failed(v[i]));
        }
    }
}

/// The latest of the stamps is one of them, and none is later.
proof fn lemma_latest(v: Seq<int>)
    ensures
        latest(v) is None <==> v.len() == 0,
        latest(v) matches Some(m) ==> v.contains(m) && forall|i: int| 0 <= i < v.len() ==> #[trigger] v[i] <= m,
    decreases v.len(),
{
    if v.len() > 0 {
        let rest = v.drop_last();
        lemma_latest(rest);
        assert(v[v.len() - 1] == v.last());
        assert(forall|i: int| 0 <= i < rest.len() ==> rest[i] == v[i]);
        let m = latest(v)->0;
        if m != v.last() {
            let k = choose|k: int| 0 <= k < rest.len() && rest[k] == m;
            assert(v[k] == m);
        }
    }
}

/// The latest activity is that of some comment or review, and none is later;
/// without any it is zero.
pub proof fn law_activity_is_the_latest_remark(pr: PrView)
    ensures
        forall|i: int|
            0 <= i < pr.comments@.len() ==> time::iso_value((#[trigger] pr.comments@[i]).created_at@)
                <= activity_of(pr),
        forall|i: int|
            0 <= i < pr.reviews@.len() ==> time::iso_value((#[trigger] pr.reviews@[i]).submitted_at@)
                <= activity_of(pr),
        pr.comments@.len() == 0 && pr.reviews@.len() == 0 ==> activity_of(pr) == 0,
        pr.comments@.len() > 0 || pr.reviews@.len() > 0 ==> {
            ||| exists|i: int|
                0 <= i < pr.comments@.len() && time::iso_value((#[trigger] pr.comments@[i]).created_at@)
                    == activity_of(pr)
            ||| exists|i: int|
                0 <= i < pr.reviews@.len() && time::iso_value((#[trigger] pr.reviews@[i]).submitted_at@)
                    == activity_of(pr)
        },
{
    let a = comment_stamps(pr.comments@);
    let b = review_stamps(pr.reviews@);
    let all = a + b;
    lemma_latest(all);
    assert forall|i: int| 0 <= i < pr.comments@.len() implies time::iso_value(
        (#[trigger] pr.comments@[i]).created_at@,
    ) <= activity_of(pr) by {
        assert(all[i] == a[i]);
    }
    assert forall|i: int| 0 <= i < pr.reviews@.len() implies time::iso_value(
        (#[trigger] pr.reviews@[i]).submitted_at@,
    ) <= activity_of(pr) by {
        assert(all[a.len() + i] == b[i]);
    }
    if all.len() > 0 {
        let m = latest(all)->0;
        let k = choose|k: int| 0 <= k < all.len() && all[k] == m;
        if k < a.len() {
            assert(time::iso_value(pr.comments@[k].created_at@) == m);
        } else {
            let j = k - a.len();
            assert(all[k] == b[j]);
            assert(time::iso_value(pr.reviews@[j].submitted_at@) == m);
        }
    }
}

/// Whether the last engage left the pull request in this very state: with
/// this fingerprint at this head.
pub open spec fn left_as_it_is(pr: PrView, prev: Option<PrState>, fp: Option<Seq<char>>) -> bool {
    prev matches Some(p) && (fp matches Some(now_fp) && (p.addressed_fingerprint matches Some(a) && a@ == now_fp)
        && (p.addressed_head_sha matches Some(sha) && sha@ == pr.head_sha@))
}

/// A pull request needs attention for each of four reasons, listed in this
/// order: a remark after the last engage; and, unless that engage left it so,
/// requested changes, a conflict, or a failing check.
pub proof fn law_attention_has_its_reasons(
    pr: PrView,
    p: PrState,
    engaged: i64,
    fp: Option<Seq<char>>,
) -> (why: Seq<Seq<char>>)
    requires
        p.last_engaged_activity_at == Some(engaged),
        engaged >= 0,
    ensures
        attention_of(pr, Some(p), fp) == (if why.len() == 0 {
            None
        } else {
            Some(text::join(why, ","@))
        }),
        why.contains("new_comments"@) <==> {
            ||| exists|i: int|
                0 <= i < pr.comments@.len() && time::iso_value((#[trigger] pr.comments@[i]).created_at@)
                    > engaged
            ||| exists|i: int|
                0 <= i < pr.reviews@.len() && time::iso_value((#[trigger] pr.reviews@[i]).submitted_at@)
                    > engaged
        },
        why.contains("changes_requested"@) <==> !left_as_it_is(pr, Some(p), fp) && pr.review_decision
            == ReviewDecision::ChangesRequested,
        why.contains("conflict"@) <==> !left_as_it_is(pr, Some(p), fp) && pr.mergeable
            == Mergeable::Conflicting,
        why.contains("checks_failing"@) <==> !left_as_it_is(pr, Some(p), fp) && exists|i: int|
            0 <= i < pr.status_check_rollup@.len() && says_failed(#[trigger] pr.status_check_rollup@[i]),
        why.len() <= 4,
        forall|i: int|
            0 <= i < why.len() ==> #[trigger] why[i] == "new_comments"@ || why[i] == "changes_requested"@
                || why[i] == "conflict"@ || why[i] == "checks_failing"@,
{
    let prev = Some(p);
    let shown = !is_suppressed(fp, pr.head_sha@, prev);
    assert(shown == !left_as_it_is(pr, prev, fp));
    law_activity_is_the_latest_remark(pr);
    lemma_some_fail(pr.status_check_rollup@);
    let a = activity_of(pr) > engaged_up_to(pr, prev);
    let b = shown && pr.review_decision == ReviewDecision::ChangesRequested;
    let c = shown && pr.mergeable == Mergeable::Conflicting;
    let d = shown && failing_count(pr.status_check_rollup@) > 0;
    let why = when(a, "new_comments"@) + when(b, "changes_requested"@) + when(c, "conflict"@) + when(
        d,
        "checks_failing"@,
    );
    lemma_four(a, b, c, d);
    why
}

/// What is in a list of four optional reasons.
proof fn lemma_four(a: bool, b: bool, c: bool, d: bool)
    ensures
        ({
            let why = when(a, "new_comments"@) + when(b, "changes_requested"@) + when(c, "conflict"@) + when(
                d,
                "checks_failing"@,
            );
            &&& why.contains("new_comments"@) <==> a
            &&& why.contains("changes_requested"@) <==> b
            &&& why.contains("conflict"@) <==> c
            &&& why.contains("checks_failing"@) <==> d
            &&& why.len() <= 4
            &&& forall|i: int|
                0 <= i < why.len() ==> #[trigger] why[i] == "new_comments"@ || why[i]
                    == "changes_requested"@ || why[i] == "conflict"@ || why[i] == "checks_failing"@
        }),
{
    reveal_strlit("new_comments");
    reveal_strlit("changes_requested");
    reveal_strlit("conflict");
    reveal_strlit("checks_failing");
    assert("new_comments"@.len() == 12);
    assert("changes_requested"@.len() == 17);
    assert("conflict"@.len() == 8);
    assert("checks_failing"@.len() == 14);
    let x = when(a, "new_comments"@);
    let xy = x + when(b, "changes_requested"@);
    let xyz = xy + when(c, "conflict"@);
    let why = xyz + when(d, "checks_failing"@);
    if a {
        assert(why[0] == "new_comments"@);
    }
    if b {
        assert(why[x.len() as int] == "changes_requested"@);
    }
    if c {
        assert(why[xy.len() as int] == "conflict"@);
    }
    if d {
        assert(why[xyz.len() as int] == "checks_failing"@);
    }
}

/// The counts of a pass are how often each outcome came up.
pub proof fn law_totals_count_the_outcomes(v: Seq<SyncTally>)
    requires
        v.len() < i64::MAX,
    ensures
        totals_of(v).merged == v.filter(|t: SyncTally| t == SyncTally::Merged).len(),
        totals_of(v).closed == v.filter(|t: SyncTally| t == SyncTally::Closed).len(),
        totals_of(v).errors == v.filter(|t: SyncTally| t == SyncTally::Error).len(),
        totals_of(v).synced == v.filter(|t: SyncTally| t is Synced).len(),
        totals_of(v).attention == v.filter(
            |t: SyncTally| t == (SyncTally::Synced { attention: true }),
        ).len(),
    decreases v.len(),
{
    reveal(Seq::filter);
    if v.len() > 0 {
        law_totals_count_the_outcomes(v.drop_last());
        law_every_pull_request_counts_once(v.drop_last());
    }
}

/// What is stored of an open pull request is what was seen of it, at the time
/// at which it was seen; the attention it needs is dated when it changes and
/// the date is dropped when it ends.
pub proof fn law_open_row_holds_what_was_seen(
    pr: PrView,
    prev: Option<PrState>,
    number: i64,
    fp: Option<Seq<char>>,
    now: i64,
)
    ensures
        ({
            let d = open_data(pr, prev, number, fp, now);
            let before = match prev {
                Some(p) => text::opt_text(p.needs_attention),
                None => None,
            };
            &&& d.pr_number == number
            &&& d.state == pr.state.text()
            &&& d.mergeable == pr.mergeable.text()
            &&& d.head_ref == pr.head_ref@
            &&& d.head_sha == pr.head_sha@
            &&& d.attention_fingerprint == fp
            &&& d.synced_at == now
            &&& d.needs_attention == before <==> d.attention_since is None
            &&& d.needs_attention is Some && d.needs_attention != before ==> d.attention_since == Some(Some(now))
            &&& d.needs_attention is None && before is Some ==> d.attention_since == Some(None::<i64>)
        }),
{
}

} // verus!
