//! The policy: what the usage windows leave for a job.
//!
//! The fractions of the windows are compared outside; the policy reads what
//! came of the comparisons.

use vstd::prelude::*;
use crate::backend;
use crate::backend::{Outlook, Verdict, VerdictView};
use crate::backends::omp_scavenge::capacity;
use crate::backends::omp_scavenge::harness;
use crate::backends::omp_scavenge::provider::LlmProvider;
use crate::text;

verus! {

// ---------------------------------------------------------------------
// Reservations
// ---------------------------------------------------------------------

/// Tokens that no window has accounted for yet.
#[derive(Debug, Clone, Copy, PartialEq, Eq, Structural)]
pub struct Reserved {
    /// With the job under decision: what the admission asks about.
    pub gate_short: i64,
    pub gate_long: i64,
    /// Without it: what the job's own budget is measured against.
    pub budget_short: i64,
    pub budget_long: i64,
}

/// What is running, what finished since the windows were read, and the job
/// under decision.
pub fn reserve(running: i64, anticipated: i64, finished_short: i64, finished_long: i64) -> (r: Reserved)
    requires
        harness::in_range(running + anticipated),
        harness::in_range(running + anticipated + finished_short),
        harness::in_range(running + anticipated + finished_long),
        harness::in_range(running + finished_short),
        harness::in_range(running + finished_long),
    ensures
        r.gate_short == running + anticipated + finished_short,
        r.gate_long == running + anticipated + finished_long,
        r.budget_short == r.gate_short - anticipated,
        r.budget_long == r.gate_long - anticipated,
{
    let base: i64 = running + anticipated;
    let short: i64 = base + finished_short;
    let long: i64 = base + finished_long;
    Reserved {
        gate_short: short,
        gate_long: long,
        budget_short: short - anticipated,
        budget_long: long - anticipated,
    }
}

/// When a window was read: the one asked for, else the one read first.
pub open spec fn earliest(v: Seq<WindowFacts>) -> i64
    decreases v.len(),
{
    if v.len() == 0 {
        0
    } else if v.len() == 1 {
        v[0].recorded_at
    } else {
        let before = earliest(v.drop_last());
        if v.last().recorded_at < before { v.last().recorded_at } else { before }
    }
}

/// The position of a window.
pub open spec fn is_at(v: Seq<WindowFacts>, id: Seq<char>, i: int) -> bool {
    &&& 0 <= i < v.len()
    &&& v[i].limit_id@ == id
    &&& forall|j: int| 0 <= j < i ==> (#[trigger] v[j]).limit_id@ != id
}

pub open spec fn is_absent(v: Seq<WindowFacts>, id: Seq<char>) -> bool {
    forall|j: int| 0 <= j < v.len() ==> (#[trigger] v[j]).limit_id@ != id
}

fn find_window(v: &Vec<WindowFacts>, id: &str) -> (r: Option<usize>)
    ensures
        match r {
            Some(i) => is_at(v@, id@, i as int),
            None => is_absent(v@, id@),
        },
{
    let mut i: usize = 0;
    while i < v.len()
        invariant
            i <= v@.len(),
            forall|j: int| 0 <= j < i ==> (#[trigger] v@[j]).limit_id@ != id@,
        decreases v@.len() - i,
    {
        if text::same(&v[i].limit_id, id) {
            return Some(i);
        }
        i = i + 1;
    }
    None
}

/// Since when finished jobs are not in a window's reading.
pub fn probe_at(v: &Vec<WindowFacts>, id: &str) -> (r: i64)
    ensures
        is_absent(v@, id@) ==> r == earliest(v@),
        !is_absent(v@, id@) ==> exists|i: int| is_at(v@, id@, i) && r == (#[trigger] v@[i]).recorded_at,
{
    if let Some(i) = find_window(v, id) {
        assert(is_at(v@, id@, i as int));
        assert(v@[i as int].limit_id@ == id@);
        return v[i].recorded_at;
    }
    if v.len() == 0 {
        return 0;
    }
    let mut least: i64 = v[0].recorded_at;
    let mut i: usize = 1;
    assert(v@.take(1)[0] == v@[0]);
    while i < v.len()
        invariant
            1 <= i <= v@.len(),
            least == earliest(v@.take(i as int)),
        decreases v@.len() - i,
    {
        proof {
            assert(v@.take(i + 1).drop_last() =~= v@.take(i as int));
            assert(v@.take(i + 1).last() == v@[i as int]);
        }
        if v[i].recorded_at < least {
            least = v[i].recorded_at;
        }
        i = i + 1;
    }
    assert(v@.take(v@.len() as int) =~= v@);
    least
}

// ---------------------------------------------------------------------
// The verdict
// ---------------------------------------------------------------------

/// A window, as the policy reads it.
#[derive(Debug, Clone)]
pub struct WindowFacts {
    pub limit_id: String,
    pub status: Option<String>,
    pub resets_at: Option<i64>,
    /// When it was read.
    pub recorded_at: i64,
    /// Whether a used fraction is reported.
    pub has_fraction: bool,
    /// Whether what is used, with the reservation for the job, is at or over what
    /// the window allows now.
    pub over: bool,
    /// When that ends.
    pub retry_at: Option<i64>,
    /// What is said of it.
    pub reason: String,
    /// Tokens that prioritized work may still use where the window is over.
    pub override_cap: i64,
    /// Tokens that are left under what the window allows now.
    pub ramp_cap: i64,
    /// Tokens that are left in the window.
    pub full_cap: i64,
}

/// Whether anything is known of a window's use.
pub open spec fn known(p: LlmProvider, w: WindowFacts) -> bool {
    w.has_fraction || p.stops(w.status)
}

fn is_known(p: LlmProvider, w: &WindowFacts) -> (r: bool)
    ensures
        r == known(p, *w),
{
    w.has_fraction || p.hard_stop(&w.status)
}

/// Whether a long window holds a job back.
pub open spec fn holds_long(p: LlmProvider, w: WindowFacts, now_ms: i64) -> bool {
    p.long(w.limit_id@) && !capacity::ended(w.resets_at, now_ms) && known(p, w) && w.over
}

/// The first long window that holds a job back.
pub open spec fn is_first_hold(p: LlmProvider, v: Seq<WindowFacts>, now_ms: i64, i: int) -> bool {
    &&& 0 <= i < v.len()
    &&& holds_long(p, v[i], now_ms)
    &&& forall|j: int| 0 <= j < i ==> !holds_long(p, #[trigger] v[j], now_ms)
}

pub open spec fn no_long_hold(p: LlmProvider, v: Seq<WindowFacts>, now_ms: i64) -> bool {
    forall|j: int| 0 <= j < v.len() ==> !holds_long(p, #[trigger] v[j], now_ms)
}

/// Whether the short window holds a job back.
pub open spec fn holds_short(p: LlmProvider, w: WindowFacts, now_ms: i64) -> bool {
    known(p, w) && capacity::running(w.resets_at, now_ms) && w.over
}

/// What is said where a window holds a job back. Prioritized work may use
/// what is left of it, unless it is exhausted.
pub open spec fn held(w: WindowFacts, exhausted: bool, prio: bool) -> VerdictView {
    if prio && !exhausted && w.override_cap > 0 {
        VerdictView::Granted {
            cap_tokens: Some(w.override_cap),
            reason: "prio override ("@ + w.reason@ + ")"@,
        }
    } else {
        VerdictView::Denied {
            reason: w.reason@,
            retry_at: if exhausted { w.resets_at } else { w.retry_at },
        }
    }
}

fn hold(w: &WindowFacts, exhausted: bool, prio: bool) -> (r: Verdict)
    ensures
        r@ == held(*w, exhausted, prio),
{
    if prio && !exhausted && w.override_cap > 0 {
        Verdict::Granted {
            cap_tokens: Some(w.override_cap),
            reason: "prio override (".to_owned().concat(&w.reason).concat(")"),
        }
    } else {
        Verdict::Denied {
            reason: w.reason.clone(),
            retry_at: if exhausted {
                w.resets_at
            } else {
                w.retry_at
            },
        }
    }
}

/// What a window leaves for a job, where it bounds it.
pub open spec fn bound(p: LlmProvider, w: WindowFacts, prio: bool, now_ms: i64) -> Option<i64> {
    let cap = if prio { w.full_cap } else { w.ramp_cap };
    if !known(p, w) {
        None
    } else if p.long(w.limit_id@) {
        Some(cap)
    } else if w.limit_id@ == p.short_id() && capacity::running(w.resets_at, now_ms) {
        Some(cap)
    } else {
        None
    }
}

/// The least that any window leaves for a job; no bound where none does.
pub open spec fn headroom(p: LlmProvider, v: Seq<WindowFacts>, prio: bool, now_ms: i64) -> Option<i64>
    decreases v.len(),
{
    if v.len() == 0 {
        None
    } else {
        match (headroom(p, v.drop_last(), prio, now_ms), bound(p, v.last(), prio, now_ms)) {
            (Some(a), Some(b)) => Some(if b < a { b } else { a }),
            (Some(a), None) => Some(a),
            (None, b) => b,
        }
    }
}

pub fn compute_headroom(p: LlmProvider, v: &Vec<WindowFacts>, prio: bool, now_ms: i64) -> (r: Option<i64>)
    ensures
        r == headroom(p, v@, prio, now_ms),
{
    let w = p.windows();
    let mut least: Option<i64> = None;
    let mut i: usize = 0;
    while i < v.len()
        invariant
            i <= v@.len(),
            w.short.limit_id@ == p.short_id(),
            least == headroom(p, v@.take(i as int), prio, now_ms),
        decreases v@.len() - i,
    {
        proof {
            assert(v@.take(i + 1).drop_last() =~= v@.take(i as int));
            assert(v@.take(i + 1).last() == v@[i as int]);
        }
        let x = &v[i];
        let cap: i64 = if prio {
            x.full_cap
        } else {
            x.ramp_cap
        };
        let bounds: bool = is_known(p, x) && (p.is_long_window(&x.limit_id) || (text::same(
            &x.limit_id,
            w.short.limit_id,
        ) && capacity::is_running(x.resets_at, now_ms)));
        let here: Option<i64> = if bounds {
            Some(cap)
        } else {
            None
        };
        assert(here == bound(p, v@[i as int], prio, now_ms));
        least = match (least, here) {
            (Some(a), Some(b)) => Some(
                if b < a {
                    b
                } else {
                    a
                },
            ),
            (Some(a), None) => Some(a),
            (None, b) => b,
        };
        i = i + 1;
    }
    assert(v@.take(v@.len() as int) =~= v@);
    least
}

/// The verdict of one class of work: the long windows first, then the short
/// one, then what is left. The windows are listed in the order of their
/// names, no name twice.
pub open spec fn is_verdict(p: LlmProvider, v: Seq<WindowFacts>, prio: bool, now_ms: i64, r: VerdictView) -> bool {
    if v.len() == 0 {
        r == backend::no_data()
    } else if !no_long_hold(p, v, now_ms) {
        exists|i: int| is_first_hold(p, v, now_ms, i) && r == held(#[trigger] v[i], p.stops(v[i].status), prio)
    } else if exists|i: int| is_at(v, p.short_id(), i) && holds_short(p, #[trigger] v[i], now_ms) {
        exists|i: int|
            is_at(v, p.short_id(), i) && r == held(
                #[trigger] v[i],
                text::opt_text(v[i].status) == Some("exhausted"@),
                prio,
            )
    } else {
        r == VerdictView::Granted { cap_tokens: headroom(p, v, prio, now_ms), reason: "ok"@ }
    }
}

/// The verdict of one class of work.
pub fn decide_inner(p: LlmProvider, v: &Vec<WindowFacts>, prio: bool, now_ms: i64) -> (r: Verdict)
    ensures
        is_verdict(p, v@, prio, now_ms, r@),
{
    if v.len() == 0 {
        return backend::deny_without_data();
    }
    let mut i: usize = 0;
    while i < v.len()
        invariant
            i <= v@.len(),
            v@.len() > 0,
            forall|j: int| 0 <= j < i ==> !holds_long(p, #[trigger] v@[j], now_ms),
        decreases v@.len() - i,
    {
        let w = &v[i];
        if p.is_long_window(&w.limit_id) && !capacity::has_ended(w.resets_at, now_ms) && is_known(p, w)
            && w.over {
            assert(holds_long(p, v@[i as int], now_ms));
            assert(is_first_hold(p, v@, now_ms, i as int));
            let r = hold(w, p.hard_stop(&w.status), prio);
            assert(r@ == held(v@[i as int], p.stops(v@[i as int].status), prio));
            return r;
        }
        i = i + 1;
    }
    let windows = p.windows();
    if let Some(k) = find_window(v, windows.short.limit_id) {
        let w = &v[k];
        if is_known(p, w) && capacity::is_running(w.resets_at, now_ms) && w.over {
            assert(holds_short(p, v@[k as int], now_ms));
            let r = hold(w, text::opt_is(&w.status, "exhausted"), prio);
            assert(r@ == held(
                v@[k as int],
                text::opt_text(v@[k as int].status) == Some("exhausted"@),
                prio,
            ));
            return r;
        }
        assert forall|i: int| is_at(v@, p.short_id(), i) implies !holds_short(p, #[trigger] v@[i], now_ms) by {
            if i < k {
                assert(v@[i].limit_id@ != p.short_id());
            }
            if i > k {
                assert(v@[k as int].limit_id@ != p.short_id());
            }
        }
    }
    Verdict::Granted {
        cap_tokens: compute_headroom(p, v, prio, now_ms),
        reason: "ok".to_owned(),
    }
}

/// The grant of prioritized work where background work is granted: at least
/// as much.
pub open spec fn raised(normal: VerdictView, full: Option<i64>) -> VerdictView {
    match (full, normal) {
        (Some(f), VerdictView::Granted { cap_tokens: None, .. }) => VerdictView::Granted {
            cap_tokens: Some(f),
            reason: "ok"@,
        },
        (Some(f), VerdictView::Granted { cap_tokens: Some(n), .. }) => if f > n {
            VerdictView::Granted { cap_tokens: Some(f), reason: "ok"@ }
        } else {
            normal
        },
        _ => normal,
    }
}

/// Both verdicts on a job.
pub fn decide_with_windows(p: LlmProvider, v: &Vec<WindowFacts>, now_ms: i64) -> (r: Outlook)
    ensures
        is_verdict(p, v@, false, now_ms, r.normal@),
        r.normal@ is Granted ==> r.prioritized@ == raised(
            r.normal@,
            headroom(p, v@, true, now_ms),
        ),
        r.normal@ is Denied ==> is_verdict(p, v@, true, now_ms, r.prioritized@),
        r.well_formed(),
{
    let normal = decide_inner(p, v, false, now_ms);
    let prioritized = match &normal {
        Verdict::Granted { cap_tokens, .. } => {
            let full = compute_headroom(p, v, true, now_ms);
            match (full, *cap_tokens) {
                (Some(f), None) => Verdict::Granted { cap_tokens: Some(f), reason: "ok".to_owned() },
                (Some(f), Some(n)) => if f > n {
                    Verdict::Granted { cap_tokens: Some(f), reason: "ok".to_owned() }
                } else {
                    normal.copy()
                },
                _ => normal.copy(),
            }
        },
        Verdict::Denied { .. } => decide_inner(p, v, true, now_ms),
    };
    Outlook { normal, prioritized }
}

// ---------------------------------------------------------------------
// Keeping the readings fresh
// ---------------------------------------------------------------------

/// Whether a rise of a window since its last observation tells what a token
/// costs: within one period, with tokens spent in between.
pub open spec fn tells(period: Option<i64>, rose: bool, now_ms: i64, last_at: i64, tokens: i64) -> bool {
    period matches Some(len) && rose && now_ms - last_at <= len && tokens > 0
}

pub fn calibrates(period: Option<i64>, rose: bool, now_ms: i64, last_at: i64, tokens: i64) -> (r: bool)
    ensures
        r == tells(period, rose, now_ms, last_at, tokens),
{
    match period {
        Some(len) => rose && now_ms as i128 - last_at as i128 <= len as i128 && tokens > 0,
        None => false,
    }
}

/// Makes the provider's usage be read anew.
pub fn invalidate_args(omp: &str, p: LlmProvider) -> (r: Vec<String>)
    ensures
        text::texts(r@) == seq![omp@, "usage"@, "invalidate"@, "--provider"@, p.text()],
{
    let mut v = text::no_texts();
    text::add_text(&mut v, omp);
    text::add_text(&mut v, "usage");
    text::add_text(&mut v, "invalidate");
    text::add_text(&mut v, "--provider");
    text::add_text(&mut v, p.name());
    v
}

/// Reads the provider's usage.
pub fn usage_args(omp: &str, p: LlmProvider) -> (r: Vec<String>)
    ensures
        text::texts(r@) == seq![omp@, "usage"@, "--provider"@, p.text()],
{
    let mut v = text::no_texts();
    text::add_text(&mut v, omp);
    text::add_text(&mut v, "usage");
    text::add_text(&mut v, "--provider");
    text::add_text(&mut v, p.name());
    v
}

// ---------------------------------------------------------------------
// The status
// ---------------------------------------------------------------------

/// What a window is called.
pub open spec fn label(p: LlmProvider, id: Seq<char>) -> Seq<char> {
    if id == p.short_id() {
        "5h window"@
    } else if id == p.long_id() {
        "7d window"@
    } else {
        text::without(id, "anthropic:"@) + " window"@
    }
}

pub fn window_label(p: LlmProvider, id: &str) -> (r: String)
    ensures
        r@ == label(p, id@),
{
    let w = p.windows();
    if text::same(id, w.short.limit_id) {
        "5h window".to_owned()
    } else if text::same(id, w.long.limit_id) {
        "7d window".to_owned()
    } else {
        proof {
            reveal_strlit("anthropic:");
        }
        text::remove_all(id, "anthropic:").concat(" window")
    }
}

/// Two digits at least.
pub open spec fn two_digits(n: nat) -> Seq<char> {
    if n < 10 { "0"@ + text::nat_text(n) } else { text::nat_text(n) }
}

fn pad_two(n: u64) -> (r: String)
    ensures
        r@ == two_digits(n as nat),
{
    if n < 10 {
        "0".to_owned().concat(text::u64_to_text(n).as_str())
    } else {
        text::u64_to_text(n)
    }
}

/// When a window ends, and how long that is from now.
pub open spec fn reset_note(resets_at: Option<i64>, now_ms: i64) -> Seq<char> {
    match resets_at {
        None => "reset unknown"@,
        Some(r) => if r > now_ms {
            let left = (r - now_ms) as nat;
            let hours = left / 3_600_000;
            let minutes = left % 3_600_000 / 60_000;
            "resets <time data-ms=\""@ + text::int_text(r as int) + "\"></time> ("@ + (if hours > 0 {
                text::nat_text(hours) + "h"@ + two_digits(minutes) + "m"@
            } else {
                text::nat_text(minutes) + "m"@
            }) + ")"@
        } else {
            "resetting"@
        },
    }
}

pub fn reset_text(resets_at: Option<i64>, now_ms: i64) -> (r: String)
    requires
        resets_at matches Some(r) ==> harness::in_range(r - now_ms),
    ensures
        r@ == reset_note(resets_at, now_ms),
{
    match resets_at {
        None => "reset unknown".to_owned(),
        Some(at) => if at > now_ms {
            let left: u64 = (at - now_ms) as u64;
            let hours: u64 = left / 3_600_000;
            let minutes: u64 = left % 3_600_000 / 60_000;
            let countdown: String = if hours > 0 {
                text::u64_to_text(hours).concat("h").concat(pad_two(minutes).as_str()).concat("m")
            } else {
                text::u64_to_text(minutes).concat("m")
            };
            "resets <time data-ms=\"".to_owned().concat(text::int_to_text(at).as_str()).concat(
                "\"></time> (",
            ).concat(&countdown).concat(")")
        } else {
            "resetting".to_owned()
        },
    }
}

/// The parts of a window's bar.
pub struct Bar {
    pub label: String,
    pub used: String,
    pub in_flight: String,
    pub available: String,
    pub stale: bool,
    pub exhausted: bool,
    pub fill_pct: u8,
    pub soft_pct: u8,
    pub ramp_pct: Option<u8>,
    pub reset: String,
    pub headroom: String,
    pub probed: String,
}

/// How a bar is coloured.
pub open spec fn tone(stale: bool, exhausted: bool) -> Seq<char> {
    if stale { "stale"@ } else if exhausted { "bad"@ } else { "ok"@ }
}

/// The mark on a bar of what is allowed now.
pub open spec fn marker(ramp_pct: Option<u8>) -> Seq<char> {
    match ramp_pct {
        Some(n) => if n > 0 {
            "<i class=\"scv-ramp\" style=\"left:"@ + text::nat_text(n as nat) + "%\"></i>"@
        } else {
            ""@
        },
        None => ""@,
    }
}

/// The markup of a window's bar. The reset note is markup itself.
pub open spec fn bar_markup(b: Bar) -> Seq<char> {
    "<div class=\"scv-win\"><div class=\"scv-lab\"><b>"@ + backend::escaped(b.label@) + "</b><span>"@
        + backend::escaped(b.used@) + " used"@ + backend::escaped(b.in_flight@) + backend::escaped(
        b.available@,
    ) + (if b.stale { " \u{26a0}\u{fe0f}stale"@ } else { ""@ })
        + "</span></div><div class=\"scv-bar\"><i class=\"scv-fill scv-"@ + tone(b.stale, b.exhausted)
        + "\" style=\"width:"@ + text::nat_text(b.fill_pct as nat)
        + "%\"></i><i class=\"scv-soft\" style=\"width:"@ + text::nat_text(b.soft_pct as nat)
        + "%\"></i>"@ + marker(b.ramp_pct) + "</div><div class=\"scv-sub\">"@ + b.reset@
        + backend::escaped(b.headroom@) + " \u{00b7} probed "@ + backend::escaped(b.probed@)
        + "</div></div>"@
}

fn mark(ramp_pct: Option<u8>) -> (r: String)
    ensures
        r@ == marker(ramp_pct),
{
    match ramp_pct {
        Some(n) => if n > 0 {
            "<i class=\"scv-ramp\" style=\"left:".to_owned().concat(
                text::u64_to_text(n as u64).as_str(),
            ).concat("%\"></i>")
        } else {
            "".to_owned()
        },
        None => "".to_owned(),
    }
}

pub fn render_bar(b: &Bar) -> (r: String)
    ensures
        r@ == bar_markup(*b),
{
    let tone: &str = if b.stale {
        "stale"
    } else if b.exhausted {
        "bad"
    } else {
        "ok"
    };
    let stale: &str = if b.stale {
        " \u{26a0}\u{fe0f}stale"
    } else {
        ""
    };
    "<div class=\"scv-win\"><div class=\"scv-lab\"><b>".to_owned().concat(
        backend::esc(&b.label).as_str(),
    ).concat("</b><span>").concat(backend::esc(&b.used).as_str()).concat(" used").concat(
        backend::esc(&b.in_flight).as_str(),
    ).concat(backend::esc(&b.available).as_str()).concat(stale).concat(
        "</span></div><div class=\"scv-bar\"><i class=\"scv-fill scv-",
    ).concat(tone).concat("\" style=\"width:").concat(
        text::u64_to_text(b.fill_pct as u64).as_str(),
    ).concat("%\"></i><i class=\"scv-soft\" style=\"width:").concat(
        text::u64_to_text(b.soft_pct as u64).as_str(),
    ).concat("%\"></i>").concat(mark(b.ramp_pct).as_str()).concat(
        "</div><div class=\"scv-sub\">",
    ).concat(&b.reset).concat(backend::esc(&b.headroom).as_str()).concat(
        " \u{00b7} probed ",
    ).concat(backend::esc(&b.probed).as_str()).concat("</div></div>")
}

/// The bars of all windows, or that there are none.
pub open spec fn status(bars: Seq<Bar>) -> Seq<char> {
    if bars.len() == 0 {
        "<div class=\"scv-note\">No window data available</div>"@
    } else {
        text::join(bars.map_values(|b: Bar| bar_markup(b)), "\n"@)
    }
}

pub fn render_status(bars: &Vec<Bar>) -> (r: String)
    ensures
        r@ == status(bars@),
{
    if bars.len() == 0 {
        return backend::no_window_data();
    }
    let mut v = text::no_texts();
    let mut i: usize = 0;
    while i < bars.len()
        invariant
            i <= bars@.len(),
            text::texts(v@) == bars@.take(i as int).map_values(|b: Bar| bar_markup(b)),
        decreases bars@.len() - i,
    {
        let m = render_bar(&bars[i]);
        text::add_text(&mut v, &m);
        assert(text::texts(v@) =~= bars@.take(i + 1).map_values(|b: Bar| bar_markup(b)));
        i = i + 1;
    }
    assert(bars@.take(bars@.len() as int) =~= bars@);
    text::join_texts(&v, "\n")
}

// ---------------------------------------------------------------------
// Laws
// ---------------------------------------------------------------------

/// Prioritized work is judged at least as mildly as background work.
pub proof fn law_priority_is_at_least_as_mild(normal: VerdictView, full: Option<i64>)
    requires
        normal is Granted,
    ensures
        raised(normal, full) is Granted,
        normal matches VerdictView::Granted { cap_tokens: Some(n), .. } ==> raised(normal, full) matches
            VerdictView::Granted { cap_tokens: Some(f), .. } && f >= n,
{
}

/// Without a reading nothing is granted, whatever the priority.
pub proof fn law_no_data_is_denied(p: LlmProvider, prio: bool, now_ms: i64, r: VerdictView)
    requires
        is_verdict(p, Seq::empty(), prio, now_ms, r),
    ensures
        r is Denied,
{
}

/// An exhausted long window that is over stops even prioritized work, until
/// it ends.
pub proof fn law_exhausted_window_stops_all(p: LlmProvider, v: Seq<WindowFacts>, prio: bool, now_ms: i64, i: int, r: VerdictView)
    requires
        is_first_hold(p, v, now_ms, i),
        p.stops(v[i].status),
        is_verdict(p, v, prio, now_ms, r),
    ensures
        r matches VerdictView::Denied { retry_at, .. } && retry_at == v[i].resets_at,
{
    assert(holds_long(p, v[i], now_ms));
    let k = choose|k: int| is_first_hold(p, v, now_ms, k) && r == held(#[trigger] v[k], p.stops(v[k].status), prio);
    assert(holds_long(p, v[k], now_ms));
    assert(k == i);
}

/// What is granted without an override fits every window that bounds it.
pub proof fn law_headroom_is_within_every_window(p: LlmProvider, v: Seq<WindowFacts>, prio: bool, now_ms: i64, i: int)
    requires
        0 <= i < v.len(),
        bound(p, v[i], prio, now_ms) is Some,
    ensures
        headroom(p, v, prio, now_ms) matches Some(h) && h <= bound(p, v[i], prio, now_ms)->0,
    decreases v.len(),
{
    if i < v.len() - 1 {
        law_headroom_is_within_every_window(p, v.drop_last(), prio, now_ms, i);
    }
}

/// A window of known use: a fraction is reported, or Anthropic says that it
/// is exhausted.
pub open spec fn reports_use(p: LlmProvider, w: WindowFacts) -> bool {
    w.has_fraction || (p == LlmProvider::Anthropic && (w.status matches Some(s) && s@
        == "exhausted"@))
}

/// A window that lasts a week, by its name.
pub open spec fn weekly(p: LlmProvider, w: WindowFacts) -> bool {
    match p {
        LlmProvider::Anthropic => w.limit_id@.len() >= 12 && w.limit_id@.take(12) == "anthropic:7d"@,
        LlmProvider::OpenAiCodex => w.limit_id@ == "openai-codex:secondary"@,
    }
}

/// A window that lasts five hours, by its name.
pub open spec fn five_hourly(p: LlmProvider, w: WindowFacts) -> bool {
    match p {
        LlmProvider::Anthropic => w.limit_id@ == "anthropic:5h"@,
        LlmProvider::OpenAiCodex => w.limit_id@ == "openai-codex:primary"@,
    }
}

/// A window that limits what a job may use: a weekly one of known use, or the
/// five-hour one of known use that has not reset yet.
pub open spec fn limits(p: LlmProvider, w: WindowFacts, now_ms: i64) -> bool {
    reports_use(p, w) && (weekly(p, w) || (five_hourly(p, w) && (w.resets_at matches Some(at) && at
        != 0 && at > now_ms)))
}

proof fn lemma_window_names(p: LlmProvider, w: WindowFacts)
    ensures
        known(p, w) == reports_use(p, w),
        p.long(w.limit_id@) == weekly(p, w),
        (w.limit_id@ == p.short_id()) == five_hourly(p, w),
        !(weekly(p, w) && five_hourly(p, w)),
{
    reveal_strlit("anthropic:5h");
    reveal_strlit("anthropic:7d");
    reveal_strlit("openai-codex:primary");
    reveal_strlit("openai-codex:secondary");
    let id = w.limit_id@;
    if id.len() >= 12 {
        assert(id.take(12) == "anthropic:7d"@ <==> "anthropic:7d"@.is_prefix_of(id)) by {
            assert(id.take(12) =~= id.subrange(0, 12));
        }
    }
    assert("anthropic:5h"@[10] == '5');
    assert("anthropic:7d"@[10] == '7');
    assert("openai-codex:primary"@.len() == 20);
    assert("openai-codex:secondary"@.len() == 22);
}

/// What is left for a job is no more than any limiting window leaves: the
/// ramp's share of background work, the whole rest of prioritized work. Where
/// there is a bound at all, one of these windows sets it.
pub proof fn law_headroom_is_the_least_cap(p: LlmProvider, v: Seq<WindowFacts>, prio: bool, now_ms: i64)
    ensures
        forall|i: int|
            0 <= i < v.len() && limits(p, #[trigger] v[i], now_ms) ==> (headroom(p, v, prio, now_ms) matches Some(h)
                && h <= (if prio { v[i].full_cap } else { v[i].ramp_cap })),
        headroom(p, v, prio, now_ms) matches Some(h) ==> exists|i: int|
            0 <= i < v.len() && limits(p, #[trigger] v[i], now_ms) && h == (if prio {
                v[i].full_cap
            } else {
                v[i].ramp_cap
            }),
    decreases v.len(),
{
    if v.len() > 0 {
        let rest = v.drop_last();
        let n = v.len() - 1;
        law_headroom_is_the_least_cap(p, rest, prio, now_ms);
        lemma_window_names(p, v.last());
        assert(v.last() == v[n]);
        assert(limits(p, v[n], now_ms) <==> bound(p, v[n], prio, now_ms) is Some);
        assert forall|i: int| 0 <= i < v.len() && limits(p, #[trigger] v[i], now_ms) implies (headroom(
            p,
            v,
            prio,
            now_ms,
        ) matches Some(h) && h <= (if prio { v[i].full_cap } else { v[i].ramp_cap })) by {
            if i < n {
                assert(rest[i] == v[i]);
            }
        }
        if let Some(h) = headroom(p, v, prio, now_ms) {
            if headroom(p, rest, prio, now_ms) == Some(h) {
                let i = choose|i: int|
                    0 <= i < rest.len() && limits(p, #[trigger] rest[i], now_ms) && h == (if prio {
                        rest[i].full_cap
                    } else {
                        rest[i].ramp_cap
                    });
                assert(rest[i] == v[i]);
            }
        }
    }
}

/// Whether a window is full for the job under decision: what is used and
/// reserved is at or over what it allows now.
pub open spec fn is_full(p: LlmProvider, v: Seq<WindowFacts>, now_ms: i64, i: int) -> bool {
    &&& 0 <= i < v.len()
    &&& reports_use(p, v[i])
    &&& v[i].over
    &&& {
        ||| weekly(p, v[i]) && !(v[i].resets_at matches Some(at) && 0 < at <= now_ms)
        ||| five_hourly(p, v[i]) && (v[i].resets_at matches Some(at) && at != 0 && at > now_ms)
    }
}

/// Whether no two windows have one name.
pub open spec fn names_differ(v: Seq<WindowFacts>) -> bool {
    forall|i: int, j: int|
        0 <= i < j < v.len() ==> (#[trigger] v[i]).limit_id@ != (#[trigger] v[j]).limit_id@
}

/// Background work is granted where something was read and no window is full,
/// and only there. It may then use what the windows leave.
pub proof fn law_background_work_needs_room(p: LlmProvider, v: Seq<WindowFacts>, now_ms: i64, r: VerdictView)
    requires
        names_differ(v),
        is_verdict(p, v, false, now_ms, r),
    ensures
        r is Granted <==> v.len() > 0 && forall|i: int|
            0 <= i < v.len() ==> !#[trigger] is_full(p, v, now_ms, i),
        r matches VerdictView::Granted { cap_tokens, reason } ==> cap_tokens == headroom(p, v, false, now_ms)
            && reason == "ok"@,
        v.len() == 0 ==> r == (VerdictView::Denied {
            reason: "no window data -- deny until fresh"@,
            retry_at: None,
        }),
        v.len() > 0 ==> (r matches VerdictView::Denied { reason, retry_at } ==> exists|i: int| #[trigger]
            is_full(p, v, now_ms, i) && reason == v[i].reason@ && (retry_at == v[i].retry_at || (retry_at
                == v[i].resets_at && (v[i].status matches Some(s) && s@ == "exhausted"@)))),
{
    lemma_full_windows(p, v, now_ms);
    if v.len() > 0 && !no_long_hold(p, v, now_ms) {
        let i = choose|i: int|
            is_first_hold(p, v, now_ms, i) && r == held(#[trigger] v[i], p.stops(v[i].status), false);
        assert(holds_long(p, v[i], now_ms));
        assert(is_full(p, v, now_ms, i));
    } else if v.len() > 0 && exists|i: int|
        is_at(v, p.short_id(), i) && holds_short(p, #[trigger] v[i], now_ms) {
        let k = choose|i: int| is_at(v, p.short_id(), i) && holds_short(p, #[trigger] v[i], now_ms);
        let i = choose|i: int|
            is_at(v, p.short_id(), i) && r == held(
                #[trigger] v[i],
                text::opt_text(v[i].status) == Some("exhausted"@),
                false,
            );
        assert(i == k) by {
            if i < k {
                assert(v[i].limit_id@ != p.short_id());
            }
            if k < i {
                assert(v[k].limit_id@ != p.short_id());
            }
        }
        assert(is_full(p, v, now_ms, i));
    }
}

/// A full window that is exhausted stops prioritized work too. Any other
/// leaves it what is left of the window, where that is anything; the first
/// full window decides, a weekly one before the five-hour one.
pub proof fn law_prioritized_work_uses_the_rest(
    p: LlmProvider,
    v: Seq<WindowFacts>,
    now_ms: i64,
    i: int,
    r: VerdictView,
)
    requires
        names_differ(v),
        is_full(p, v, now_ms, i),
        forall|j: int|
            #[trigger] is_full(p, v, now_ms, j) && j != i ==> (if weekly(p, v[i]) {
                i < j || five_hourly(p, v[j])
            } else {
                five_hourly(p, v[j])
            }),
        is_verdict(p, v, true, now_ms, r),
    ensures
        ({
            let exhausted = (v[i].status matches Some(s) && s@ == "exhausted"@) && (five_hourly(p, v[i])
                || p == LlmProvider::Anthropic);
            if exhausted {
                r == VerdictView::Denied { reason: v[i].reason@, retry_at: v[i].resets_at }
            } else if v[i].override_cap > 0 {
                r matches VerdictView::Granted { cap_tokens, .. } && cap_tokens == Some(v[i].override_cap)
            } else {
                r == VerdictView::Denied { reason: v[i].reason@, retry_at: v[i].retry_at }
            }
        }),
{
    lemma_full_windows(p, v, now_ms);
    lemma_window_names(p, v[i]);
    if weekly(p, v[i]) {
        assert(holds_long(p, v[i], now_ms));
        let k = choose|k: int|
            is_first_hold(p, v, now_ms, k) && r == held(#[trigger] v[k], p.stops(v[k].status), true);
        assert(is_full(p, v, now_ms, k));
        lemma_window_names(p, v[k]);
        assert(k == i);
    } else {
        assert(no_long_hold(p, v, now_ms)) by {
            assert forall|j: int| 0 <= j < v.len() implies !holds_long(p, #[trigger] v[j], now_ms) by {
                lemma_window_names(p, v[j]);
                if holds_long(p, v[j], now_ms) {
                    assert(is_full(p, v, now_ms, j));
                }
            }
        }
        assert(is_at(v, p.short_id(), i) && holds_short(p, v[i], now_ms));
        let k = choose|k: int|
            is_at(v, p.short_id(), k) && r == held(
                #[trigger] v[k],
                text::opt_text(v[k].status) == Some("exhausted"@),
                true,
            );
        assert(k == i) by {
            if k < i {
                assert(v[k].limit_id@ != p.short_id());
            }
            if i < k {
                assert(v[i].limit_id@ != p.short_id());
            }
        }
    }
}

/// A full window is one that holds the job back.
proof fn lemma_full_windows(p: LlmProvider, v: Seq<WindowFacts>, now_ms: i64)
    requires
        names_differ(v),
    ensures
        forall|i: int|
            #[trigger] is_full(p, v, now_ms, i) <==> 0 <= i < v.len() && (holds_long(p, v[i], now_ms) || (is_at(
                v,
                p.short_id(),
                i,
            ) && holds_short(p, v[i], now_ms))),
{
    assert forall|i: int|
        #[trigger] is_full(p, v, now_ms, i) <==> 0 <= i < v.len() && (holds_long(p, v[i], now_ms) || (is_at(
            v,
            p.short_id(),
            i,
        ) && holds_short(p, v[i], now_ms))) by {
        if 0 <= i < v.len() {
            lemma_window_names(p, v[i]);
            if five_hourly(p, v[i]) {
                assert(is_at(v, p.short_id(), i)) by {
                    assert forall|j: int| 0 <= j < i implies (#[trigger] v[j]).limit_id@ != p.short_id() by {
                        assert(v[j].limit_id@ != v[i].limit_id@);
                    }
                }
            }
        }
    }
}

/// Where background work is granted, prioritized work may use the whole rest
/// of the windows, and never less.
pub proof fn law_priority_raises_the_cap(normal: VerdictView, full: Option<i64>)
    requires
        normal is Granted,
    ensures
        raised(normal, full) matches VerdictView::Granted { cap_tokens, .. } && ({
            let had = normal->cap_tokens;
            &&& had is None && full is None ==> cap_tokens is None
            &&& cap_tokens == had || cap_tokens == full
            &&& had matches Some(n) ==> cap_tokens matches Some(c) && c >= n
            &&& full matches Some(f) ==> cap_tokens matches Some(c) && c >= f
        }),
{
}

/// Finished jobs are counted from the time that the window itself was read;
/// where it was not, from the earliest reading of any window.
pub proof fn law_earliest_reading(v: Seq<WindowFacts>)
    requires
        v.len() > 0,
    ensures
        forall|i: int| 0 <= i < v.len() ==> earliest(v) <= (#[trigger] v[i]).recorded_at,
        exists|i: int| 0 <= i < v.len() && earliest(v) == (#[trigger] v[i]).recorded_at,
    decreases v.len(),
{
    if v.len() > 1 {
        let rest = v.drop_last();
        law_earliest_reading(rest);
        let k = choose|k: int| 0 <= k < rest.len() && earliest(rest) == (#[trigger] rest[k]).recorded_at;
        assert(rest[k] == v[k]);
        assert forall|i: int| 0 <= i < v.len() implies earliest(v) <= (#[trigger] v[i]).recorded_at by {
            if i < v.len() - 1 {
                assert(rest[i] == v[i]);
            }
        }
    } else {
        assert(v[0].recorded_at == earliest(v));
    }
}

/// A rise of a window tells what a token costs only within one period, and
/// only where tokens were spent.
pub proof fn law_only_a_rise_within_the_period_tells(
    period: Option<i64>,
    rose: bool,
    now_ms: i64,
    last_at: i64,
    tokens: i64,
)
    ensures
        tells(period, rose, now_ms, last_at, tokens) ==> rose && tokens > 0 && period is Some && last_at
            + period->0 >= now_ms,
        rose && tokens > 0 && (period matches Some(len) && now_ms <= last_at + len) ==> tells(
            period,
            rose,
            now_ms,
            last_at,
            tokens,
        ),
{
}

/// The countdown of a window is the time that is left, in whole hours and
/// minutes; a window whose end is not ahead is resetting.
pub proof fn law_countdown_is_the_time_left(at: i64, now_ms: i64, hours: nat, minutes: nat)
    requires
        minutes < 60,
    ensures
        at <= now_ms ==> reset_note(Some(at), now_ms) == "resetting"@,
        reset_note(None, now_ms) == "reset unknown"@,
        at > now_ms && hours * 3_600_000 + minutes * 60_000 <= at - now_ms < hours * 3_600_000 + minutes * 60_000
            + 60_000 ==> reset_note(Some(at), now_ms) == "resets <time data-ms=\""@ + text::int_text(at as int)
            + "\"></time> ("@ + (if hours > 0 {
            text::nat_text(hours) + "h"@ + (if minutes < 10 {
                "0"@ + text::nat_text(minutes)
            } else {
                text::nat_text(minutes)
            }) + "m"@
        } else {
            text::nat_text(minutes) + "m"@
        }) + ")"@,
{
    if at > now_ms && hours * 3_600_000 + minutes * 60_000 <= at - now_ms < hours * 3_600_000 + minutes * 60_000
        + 60_000 {
        let left = (at - now_ms) as nat;
        assert(left / 3_600_000 == hours);
        assert(left % 3_600_000 == left - hours * 3_600_000);
        assert(left % 3_600_000 / 60_000 == minutes);
    }
}

/// The windows of a provider are called by their length, by their own names.
pub proof fn law_windows_are_called_by_their_length()
    ensures
        label(LlmProvider::Anthropic, "anthropic:5h"@) == "5h window"@,
        label(LlmProvider::Anthropic, "anthropic:7d"@) == "7d window"@,
        label(LlmProvider::OpenAiCodex, "openai-codex:primary"@) == "5h window"@,
        label(LlmProvider::OpenAiCodex, "openai-codex:secondary"@) == "7d window"@,
{
    reveal_strlit("anthropic:5h");
    reveal_strlit("anthropic:7d");
    reveal_strlit("openai-codex:primary");
    reveal_strlit("openai-codex:secondary");
    assert("anthropic:5h"@[10] == '5');
    assert("anthropic:7d"@[10] == '7');
    assert("openai-codex:primary"@.len() == 20);
    assert("openai-codex:secondary"@.len() == 22);
}

} // verus!
