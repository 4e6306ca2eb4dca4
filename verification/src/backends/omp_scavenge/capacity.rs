//! Usage windows as they were last seen, carried on to the current cycle.

use vstd::prelude::*;
use crate::backends::omp_scavenge::provider::{FIVE_H_MS, LlmProvider, WEEK_MS};
use crate::text;

verus! {

/// The part at the start of a short window that is left to people.
pub const HEADROOM_MS: i64 = 1_800_000;

/// How long the short window's allowance grows.
pub const RAMP_MS: i64 = 16_200_000;

/// What becomes of a window that was read.
#[allow(inconsistent_fields)]
#[derive(Debug, Clone, Copy, PartialEq, Eq, Structural)]
pub enum Rolled {
    /// It is still running, or has no end: as it was read.
    Keep,
    /// It ended, and it is not known when the next one ends.
    Drop,
    /// It ended: this is the current one, of which nothing is used.
    Forward { resets_at: i64, recorded_at: i64 },
}

/// How long a provider's window lasts.
pub open spec fn period(p: LlmProvider, limit_id: Seq<char>) -> Option<i64> {
    if limit_id == p.short_id() {
        Some(FIVE_H_MS)
    } else if limit_id == p.long_id() {
        Some(WEEK_MS)
    } else {
        None
    }
}

pub fn period_of(p: LlmProvider, limit_id: &str) -> (r: Option<i64>)
    ensures
        r == period(p, limit_id@),
{
    let w = p.windows();
    if text::same(limit_id, w.short.limit_id) {
        Some(w.short.period_ms)
    } else if text::same(limit_id, w.long.limit_id) {
        Some(w.long.period_ms)
    } else {
        None
    }
}

/// Whether a window ended: it has an end, and that is past.
pub open spec fn ended(resets_at: Option<i64>, now_ms: i64) -> bool {
    resets_at matches Some(r) && 0 < r <= now_ms
}

pub fn has_ended(resets_at: Option<i64>, now_ms: i64) -> (r: bool)
    ensures
        r == ended(resets_at, now_ms),
{
    match resets_at {
        Some(r) => r > 0 && r <= now_ms,
        None => false,
    }
}

/// The start of the current cycle, of the cycles of length `p` that end at
/// `r`: the last end that is not after `now`.
pub open spec fn is_cycle_start(r: int, p: int, now: int, start: int) -> bool {
    start <= now < start + p && exists|k: int| k >= 0 && start == r + #[trigger] (k * p)
}

/// What becomes of a window: an ended one is carried on, cycle by cycle.
pub open spec fn is_rolled(p: LlmProvider, limit_id: Seq<char>, resets_at: Option<i64>, now_ms: i64, r: Rolled) -> bool {
    if !ended(resets_at, now_ms) {
        r == Rolled::Keep
    } else {
        match period(p, limit_id) {
            None => r == Rolled::Drop,
            Some(len) => r matches Rolled::Forward { resets_at: next, recorded_at: start }
                && is_cycle_start(resets_at->0 as int, len as int, now_ms as int, start as int) && next
                == start + len,
        }
    }
}

/// What becomes of a window that was read.
pub fn roll_window(p: LlmProvider, limit_id: &str, resets_at: Option<i64>, now_ms: i64) -> (r: Rolled)
    requires
        now_ms <= i64::MAX - WEEK_MS,
    ensures
        is_rolled(p, limit_id@, resets_at, now_ms, r),
{
    match resets_at {
        Some(end) => if end > 0 && end <= now_ms {
            match period_of(p, limit_id) {
                None => Rolled::Drop,
                Some(len) => {
                    let past: i64 = now_ms - end;
                    let start: i64 = now_ms - past % len;
                    proof {
                        let k = past as int / len as int;
                        vstd::arithmetic::div_mod::lemma_fundamental_div_mod(past as int, len as int);
                        assert(len * k == k * len) by (nonlinear_arith);
                        assert(start == end + k * len);
                        assert(k >= 0);
                    }
                    Rolled::Forward { resets_at: start + len, recorded_at: start }
                },
            }
        } else {
            Rolled::Keep
        },
        None => Rolled::Keep,
    }
}

/// Whether a short window is running: it has an end, and that is to come.
pub open spec fn running(resets_at: Option<i64>, now_ms: i64) -> bool {
    resets_at matches Some(r) && r != 0 && r > now_ms
}

pub fn is_running(resets_at: Option<i64>, now_ms: i64) -> (r: bool)
    ensures
        r == running(resets_at, now_ms),
{
    match resets_at {
        Some(r) => r != 0 && r > now_ms,
        None => false,
    }
}

/// The current cycle is the only one: its start is determined by the end that
/// was read.
pub proof fn law_current_cycle_is_unique(r: int, p: int, now: int, a: int, b: int)
    requires
        p > 0,
        is_cycle_start(r, p, now, a),
        is_cycle_start(r, p, now, b),
    ensures
        a == b,
{
    let i = choose|k: int| k >= 0 && a == r + #[trigger] (k * p);
    let j = choose|k: int| k >= 0 && b == r + #[trigger] (k * p);
    assert(i == j) by (nonlinear_arith)
        requires
            p > 0,
            r + i * p <= now < r + i * p + p,
            r + j * p <= now < r + j * p + p,
    ;
}

/// A window that was carried on is running.
pub proof fn law_rolled_window_runs(p: LlmProvider, limit_id: Seq<char>, resets_at: Option<i64>, now_ms: i64, r: Rolled)
    requires
        is_rolled(p, limit_id, resets_at, now_ms, r),
        r is Forward,
    ensures
        r matches Rolled::Forward { resets_at: next, .. } && running(Some(next), now_ms),
{
}

/// An ended window is carried on to its current cycle by its own length: five
/// hours of a short one, a week of a long one. The new end lies ahead, a whole
/// number of cycles after the old. A window without a known length is dropped,
/// one that has not ended is kept.
pub proof fn law_ended_window_is_carried_on(
    p: LlmProvider,
    limit_id: Seq<char>,
    resets_at: Option<i64>,
    now_ms: i64,
    r: Rolled,
)
    requires
        is_rolled(p, limit_id, resets_at, now_ms, r),
    ensures
        ({
            let past = resets_at matches Some(at) && at > 0 && at <= now_ms;
            let short = limit_id == (match p {
                LlmProvider::Anthropic => "anthropic:5h"@,
                LlmProvider::OpenAiCodex => "openai-codex:primary"@,
            });
            let long = limit_id == (match p {
                LlmProvider::Anthropic => "anthropic:7d"@,
                LlmProvider::OpenAiCodex => "openai-codex:secondary"@,
            });
            &&& r is Keep <==> !past
            &&& r is Drop <==> past && !short && !long
            &&& r matches Rolled::Forward { resets_at: next, recorded_at } ==> {
                &&& recorded_at <= now_ms < next
                &&& short ==> next - recorded_at == 18_000_000
                &&& long ==> next - recorded_at == 604_800_000
                &&& exists|k: int| k > 0 && next == resets_at->0 + #[trigger] (k * (next - recorded_at))
            }
        }),
{
    reveal_strlit("anthropic:5h");
    reveal_strlit("anthropic:7d");
    reveal_strlit("openai-codex:primary");
    reveal_strlit("openai-codex:secondary");
    assert("anthropic:5h"@[10] == '5');
    assert("anthropic:7d"@[10] == '7');
    assert("openai-codex:primary"@.len() == 20);
    assert("openai-codex:secondary"@.len() == 22);
    if let Rolled::Forward { resets_at: next, recorded_at } = r {
        let len = period(p, limit_id)->0 as int;
        let k = choose|k: int| k >= 0 && recorded_at == resets_at->0 + #[trigger] (k * len);
        assert((k + 1) * len == k * len + len) by (nonlinear_arith);
        assert(next == resets_at->0 + (k + 1) * (next - recorded_at));
    }
}

} // verus!
