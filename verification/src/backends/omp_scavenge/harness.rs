//! The worker runner: where a run's session lies, what its ledger says, and
//! when it is stopped.
//!
//! A worker is not trusted to keep to its budget. Its session is written as
//! it runs; the runner reads it and stops the worker at the cap.

use vstd::prelude::*;
use vstd::utf8::*;
use crate::json;
use crate::json::{Json, JsonView};
use crate::text;
use crate::text::Cut;
use crate::types::RunResult;
use crate::util;

verus! {

/// How many transcripts are kept.
pub const SESSIONS_RETAINED: usize = 50;

/// Bytes of worker output that are kept.
pub const TAIL_BYTES: usize = 2000;

/// Whether a number is in the range of `i64`.
pub open spec fn in_range(n: int) -> bool {
    i64::MIN <= n <= i64::MAX
}

/// A sum that is out of range.
#[derive(Debug, Clone, Copy, PartialEq, Eq, Structural)]
pub struct Overflow;

// ---------------------------------------------------------------------
// Session directories
// ---------------------------------------------------------------------

/// The parent of the session directories.
pub fn sessions_root(work_root: &str) -> (r: String)
    ensures
        r@ == util::path_join(work_root@, "sessions"@),
{
    util::join_path(work_root, "sessions")
}

/// A directory as one name: slashes become hyphens, and the end is kept.
pub open spec fn slug(cwd: Seq<char>) -> Seq<char> {
    util::tail_text(text::trim(text::replace_char(cwd, '/', "-"@), Cut::At('-')), 150)
}

/// The name of a run's session directory.
pub open spec fn run_name(cwd: Seq<char>, spawn_ms: nat, seq: nat) -> Seq<char> {
    slug(cwd) + "--"@ + text::nat_text(spawn_ms) + "-"@ + text::nat_text(seq)
}

/// The session directory of one run. The counter `seq` is another for each
/// run of a process.
pub fn run_session_dir(work_root: &str, cwd: &str, spawn_ms: u64, seq: u64) -> (r: String)
    ensures
        r@ == util::path_join(
            util::path_join(work_root@, "sessions"@),
            run_name(cwd@, spawn_ms as nat, seq as nat),
        ),
{
    let flat = text::replace_text(cwd, '/', "-");
    let bare = text::trim_text(&flat, Cut::At('-'));
    let name = util::tail(&bare, 150).to_owned().concat("--").concat(
        text::u64_to_text(spawn_ms).as_str(),
    ).concat("-").concat(text::u64_to_text(seq).as_str());
    util::join_path(&sessions_root(work_root), &name)
}

/// How many directories come before the one at `i` when the newest comes
/// first; of two equally old the earlier in the list.
pub open spec fn newer(times: Seq<i64>, i: int, n: int) -> int
    decreases n,
{
    if n <= 0 {
        0
    } else {
        let j = n - 1;
        newer(times, i, j) + if times[j] > times[i] || (times[j] == times[i] && j < i) {
            1int
        } else {
            0
        }
    }
}

/// Whether the directory at `i` is beyond those that are kept.
pub open spec fn is_surplus(times: Seq<i64>, i: int) -> bool {
    newer(times, i, times.len() as int) >= SESSIONS_RETAINED
}

fn count_newer(times: &Vec<i64>, i: usize) -> (r: usize)
    requires
        i < times@.len(),
    ensures
        r == newer(times@, i as int, times@.len() as int),
{
    let mut n: usize = 0;
    let mut j: usize = 0;
    while j < times.len()
        invariant
            i < times@.len(),
            j <= times@.len(),
            n <= j,
            n == newer(times@, i as int, j as int),
        decreases times@.len() - j,
    {
        if times[j] > times[i] || (times[j] == times[i] && j < i) {
            n = n + 1;
        }
        j = j + 1;
    }
    n
}

/// The directories to remove, by their times of change: all but the newest.
pub fn surplus_sessions(times: &Vec<i64>) -> (r: Vec<usize>)
    ensures
        forall|k: int|
            0 <= k < r@.len() ==> (#[trigger] r@[k]) < times@.len() && is_surplus(times@, r@[k] as int),
        forall|i: int|
            0 <= i < times@.len() && is_surplus(times@, i) ==> exists|k: int|
                0 <= k < r@.len() && #[trigger] r@[k] == i,
        forall|k: int, l: int| 0 <= k < l < r@.len() ==> #[trigger] r@[k] < #[trigger] r@[l],
{
    let mut out: Vec<usize> = Vec::new();
    let mut i: usize = 0;
    while i < times.len()
        invariant
            i <= times@.len(),
            forall|k: int|
                0 <= k < out@.len() ==> (#[trigger] out@[k]) < i && is_surplus(times@, out@[k] as int),
            forall|j: int|
                0 <= j < i && is_surplus(times@, j) ==> exists|k: int|
                    0 <= k < out@.len() && #[trigger] out@[k] == j,
            forall|k: int, l: int| 0 <= k < l < out@.len() ==> #[trigger] out@[k] < #[trigger] out@[l],
        decreases times@.len() - i,
    {
        let ghost before = out@;
        if count_newer(times, i) >= SESSIONS_RETAINED {
            out.push(i);
            assert(out@[before.len() as int] == i);
            assert forall|j: int| 0 <= j < i + 1 && is_surplus(times@, j) implies exists|k: int|
                0 <= k < out@.len() && #[trigger] out@[k] == j by {
                if j < i {
                    let k = choose|k: int| 0 <= k < before.len() && #[trigger] before[k] == j;
                    assert(out@[k] == j);
                }
            }
        }
        i = i + 1;
    }
    out
}

// ---------------------------------------------------------------------
// The ledger
// ---------------------------------------------------------------------

/// What one call used.
#[derive(Debug, Clone, Copy, PartialEq, Eq, Structural)]
pub struct Usage {
    pub input: i64,
    pub output: i64,
    pub cache_read: i64,
    pub cache_write: i64,
}

/// A count of a usage record; without one it is zero.
pub open spec fn count_in(u: JsonView, name: Seq<char>) -> i64 {
    match u.int_field(name) {
        Some(n) => n,
        None => 0,
    }
}

fn read_count(u: &Json, name: &str) -> (r: i64)
    ensures
        r == count_in(u@, name@),
{
    match u.get_int(name) {
        Some(n) => n,
        None => 0,
    }
}

/// The usage that a record of a session holds: that of an assistant's
/// message.
pub open spec fn usage_in(doc: JsonView) -> Option<Usage> {
    match doc.field("message"@) {
        Some(msg) => if msg is Record && msg.text_field("role"@) == Some("assistant"@) {
            match msg.field("usage"@) {
                Some(u) => if u is Record {
                    Some(
                        Usage {
                            input: count_in(u, "input"@),
                            output: count_in(u, "output"@),
                            cache_read: count_in(u, "cacheRead"@),
                            cache_write: count_in(u, "cacheWrite"@),
                        },
                    )
                } else {
                    None
                },
                None => None,
            }
        } else {
            None
        },
        None => None,
    }
}

/// The usage that a parsed record holds.
pub fn usage_of(doc: &Json) -> (r: Option<Usage>)
    ensures
        r == usage_in(doc@),
{
    match doc.get("message") {
        Some(msg) => {
            if !msg.is_record() || !text::opt_is(&msg.get_str("role"), "assistant") {
                return None;
            }
            match msg.get("usage") {
                Some(u) => if u.is_record() {
                    Some(
                        Usage {
                            input: read_count(u, "input"),
                            output: read_count(u, "output"),
                            cache_read: read_count(u, "cacheRead"),
                            cache_write: read_count(u, "cacheWrite"),
                        },
                    )
                } else {
                    None
                },
                None => None,
            }
        },
        None => None,
    }
}

/// The usage that a line holds. A line that is still being written holds
/// none.
pub open spec fn line_usage(line: Seq<char>) -> Option<Usage> {
    match json::json_of(line) {
        Ok(doc) => usage_in(doc),
        Err(_) => None,
    }
}

/// The usages of a session's lines, in order.
pub open spec fn usages(lines: Seq<Seq<char>>) -> Seq<Usage>
    decreases lines.len(),
{
    if lines.len() == 0 {
        Seq::empty()
    } else {
        let before = usages(lines.drop_last());
        match line_usage(lines.last()) {
            Some(u) => before.push(u),
            None => before,
        }
    }
}

/// The usages of a session's lines, in order.
pub fn read_usages(lines: &Vec<String>) -> (r: Vec<Usage>)
    ensures
        r@ == usages(text::texts(lines@)),
{
    let ghost all = text::texts(lines@);
    let mut out: Vec<Usage> = Vec::new();
    let mut i: usize = 0;
    while i < lines.len()
        invariant
            i <= lines@.len(),
            all == text::texts(lines@),
            out@ == usages(all.take(i as int)),
        decreases lines@.len() - i,
    {
        proof {
            assert(all.take(i + 1).drop_last() =~= all.take(i as int));
            assert(all.take(i + 1).last() == lines@[i as int]@);
        }
        if let Ok(doc) = json::parse_json(&lines[i]) {
            if let Some(u) = usage_of(&doc) {
                out.push(u);
            }
        }
        i = i + 1;
    }
    assert(all.take(all.len() as int) =~= all);
    out
}

/// What one call added: a cache hit is no new spend.
pub open spec fn added(u: Usage) -> int {
    u.input + u.output + u.cache_write
}

/// What the calls of a session added.
pub open spec fn spent(v: Seq<Usage>) -> int
    decreases v.len(),
{
    if v.len() == 0 {
        0
    } else {
        spent(v.drop_last()) + added(v.last())
    }
}

/// Whether every step of the sum is in range.
pub open spec fn sums(v: Seq<Usage>) -> bool {
    &&& v.len() <= i64::MAX
    &&& forall|k: int|
        0 <= k < v.len() ==> in_range((#[trigger] v[k]).input + v[k].output) && in_range(added(v[k]))
    &&& forall|k: int| 0 <= k <= v.len() ==> in_range(spent(#[trigger] v.take(k)))
}

/// Tokens and calls of a session.
pub fn sum_usage(v: &Vec<Usage>) -> (r: (i64, i64))
    requires
        sums(v@),
    ensures
        r.0 == spent(v@),
        r.1 == v@.len(),
{
    let mut tokens: i64 = 0;
    let mut calls: i64 = 0;
    let mut i: usize = 0;
    while i < v.len()
        invariant
            sums(v@),
            i <= v@.len(),
            tokens == spent(v@.take(i as int)),
            calls == i,
        decreases v@.len() - i,
    {
        proof {
            assert(v@.take(i + 1).drop_last() =~= v@.take(i as int));
            assert(in_range(spent(v@.take(i + 1))));
            assert(in_range(v@[i as int].input + v@[i as int].output));
        }
        let u = v[i];
        let new: i64 = u.input + u.output + u.cache_write;
        tokens = tokens + new;
        calls = calls + 1;
        i = i + 1;
    }
    assert(v@.take(v@.len() as int) =~= v@);
    (tokens, calls)
}

fn can_sum(v: &Vec<Usage>) -> (r: bool)
    ensures
        r == sums(v@),
{
    if v.len() as u128 > i64::MAX as u128 {
        return false;
    }
    let low: i128 = i64::MIN as i128;
    let high: i128 = i64::MAX as i128;
    let mut total: i128 = 0;
    let mut i: usize = 0;
    while i < v.len()
        invariant
            low == i64::MIN,
            high == i64::MAX,
            i <= v@.len() <= i64::MAX,
            total == spent(v@.take(i as int)),
            forall|k: int|
                0 <= k < i ==> in_range((#[trigger] v@[k]).input + v@[k].output) && in_range(added(v@[k])),
            forall|k: int| 0 <= k <= i ==> in_range(spent(#[trigger] v@.take(k))),
        decreases v@.len() - i,
    {
        proof {
            assert(v@.take(i + 1).drop_last() =~= v@.take(i as int));
            assert(in_range(spent(v@.take(i as int))));
        }
        let u = v[i];
        let part: i128 = u.input as i128 + u.output as i128;
        let all: i128 = part + u.cache_write as i128;
        if part < low || part > high || all < low || all > high {
            assert(!in_range(v@[i as int].input + v@[i as int].output) || !in_range(added(v@[i as int])));
            return false;
        }
        total = total + all;
        if total < low || total > high {
            assert(!in_range(spent(v@.take(i + 1))));
            return false;
        }
        i = i + 1;
    }
    assert forall|k: int| 0 <= k <= v@.len() implies in_range(spent(#[trigger] v@.take(k))) by {}
    true
}

/// Tokens and calls of a session, from its lines.
pub fn ledger_usage(lines: &Vec<String>) -> (r: Result<(i64, i64), Overflow>)
    ensures
        match r {
            Ok((tokens, calls)) => sums(usages(text::texts(lines@))) && tokens == spent(
                usages(text::texts(lines@)),
            ) && calls == usages(text::texts(lines@)).len(),
            Err(_) => !sums(usages(text::texts(lines@))),
        },
{
    let v = read_usages(lines);
    if can_sum(&v) {
        Ok(sum_usage(&v))
    } else {
        Err(Overflow)
    }
}

/// The context that a call had: its input, with what the cache gave and took.
pub open spec fn context(u: Usage) -> int {
    u.input + u.cache_read + u.cache_write
}

/// The context at the end of a session: that of its last call.
pub open spec fn last_context(v: Seq<Usage>) -> Option<int> {
    if v.len() == 0 { None } else { Some(context(v.last())) }
}

/// The context that a session had reached when it stopped.
pub fn ctx_at_suspension(lines: &Vec<String>) -> (r: Result<Option<i64>, Overflow>)
    ensures
        match r {
            Ok(Some(n)) => last_context(usages(text::texts(lines@))) == Some(n as int),
            Ok(None) => last_context(usages(text::texts(lines@))) is None,
            Err(_) => last_context(usages(text::texts(lines@))) matches Some(n) && !in_range(n),
        },
{
    let v = read_usages(lines);
    if v.len() == 0 {
        return Ok(None);
    }
    let u = v[v.len() - 1];
    let n: i128 = u.input as i128 + u.cache_read as i128 + u.cache_write as i128;
    if n < i64::MIN as i128 || n > i64::MAX as i128 {
        Err(Overflow)
    } else {
        Ok(Some(n as i64))
    }
}

/// What one session file says.
#[derive(Debug, Clone)]
pub struct FileUsage {
    pub path: String,
    pub tokens: i64,
    pub calls: i64,
}

pub open spec fn all_tokens(v: Seq<FileUsage>) -> int
    decreases v.len(),
{
    if v.len() == 0 {
        0
    } else {
        all_tokens(v.drop_last()) + v.last().tokens
    }
}

pub open spec fn all_calls(v: Seq<FileUsage>) -> int
    decreases v.len(),
{
    if v.len() == 0 {
        0
    } else {
        all_calls(v.drop_last()) + v.last().calls
    }
}

/// Whether every step of the two sums is in range.
pub open spec fn files_sum(v: Seq<FileUsage>) -> bool {
    forall|k: int|
        0 <= k <= v.len() ==> in_range(all_tokens(#[trigger] v.take(k))) && in_range(
            all_calls(v.take(k)),
        )
}

/// The first of the paths, by name.
pub open spec fn is_first_path(v: Seq<FileUsage>, p: Seq<char>) -> bool {
    &&& exists|i: int| 0 <= i < v.len() && (#[trigger] v[i]).path@ == p
    &&& forall|i: int| 0 <= i < v.len() ==> !text::lex_lt((#[trigger] v[i]).path@, p)
}

/// A whole session directory: the first file by name, and the tokens and
/// calls of all. Without a file there is nothing metered yet.
pub fn ledger_dir_usage(files: &Vec<FileUsage>) -> (r: Result<Option<FileUsage>, Overflow>)
    ensures
        match r {
            Ok(Some(u)) => {
                &&& files@.len() > 0
                &&& files_sum(files@)
                &&& is_first_path(files@, u.path@)
                &&& u.tokens == all_tokens(files@)
                &&& u.calls == all_calls(files@)
            },
            Ok(None) => files@.len() == 0,
            Err(_) => files@.len() > 0 && !files_sum(files@),
        },
{
    if files.len() == 0 {
        return Ok(None);
    }
    let low: i128 = i64::MIN as i128;
    let high: i128 = i64::MAX as i128;
    let mut tokens: i128 = 0;
    let mut calls: i128 = 0;
    let mut first: usize = 0;
    let mut i: usize = 0;
    while i < files.len()
        invariant
            low == i64::MIN,
            high == i64::MAX,
            i <= files@.len(),
            first < files@.len(),
            tokens == all_tokens(files@.take(i as int)),
            calls == all_calls(files@.take(i as int)),
            forall|k: int|
                0 <= k <= i ==> in_range(all_tokens(#[trigger] files@.take(k))) && in_range(
                    all_calls(files@.take(k)),
                ),
            forall|k: int|
                0 <= k < i ==> !text::lex_lt((#[trigger] files@[k]).path@, files@[first as int].path@),
        decreases files@.len() - i,
    {
        proof {
            assert(files@.take(i + 1).drop_last() =~= files@.take(i as int));
            assert(in_range(all_tokens(files@.take(i as int))));
        }
        tokens = tokens + files[i].tokens as i128;
        calls = calls + files[i].calls as i128;
        if tokens < low || tokens > high || calls < low || calls > high {
            assert(!in_range(all_tokens(files@.take(i + 1))) || !in_range(all_calls(files@.take(i + 1))));
            return Err(Overflow);
        }
        if text::less(&files[i].path, &files[first].path) {
            proof {
                let was = files@[first as int].path@;
                let now = files@[i as int].path@;
                assert forall|k: int| 0 <= k < i implies !text::lex_lt((#[trigger] files@[k]).path@, now) by {
                    if text::lex_lt(files@[k].path@, now) {
                        text::lemma_lex_transitive(files@[k].path@, now, was);
                    }
                }
                text::lemma_lex_irreflexive(now);
            }
            first = i;
        }
        i = i + 1;
    }
    proof {
        assert(files@.take(files@.len() as int) =~= files@);
        assert(in_range(all_tokens(files@.take(files@.len() as int))));
    }
    Ok(
        Some(
            FileUsage {
                path: files[first].path.clone(),
                tokens: tokens as i64,
                calls: calls as i64,
            },
        ),
    )
}

// ---------------------------------------------------------------------
// Output
// ---------------------------------------------------------------------

/// The last `n` bytes.
pub open spec fn last_bytes(b: Seq<u8>, n: int) -> Seq<u8> {
    if b.len() <= n { b } else { b.skip(b.len() - n) }
}

/// The end of a stream of output.
pub struct OutputTail {
    pub bytes: Vec<u8>,
}

impl OutputTail {
    pub fn new() -> (r: OutputTail)
        ensures
            r.bytes@ == Seq::<u8>::empty(),
    {
        OutputTail { bytes: Vec::new() }
    }

    /// Take up the next part of the stream, and drop what is too far back.
    pub fn push(&mut self, chunk: &[u8])
        ensures
            final(self).bytes@ == last_bytes(old(self).bytes@ + chunk@, TAIL_BYTES as int),
    {
        let ghost all = self.bytes@ + chunk@;
        self.bytes.extend_from_slice(chunk);
        assert(self.bytes@ =~= all);
        let n: usize = self.bytes.len();
        if n > TAIL_BYTES {
            let from: usize = n - TAIL_BYTES;
            let mut kept: Vec<u8> = Vec::new();
            let mut i: usize = from;
            while i < n
                invariant
                    n == self.bytes@.len(),
                    self.bytes@ == all,
                    from <= i <= n,
                    kept@ == all.subrange(from as int, i as int),
                decreases n - i,
            {
                kept.push(self.bytes[i]);
                assert(kept@ =~= all.subrange(from as int, i + 1));
                i = i + 1;
            }
            assert(kept@ =~= all.skip(from as int));
            self.bytes = kept;
        }
    }
}

/// The end of a worker's output, moved forward to a character boundary.
pub fn tail_str(s: &str) -> (r: &str)
    ensures
        r@ == util::tail_text(s@, TAIL_BYTES as int),
{
    util::tail(s, TAIL_BYTES)
}

/// What is kept of a worker's output; a lost resume is marked.
pub open spec fn kept_output(output: Seq<char>, lost: bool) -> Seq<char> {
    if lost {
        "[resume-lost] "@ + util::tail_text(output, TAIL_BYTES as int)
    } else {
        util::tail_text(output, TAIL_BYTES as int)
    }
}

// ---------------------------------------------------------------------
// Starting a worker
// ---------------------------------------------------------------------

/// A run that did not take place.
fn not_run(exit_code: Option<i32>, reason: Option<&str>, output: String) -> (r: RunResult)
    ensures
        r.exit_code == exit_code,
        text::opt_text(r.killed_reason) == (match reason {
            Some(s) => Some(s@),
            None => None,
        }),
        r.tokens_new == 0,
        r.calls == 0,
        r.session_file is None,
        r.stdout_tail@ == output@,
{
    RunResult {
        exit_code,
        killed_reason: match reason {
            Some(s) => Some(s.to_owned()),
            None => None,
        },
        tokens_new: 0,
        calls: 0,
        session_file: None,
        stdout_tail: output,
    }
}

/// Why a transcript cannot be continued: its directory is gone, or the file
/// is missing or empty.
pub fn resume_refusal(dir_there: bool, bytes: u64) -> (r: Option<&'static str>)
    ensures
        match r {
            Some(why) => if !dir_there {
                why@ == "session directory is gone"@
            } else {
                bytes == 0 && why@ == "session file is missing or empty"@
            },
            None => dir_there && bytes > 0,
        },
{
    if !dir_there {
        Some("session directory is gone")
    } else if bytes == 0 {
        Some("session file is missing or empty")
    } else {
        None
    }
}

/// A resume that cannot happen is reported; no cold worker runs in its place.
pub fn resume_unavailable(session_file: &str, why: &str) -> (r: RunResult)
    ensures
        r.exit_code is None,
        text::opt_text(r.killed_reason) == Some("resume-unavailable"@),
        r.tokens_new == 0,
        r.calls == 0,
        r.session_file is None,
        r.stdout_tail@ == "cannot resume "@ + session_file@ + ": "@ + why@,
{
    let output = "cannot resume ".to_owned().concat(session_file).concat(": ").concat(why);
    not_run(None, Some("resume-unavailable"), output)
}

/// A run whose session directory cannot be made.
pub fn session_dir_unusable(run_dir: &str, error: &str) -> (r: RunResult)
    ensures
        r.exit_code == Some(127i32),
        text::opt_text(r.killed_reason) == Some("unmetered"@),
        r.tokens_new == 0,
        r.calls == 0,
        r.session_file is None,
        r.stdout_tail@ == "session dir "@ + run_dir@ + " unusable: "@ + error@,
{
    let output = "session dir ".to_owned().concat(run_dir).concat(" unusable: ").concat(error);
    not_run(Some(127), Some("unmetered"), output)
}

/// A worker that could not be spawned.
pub fn spawn_failed(error: &str) -> (r: RunResult)
    ensures
        r.exit_code == Some(127i32),
        r.killed_reason is None,
        r.tokens_new == 0,
        r.calls == 0,
        r.session_file is None,
        r.stdout_tail@ == "spawn error: "@ + error@,
{
    not_run(Some(127), None, "spawn error: ".to_owned().concat(error))
}

pub open spec fn flag(name: Seq<char>, value: Option<String>) -> Seq<Seq<char>> {
    match value {
        Some(v) => seq![name + v@],
        None => Seq::empty(),
    }
}

fn add_flag(v: &mut Vec<String>, name: &str, value: &Option<String>)
    ensures
        text::texts(final(v)@) == text::texts(old(v)@) + flag(name@, *value),
{
    if let Some(s) = value {
        let arg = name.to_owned().concat(s);
        text::add_text(v, &arg);
    }
    assert(text::texts(v@) =~= text::texts(old(v)@) + flag(name@, *value));
}

/// The worker's command line. The session directory is always named, so that
/// no worker takes up a session that it was not given.
pub open spec fn command(
    omp_bin: Seq<char>,
    prompt: Seq<char>,
    run_dir: Seq<char>,
    resume: Option<String>,
    model: Option<String>,
    smol: Option<String>,
) -> Seq<Seq<char>> {
    seq![omp_bin, "-p"@, prompt, "--session-dir="@ + run_dir] + flag("--resume="@, resume) + flag(
        "--model="@,
        model,
    ) + flag("--smol="@, smol)
}

pub fn worker_args(
    omp_bin: &str,
    prompt: &str,
    run_dir: &str,
    resume: &Option<String>,
    model: &Option<String>,
    smol: &Option<String>,
) -> (r: Vec<String>)
    ensures
        text::texts(r@) == command(omp_bin@, prompt@, run_dir@, *resume, *model, *smol),
{
    let mut v = text::no_texts();
    text::add_text(&mut v, omp_bin);
    text::add_text(&mut v, "-p");
    text::add_text(&mut v, prompt);
    let dir = "--session-dir=".to_owned().concat(run_dir);
    text::add_text(&mut v, &dir);
    assert(text::texts(v@) =~= seq![omp_bin@, "-p"@, prompt@, "--session-dir="@ + run_dir@]);
    add_flag(&mut v, "--resume=", resume);
    add_flag(&mut v, "--model=", model);
    add_flag(&mut v, "--smol=", smol);
    v
}

/// The variables of the environment that a worker gets to see.
pub open spec fn passes_env(name: Seq<char>) -> bool {
    ||| name == "PATH"@
    ||| name == "HOME"@
    ||| name == "USER"@
    ||| name == "LOGNAME"@
    ||| name == "LANG"@
    ||| name == "LC_ALL"@
    ||| name == "TERM"@
    ||| name == "TMPDIR"@
    ||| name == "TEMP"@
    ||| name == "TMP"@
    ||| name == "SSH_AUTH_SOCK"@
    ||| "OMP_"@.is_prefix_of(name)
    ||| "XDG_"@.is_prefix_of(name)
}

pub fn env_passes(name: &str) -> (r: bool)
    ensures
        r == passes_env(name@),
{
    text::same(name, "PATH") || text::same(name, "HOME") || text::same(name, "USER") || text::same(
        name,
        "LOGNAME",
    ) || text::same(name, "LANG") || text::same(name, "LC_ALL") || text::same(name, "TERM")
        || text::same(name, "TMPDIR") || text::same(name, "TEMP") || text::same(name, "TMP")
        || text::same(name, "SSH_AUTH_SOCK") || text::starts_with(name, "OMP_")
        || text::starts_with(name, "XDG_")
}

// ---------------------------------------------------------------------
// Watching a worker
// ---------------------------------------------------------------------

/// Why a worker was stopped.
#[derive(Debug, Clone, Copy, PartialEq, Eq, Structural)]
pub enum KillReason {
    /// It reached its token cap.
    Cap,
    /// It left no ledger to meter it by.
    Unmetered,
    /// It ran for too long.
    Wallclock,
}

impl KillReason {
    pub open spec fn text(self) -> Seq<char> {
        match self {
            KillReason::Cap => "cap"@,
            KillReason::Unmetered => "unmetered"@,
            KillReason::Wallclock => "wallclock"@,
        }
    }

    pub fn as_str(self) -> (r: &'static str)
        ensures
            r@ == self.text(),
    {
        match self {
            KillReason::Cap => "cap",
            KillReason::Unmetered => "unmetered",
            KillReason::Wallclock => "wallclock",
        }
    }
}

/// The bounds of a run.
#[derive(Debug, Clone, Copy, PartialEq, Eq, Structural)]
pub struct Watch {
    pub cap: Option<i64>,
    pub max_wall_s: i64,
    pub grace_s: u64,
    /// The run continues an earlier attempt's transcript.
    pub resumed: bool,
}

/// What the ledger held before the run.
#[derive(Debug, Clone, Copy, PartialEq, Eq, Structural)]
pub struct Baseline {
    pub tokens: i64,
    pub calls: i64,
}

/// What is known of a run.
#[derive(Debug, Clone)]
pub struct Metered {
    pub session: Option<String>,
    pub tokens: i64,
    pub calls: i64,
}

pub struct MeteredView {
    pub session: Option<Seq<char>>,
    pub tokens: int,
    pub calls: int,
}

impl View for Metered {
    type V = MeteredView;

    open spec fn view(&self) -> MeteredView {
        MeteredView {
            session: text::opt_text(self.session),
            tokens: self.tokens as int,
            calls: self.calls as int,
        }
    }
}

pub open spec fn at_least_zero(n: int) -> int {
    if n < 0 { 0 } else { n }
}

/// What a reading of the directory says of the run: what was there before is
/// not counted.
pub open spec fn metered(m: MeteredView, base: Baseline, reading: Option<FileUsage>) -> MeteredView {
    match reading {
        Some(f) => MeteredView {
            session: Some(f.path@),
            tokens: at_least_zero(f.tokens - base.tokens),
            calls: at_least_zero(f.calls - base.calls),
        },
        None => m,
    }
}

/// Whether the differences are in range.
pub open spec fn can_meter(base: Baseline, reading: Option<FileUsage>) -> bool {
    reading matches Some(f) ==> in_range(f.tokens - base.tokens) && in_range(f.calls - base.calls)
}

/// Take up a reading of the session directory.
pub fn meter(m: Metered, base: &Baseline, reading: &Option<FileUsage>) -> (r: Metered)
    requires
        can_meter(*base, *reading),
    ensures
        r@ == metered(m@, *base, *reading),
{
    match reading {
        Some(f) => {
            let tokens: i64 = f.tokens - base.tokens;
            let calls: i64 = f.calls - base.calls;
            Metered {
                session: Some(f.path.clone()),
                tokens: if tokens < 0 {
                    0
                } else {
                    tokens
                },
                calls: if calls < 0 {
                    0
                } else {
                    calls
                },
            }
        },
        None => m,
    }
}

/// Whether nothing is known of the run's spend: no call of a continued
/// transcript, no ledger of a new one.
pub open spec fn is_unmetered(w: Watch, m: MeteredView) -> bool {
    if w.resumed { m.calls == 0 } else { m.session is None }
}

fn unmetered(w: &Watch, m: &Metered) -> (r: bool)
    ensures
        r == is_unmetered(*w, m@),
{
    if w.resumed {
        m.calls == 0
    } else {
        match &m.session {
            Some(_) => false,
            None => true,
        }
    }
}

/// What becomes of a worker.
#[derive(Debug, Clone, Copy, PartialEq, Eq, Structural)]
pub enum Watched {
    Go,
    Exited,
    Kill { reason: KillReason },
}

/// What becomes of a worker: one that left is done; one at its cap, without a
/// ledger after the grace, or past its time is stopped.
pub open spec fn watched(w: Watch, m: MeteredView, exited: bool, elapsed_s: u64) -> Watched {
    if exited {
        Watched::Exited
    } else if w.cap matches Some(cap) && m.tokens >= cap {
        Watched::Kill { reason: KillReason::Cap }
    } else if is_unmetered(w, m) && elapsed_s >= w.grace_s {
        Watched::Kill { reason: KillReason::Unmetered }
    } else if elapsed_s >= w.max_wall_s {
        Watched::Kill { reason: KillReason::Wallclock }
    } else {
        Watched::Go
    }
}

pub fn watch(w: &Watch, m: &Metered, exited: bool, elapsed_s: u64) -> (r: Watched)
    ensures
        r == watched(*w, m@, exited, elapsed_s),
{
    if exited {
        return Watched::Exited;
    }
    let capped: bool = match w.cap {
        Some(cap) => m.tokens >= cap,
        None => false,
    };
    if capped {
        Watched::Kill { reason: KillReason::Cap }
    } else if unmetered(w, m) && elapsed_s >= w.grace_s {
        Watched::Kill { reason: KillReason::Unmetered }
    } else if elapsed_s as i128 >= w.max_wall_s as i128 {
        Watched::Kill { reason: KillReason::Wallclock }
    } else {
        Watched::Go
    }
}

/// Whether a resume was lost: the transcript's first line is another.
pub fn resume_lost(before: &Vec<u8>, after: &Vec<u8>) -> (r: bool)
    ensures
        r == (before@ != after@),
{
    if before.len() != after.len() {
        return true;
    }
    let mut i: usize = 0;
    while i < before.len()
        invariant
            i <= before@.len(),
            before@.len() == after@.len(),
            forall|k: int| 0 <= k < i ==> before@[k] == after@[k],
        decreases before@.len() - i,
    {
        if before[i] != after[i] {
            return true;
        }
        i = i + 1;
    }
    assert(before@ =~= after@);
    false
}

/// The baseline of the last reading: a lost resume took the earlier
/// transcript with it, so all that is left is this run's own.
pub open spec fn last_base(base: Baseline, lost: bool) -> Baseline {
    if lost { Baseline { tokens: 0, calls: 0 } } else { base }
}

/// Why a run is not simply done: a run without a ledger is unmetered, unless
/// it was stopped for another reason.
pub open spec fn end_reason(killed: Option<KillReason>, unmetered: bool) -> Option<KillReason> {
    match killed {
        Some(r) => Some(r),
        None => if unmetered { Some(KillReason::Unmetered) } else { None },
    }
}

/// The end of a run: the last reading, and the outcome.
pub fn finish(
    w: &Watch,
    m: Metered,
    killed: Option<KillReason>,
    lost: bool,
    base: &Baseline,
    reading: &Option<FileUsage>,
    exit_code: Option<i32>,
    output: &str,
) -> (r: RunResult)
    requires
        can_meter(last_base(*base, lost), *reading),
    ensures
        ({
            let end = metered(m@, last_base(*base, lost), *reading);
            &&& r.exit_code == exit_code
            &&& text::opt_text(r.killed_reason) == (match end_reason(killed, is_unmetered(*w, end)) {
                Some(k) => Some(k.text()),
                None => None,
            })
            &&& r.tokens_new == end.tokens
            &&& r.calls == end.calls
            &&& text::opt_text(r.session_file) == end.session
            &&& r.stdout_tail@ == kept_output(output@, lost)
        }),
{
    let from: Baseline = if lost {
        Baseline { tokens: 0, calls: 0 }
    } else {
        *base
    };
    let end = meter(m, &from, reading);
    let reason: Option<KillReason> = match killed {
        Some(r) => Some(r),
        None => if unmetered(w, &end) {
            Some(KillReason::Unmetered)
        } else {
            None
        },
    };
    let stdout_tail: String = if lost {
        "[resume-lost] ".to_owned().concat(tail_str(output))
    } else {
        tail_str(output).to_owned()
    };
    RunResult {
        exit_code,
        killed_reason: match reason {
            Some(r) => Some(r.as_str().to_owned()),
            None => None,
        },
        tokens_new: end.tokens,
        calls: end.calls,
        session_file: end.session,
        stdout_tail,
    }
}

// ---------------------------------------------------------------------
// Laws
// ---------------------------------------------------------------------

/// The bytes of two texts together are those of one after the other.
proof fn lemma_encode_concat(a: Seq<char>, b: Seq<char>)
    ensures
        encode_utf8(a + b) == encode_utf8(a) + encode_utf8(b),
    decreases a.len(),
{
    if a.len() == 0 {
        assert(a + b =~= b);
        assert(encode_utf8(a) + encode_utf8(b) =~= encode_utf8(b));
    } else {
        lemma_encode_concat(a.drop_first(), b);
        assert((a + b).drop_first() =~= a.drop_first() + b);
        assert(encode_utf8(a + b) =~= encode_utf8(a) + encode_utf8(b));
    }
}

proof fn lemma_digits_bytes(n: nat, k: nat, bound: nat)
    requires
        k >= 1,
        n < bound,
        bound == vstd::arithmetic::power::pow(10, k),
    ensures
        text::nat_text(n).len() <= k,
        is_ascii_chars(text::nat_text(n)),
    decreases k,
{
    vstd::arithmetic::power::lemma_pow1(10);
    if n >= 10 {
        if k == 1 {
            assert(false);
        }
        vstd::arithmetic::power::lemma_pow_adds(10, 1, (k - 1) as nat);
        let small = vstd::arithmetic::power::pow(10, (k - 1) as nat);
        assert(n / 10 < small);
        vstd::arithmetic::power::lemma_pow_positive(10, (k - 1) as nat);
        lemma_digits_bytes(n / 10, (k - 1) as nat, small as nat);
    }
}

/// However deep the working directory, the name of a run's session directory
/// fits the longest name that a file system takes.
pub proof fn law_session_name_fits(cwd: Seq<char>, spawn_ms: u64, seq: u64)
    ensures
        encode_utf8(run_name(cwd, spawn_ms as nat, seq as nat)).len() <= 255,
{
    let s = slug(cwd);
    let a = text::nat_text(spawn_ms as nat);
    let b = text::nat_text(seq as nat);
    util::law_tail_is_bounded_suffix(
        text::trim(text::replace_char(cwd, '/', "-"@), Cut::At('-')),
        150,
    );
    assert(vstd::arithmetic::power::pow(10, 20) == 100_000_000_000_000_000_000) by {
        reveal(vstd::arithmetic::power::pow);
        reveal_with_fuel(vstd::arithmetic::power::pow, 21);
    }
    lemma_digits_bytes(spawn_ms as nat, 20, 100_000_000_000_000_000_000);
    lemma_digits_bytes(seq as nat, 20, 100_000_000_000_000_000_000);
    is_ascii_chars_encode_utf8(a);
    is_ascii_chars_encode_utf8(b);
    reveal_strlit("--");
    reveal_strlit("-");
    is_ascii_chars_encode_utf8("--"@);
    is_ascii_chars_encode_utf8("-"@);
    lemma_encode_concat(s + "--"@ + a + "-"@, b);
    lemma_encode_concat(s + "--"@ + a, "-"@);
    lemma_encode_concat(s + "--"@, a);
    lemma_encode_concat(s, "--"@);
}

/// Two runs of one process never share a session directory: their counters
/// differ.
pub proof fn law_runs_do_not_share(cwd: Seq<char>, other: Seq<char>, ms: u64, other_ms: u64, a: u64, b: u64)
    requires
        run_name(cwd, ms as nat, a as nat) == run_name(other, other_ms as nat, b as nat),
    ensures
        a == b,
{
    reveal_strlit("-");
    let x = slug(cwd) + "--"@ + text::nat_text(ms as nat);
    let y = slug(other) + "--"@ + text::nat_text(other_ms as nat);
    assert("-"@ =~= seq!['-']);
    lemma_digits_only(a as nat);
    lemma_digits_only(b as nat);
    text::lemma_rsplit_once_at(x, '-', text::nat_text(a as nat));
    text::lemma_rsplit_once_at(y, '-', text::nat_text(b as nat));
    lemma_digits_injective(a as nat, b as nat);
}

proof fn lemma_digits_only(n: nat)
    ensures
        text::nat_text(n).len() > 0,
        !text::holds_char(text::nat_text(n), '-'),
    decreases n,
{
    if n >= 10 {
        lemma_digits_only(n / 10);
    }
}

proof fn lemma_digits_injective(a: nat, b: nat)
    requires
        text::nat_text(a) == text::nat_text(b),
    ensures
        a == b,
    decreases a,
{
    let x = text::nat_text(a);
    assert(x.last() == text::digit_char((a % 10) as int));
    assert(x.last() == text::digit_char((b % 10) as int));
    assert(a % 10 == b % 10);
    if a >= 10 {
        lemma_digits_only(a / 10);
    }
    if b >= 10 {
        lemma_digits_only(b / 10);
    }
    if a >= 10 && b >= 10 {
        assert(x.drop_last() =~= text::nat_text(a / 10));
        assert(x.drop_last() =~= text::nat_text(b / 10));
        lemma_digits_injective(a / 10, b / 10);
    }
}

/// The end of a stream is kept however it is cut into parts.
pub proof fn law_tail_of_a_stream(done: Seq<u8>, chunk: Seq<u8>)
    ensures
        last_bytes(last_bytes(done, TAIL_BYTES as int) + chunk, TAIL_BYTES as int) == last_bytes(
            done + chunk,
            TAIL_BYTES as int,
        ),
{
    assert(last_bytes(last_bytes(done, TAIL_BYTES as int) + chunk, TAIL_BYTES as int) =~= last_bytes(
        done + chunk,
        TAIL_BYTES as int,
    ));
}

/// A worker that runs on is under its cap and within its time.
pub proof fn law_running_worker_is_within_bounds(w: Watch, m: MeteredView, elapsed_s: u64)
    requires
        watched(w, m, false, elapsed_s) == Watched::Go,
    ensures
        w.cap matches Some(cap) ==> m.tokens < cap,
        elapsed_s < w.max_wall_s,
        elapsed_s >= w.grace_s ==> !is_unmetered(w, m),
{
}

/// A continued attempt is charged for what it added and no more: where its
/// ledger grew, by the growth.
pub proof fn law_resume_is_charged_for_its_own(m: MeteredView, base: Baseline, f: FileUsage)
    requires
        f.tokens >= base.tokens,
        f.calls >= base.calls,
    ensures
        metered(m, base, Some(f)).tokens == f.tokens - base.tokens,
        metered(m, base, Some(f)).calls == f.calls - base.calls,
{
}

/// The running total never falls below zero, so the cap stays armed.
pub proof fn law_total_is_never_negative(m: MeteredView, base: Baseline, f: FileUsage)
    ensures
        metered(m, base, Some(f)).tokens >= 0,
        metered(m, base, Some(f)).calls >= 0,
{
}

/// A run whose spend is unknown is never reported as done.
pub proof fn law_unmetered_run_is_not_done(killed: Option<KillReason>)
    ensures
        end_reason(killed, true) is Some,
{
}

/// A call adds its input, its output and what it wrote to the cache; what it
/// read from the cache costs nothing new. A session's spend is the sum over
/// its calls.
pub proof fn law_spend_adds_up(v: Seq<Usage>, u: Usage, other: i64)
    ensures
        spent(Seq::empty()) == 0,
        spent(v.push(u)) == spent(v) + u.input + u.output + u.cache_write,
        spent(v.push(Usage { cache_read: other, ..u })) == spent(v.push(u)),
{
    let w = Usage { cache_read: other, ..u };
    assert(v.push(u).drop_last() =~= v);
    assert(v.push(w).drop_last() =~= v);
}

/// The context at the end of a session is that of its last call: the input,
/// and what was read from and written to the cache; not the output.
pub proof fn law_context_is_the_last_calls(v: Seq<Usage>, u: Usage)
    ensures
        last_context(v.push(u)) == Some(u.input + u.cache_read + u.cache_write),
        last_context(Seq::empty()) is None,
{
}

/// The counts of a usage record are read from the fields of their own names;
/// a field that is missing or no whole number counts as zero.
pub proof fn law_usage_is_read_by_name(doc: JsonView, msg: JsonView, u: JsonView)
    requires
        doc.field("message"@) == Some(msg),
        msg is Record,
        msg.field("role"@) matches Some(JsonView::Text { value, .. }) && value == "assistant"@,
        msg.field("usage"@) == Some(u),
        u is Record,
    ensures
        usage_in(doc) matches Some(r) && ({
            &&& u.field("input"@) matches Some(JsonView::Number { whole: Some(n), .. }) ==> r.input == n
            &&& u.field("output"@) matches Some(JsonView::Number { whole: Some(n), .. }) ==> r.output == n
            &&& u.field("cacheRead"@) matches Some(JsonView::Number { whole: Some(n), .. }) ==> r.cache_read == n
            &&& u.field("cacheWrite"@) matches Some(JsonView::Number { whole: Some(n), .. }) ==> r.cache_write
                == n
            &&& u.field("input"@) is None ==> r.input == 0
            &&& u.field("output"@) is None ==> r.output == 0
            &&& u.field("cacheRead"@) is None ==> r.cache_read == 0
            &&& u.field("cacheWrite"@) is None ==> r.cache_write == 0
        }),
{
}

/// Only the messages of an assistant are metered.
pub proof fn law_only_assistants_are_metered(doc: JsonView)
    ensures
        usage_in(doc) is Some ==> (doc.field("message"@) matches Some(msg) && (msg.field("role"@) matches Some(
            JsonView::Text { value, .. },
        ) && value == "assistant"@)),
{
}

/// The tokens and calls of a session directory are those of all its files.
pub proof fn law_files_add_up(v: Seq<FileUsage>, f: FileUsage)
    ensures
        all_tokens(Seq::empty()) == 0 && all_calls(Seq::empty()) == 0,
        all_tokens(v.push(f)) == all_tokens(v) + f.tokens,
        all_calls(v.push(f)) == all_calls(v) + f.calls,
{
    assert(v.push(f).drop_last() =~= v);
}

/// The usages of a session are those of its lines, in their order; a line
/// without one is passed over.
pub proof fn law_usages_follow_the_lines(lines: Seq<Seq<char>>, line: Seq<char>)
    ensures
        line_usage(line) matches Some(u) ==> usages(lines.push(line)) == usages(lines).push(u),
        line_usage(line) is None ==> usages(lines.push(line)) == usages(lines),
        json::json_of(line) is Err ==> line_usage(line) is None,
{
    assert(lines.push(line).drop_last() =~= lines);
}

/// How many others come before one, of those up to a position.
proof fn lemma_newer(times: Seq<i64>, i: int, n: int)
    requires
        0 <= i < times.len(),
        0 <= n <= times.len(),
    ensures
        0 <= newer(times, i, n) <= n,
        i < n ==> newer(times, i, n) <= n - 1,
        (forall|j: int|
            0 <= j < n && j != i ==> (#[trigger] times[j] > times[i] || (times[j] == times[i] && j < i)))
            ==> newer(times, i, n) == (if i < n { n - 1 } else { n }),
    decreases n,
{
    if n > 0 {
        lemma_newer(times, i, n - 1);
    }
}

proof fn lemma_newer_order(times: Seq<i64>, i: int, j: int, n: int)
    requires
        0 <= i < times.len(),
        0 <= j < times.len(),
        0 <= n <= times.len(),
        times[j] > times[i] || (times[j] == times[i] && j < i),
    ensures
        newer(times, j, n) <= newer(times, i, n),
        j < n ==> newer(times, j, n) < newer(times, i, n),
    decreases n,
{
    if n > 0 {
        lemma_newer_order(times, i, j, n - 1);
    }
}

/// Up to fifty transcripts are all kept. Beyond that the oldest goes, and one
/// that is kept is never older than one that goes.
pub proof fn law_fifty_newest_sessions_are_kept(times: Seq<i64>, i: int, j: int)
    requires
        0 <= i < times.len(),
        0 <= j < times.len(),
    ensures
        times.len() <= 50 ==> !is_surplus(times, i),
        is_surplus(times, j) && !is_surplus(times, i) ==> times[i] >= times[j],
        times.len() > 50 && (forall|k: int| 0 <= k < times.len() && k != i ==> #[trigger] times[k] > times[i])
            ==> is_surplus(times, i),
{
    let n = times.len() as int;
    lemma_newer(times, i, n);
    if times[j] > times[i] {
        lemma_newer_order(times, i, j, n);
    }
}

/// Why a worker is stopped: at its cap, whatever else; without a metered call
/// after the grace; past its time. One that left is never stopped.
pub proof fn law_worker_is_stopped_for_cause(w: Watch, m: MeteredView, elapsed_s: u64)
    ensures
        watched(w, m, true, elapsed_s) == Watched::Exited,
        ({
            let capped = w.cap matches Some(cap) && m.tokens >= cap;
            let blind = if w.resumed { m.calls == 0 } else { m.session is None };
            let late = elapsed_s >= w.max_wall_s;
            &&& watched(w, m, false, elapsed_s) == (Watched::Kill { reason: KillReason::Cap }) <==> capped
            &&& watched(w, m, false, elapsed_s) == (Watched::Kill { reason: KillReason::Unmetered }) <==> !capped
                && blind && elapsed_s >= w.grace_s
            &&& watched(w, m, false, elapsed_s) == (Watched::Kill { reason: KillReason::Wallclock }) <==> !capped
                && !(blind && elapsed_s >= w.grace_s) && late
            &&& watched(w, m, false, elapsed_s) == Watched::Go <==> !capped && !(blind && elapsed_s >= w.grace_s)
                && !late
        }),
{
}

/// A reading names the session that it was taken of; without a reading
/// nothing changes. A lost resume counts all that is there.
pub proof fn law_reading_names_its_session(m: MeteredView, base: Baseline, f: FileUsage)
    ensures
        metered(m, base, Some(f)).session == Some(f.path@),
        metered(m, base, None) == m,
        last_base(base, false) == base,
        f.tokens >= 0 ==> metered(m, last_base(base, true), Some(f)).tokens == f.tokens,
        f.calls >= 0 ==> metered(m, last_base(base, true), Some(f)).calls == f.calls,
{
}

/// A run that was stopped keeps its reason; one that was not is unmetered
/// exactly where its spend is unknown.
pub proof fn law_stopped_run_keeps_its_reason(killed: Option<KillReason>, unmetered: bool)
    ensures
        killed is Some ==> end_reason(killed, unmetered) == killed,
        killed is None && unmetered ==> end_reason(killed, unmetered) == Some(KillReason::Unmetered),
        killed is None && !unmetered ==> end_reason(killed, unmetered) is None,
{
}

/// A worker's command always names its prompt and its own session directory,
/// and continues a session, or asks for a model, only where it is given one.
pub proof fn law_command_names_its_session(
    omp_bin: Seq<char>,
    prompt: Seq<char>,
    run_dir: Seq<char>,
    resume: Option<String>,
    model: Option<String>,
    smol: Option<String>,
)
    ensures
        ({
            let c = command(omp_bin, prompt, run_dir, resume, model, smol);
            &&& c.len() == 4 + (if resume is Some { 1int } else { 0 }) + (if model is Some { 1int } else { 0 }) + (
            if smol is Some { 1int } else { 0 })
            &&& c[0] == omp_bin && c[1] == "-p"@ && c[2] == prompt && c[3] == "--session-dir="@ + run_dir
            &&& resume matches Some(s) ==> c[4] == "--resume="@ + s@
            &&& model matches Some(s) ==> c[if resume is Some { 5int } else { 4 }] == "--model="@ + s@
            &&& smol matches Some(s) ==> c.last() == "--smol="@ + s@
        }),
{
}

/// A variable reaches a worker only by its name: one of eleven, or one of the
/// two families of names.
pub proof fn law_few_variables_pass(name: Seq<char>)
    ensures
        passes_env(name) <==> {
            ||| seq![
                "PATH"@,
                "HOME"@,
                "USER"@,
                "LOGNAME"@,
                "LANG"@,
                "LC_ALL"@,
                "TERM"@,
                "TMPDIR"@,
                "TEMP"@,
                "TMP"@,
                "SSH_AUTH_SOCK"@,
            ].contains(name)
            ||| name.len() >= 4 && (name.take(4) == "OMP_"@ || name.take(4) == "XDG_"@)
        },
{
    reveal_strlit("OMP_");
    reveal_strlit("XDG_");
    let all = seq![
        "PATH"@,
        "HOME"@,
        "USER"@,
        "LOGNAME"@,
        "LANG"@,
        "LC_ALL"@,
        "TERM"@,
        "TMPDIR"@,
        "TEMP"@,
        "TMP"@,
        "SSH_AUTH_SOCK"@,
    ];
    assert(all[0] == "PATH"@ && all[1] == "HOME"@ && all[2] == "USER"@ && all[3] == "LOGNAME"@);
    assert(all[4] == "LANG"@ && all[5] == "LC_ALL"@ && all[6] == "TERM"@ && all[7] == "TMPDIR"@);
    assert(all[8] == "TEMP"@ && all[9] == "TMP"@ && all[10] == "SSH_AUTH_SOCK"@);
    if name.len() >= 4 {
        assert(name.take(4) =~= name.subrange(0, 4));
        assert("OMP_"@.is_prefix_of(name) <==> name.take(4) == "OMP_"@);
        assert("XDG_"@.is_prefix_of(name) <==> name.take(4) == "XDG_"@);
    }
}

} // verus!
