//! Bringing a repository's clone up to date: cloned where it is not there,
//! fetched, never checked out.

use vstd::prelude::*;
use crate::scheduler::effects;
use crate::scheduler::effects::{Effect, EffectView};
use crate::text;
use crate::text::Cut;
use crate::util;

verus! {

/// The repository whose clone is brought up to date.
pub struct CloneRun {
    pub url: String,
    pub path: String,
    /// How the messages begin.
    pub prefix: String,
    pub finding_id: Option<i64>,
}

/// Which of git's answers is waited for.
#[derive(Debug, Clone, Copy, PartialEq, Eq, Structural)]
pub enum ClonePhase {
    /// Where the clone that is there came from.
    Origin,
    /// The new clone.
    Clone,
    /// The fetch.
    Fetch,
    Ended,
}

#[derive(Debug, Clone)]
pub enum CloneAction {
    /// Run git, within so many seconds.
    Git { argv: Vec<String>, timeout_s: u64 },
    /// The clone is up to date.
    Ready,
    Failed { error: String },
}

pub enum CloneActionView {
    Git { argv: Seq<Seq<char>>, timeout_s: u64 },
    Ready,
    Failed { error: Seq<char> },
}

impl View for CloneAction {
    type V = CloneActionView;

    open spec fn view(&self) -> CloneActionView {
        match *self {
            CloneAction::Git { argv, timeout_s } => CloneActionView::Git {
                argv: text::texts(argv@),
                timeout_s,
            },
            CloneAction::Ready => CloneActionView::Ready,
            CloneAction::Failed { error } => CloneActionView::Failed { error: error@ },
        }
    }
}

/// The first command: a clone that is there is asked for its origin.
pub open spec fn clone_first(run: CloneRun, there: bool) -> (ClonePhase, CloneActionView) {
    if there {
        (
            ClonePhase::Origin,
            CloneActionView::Git {
                argv: seq!["git"@, "-C"@, run.path@, "remote"@, "get-url"@, "origin"@],
                timeout_s: 60,
            },
        )
    } else {
        (
            ClonePhase::Clone,
            CloneActionView::Git {
                argv: seq!["git"@, "clone"@, "--"@, run.url@, run.path@],
                timeout_s: 600,
            },
        )
    }
}

pub open spec fn fetch(run: CloneRun) -> (Seq<EffectView>, ClonePhase, CloneActionView) {
    (
        Seq::empty(),
        ClonePhase::Fetch,
        CloneActionView::Git {
            argv: seq!["git"@, "-C"@, run.path@, "fetch"@, "origin"@],
            timeout_s: 600,
        },
    )
}

pub open spec fn failure(run: CloneRun, error: Seq<char>) -> (
    Seq<EffectView>,
    ClonePhase,
    CloneActionView,
) {
    (
        seq![effects::log_view("error"@, run.prefix@ + ": "@ + error, None, run.finding_id)],
        ClonePhase::Ended,
        CloneActionView::Failed { error },
    )
}

/// What is said of a clone of something else.
pub open spec fn foreign(run: CloneRun, rc: i32, origin: Seq<char>) -> Seq<char> {
    run.path@ + " exists but its origin is "@ + (if rc == 0 {
        origin
    } else {
        "unreadable"@
    }) + " -- expected "@ + run.url@
        + "; refusing to work in a clone of a different repository"@
}

/// One step, on git's answer. A clone whose origin is not the repository's
/// address is refused.
pub open spec fn clone_next(run: CloneRun, phase: ClonePhase, rc: i32, out: Seq<char>) -> (
    Seq<EffectView>,
    ClonePhase,
    CloneActionView,
) {
    match phase {
        ClonePhase::Origin => {
            let origin = text::trim(out, Cut::White);
            if rc != 0 || origin != run.url@ {
                failure(run, foreign(run, rc, origin))
            } else {
                fetch(run)
            }
        },
        ClonePhase::Clone => if rc != 0 {
            failure(run, "clone failed: "@ + util::tail_text(out, 300))
        } else {
            fetch(run)
        },
        ClonePhase::Fetch => if rc != 0 {
            failure(run, "git fetch origin failed: "@ + util::tail_text(out, 300))
        } else {
            (Seq::empty(), ClonePhase::Ended, CloneActionView::Ready)
        },
        ClonePhase::Ended => (
            Seq::empty(),
            ClonePhase::Ended,
            CloneActionView::Failed { error: "out of turn"@ },
        ),
    }
}

/// The first command.
pub fn clone_start(run: &CloneRun, there: bool) -> (r: (ClonePhase, CloneAction))
    ensures
        (r.0, r.1@) == clone_first(*run, there),
{
    let mut v = text::no_texts();
    text::add_text(&mut v, "git");
    if there {
        text::add_text(&mut v, "-C");
        text::add_text(&mut v, &run.path);
        text::add_text(&mut v, "remote");
        text::add_text(&mut v, "get-url");
        text::add_text(&mut v, "origin");
        assert(text::texts(v@) =~= seq!["git"@, "-C"@, run.path@, "remote"@, "get-url"@, "origin"@]);
        (ClonePhase::Origin, CloneAction::Git { argv: v, timeout_s: 60 })
    } else {
        text::add_text(&mut v, "clone");
        text::add_text(&mut v, "--");
        text::add_text(&mut v, &run.url);
        text::add_text(&mut v, &run.path);
        assert(text::texts(v@) =~= seq!["git"@, "clone"@, "--"@, run.url@, run.path@]);
        (ClonePhase::Clone, CloneAction::Git { argv: v, timeout_s: 600 })
    }
}

fn start_fetch(run: &CloneRun) -> (r: (Vec<Effect>, ClonePhase, CloneAction))
    ensures
        (effects::effects(r.0@), r.1, r.2@) == fetch(*run),
{
    let mut v = text::no_texts();
    text::add_text(&mut v, "git");
    text::add_text(&mut v, "-C");
    text::add_text(&mut v, &run.path);
    text::add_text(&mut v, "fetch");
    text::add_text(&mut v, "origin");
    assert(text::texts(v@) =~= seq!["git"@, "-C"@, run.path@, "fetch"@, "origin"@]);
    (effects::no_effects(), ClonePhase::Fetch, CloneAction::Git { argv: v, timeout_s: 600 })
}

fn fail(run: &CloneRun, error: String) -> (r: (Vec<Effect>, ClonePhase, CloneAction))
    ensures
        (effects::effects(r.0@), r.1, r.2@) == failure(*run, error@),
{
    let message = run.prefix.clone().concat(": ").concat(&error);
    (
        effects::one_effect(effects::log("error", message, None, run.finding_id)),
        ClonePhase::Ended,
        CloneAction::Failed { error },
    )
}

/// One step, on git's answer.
pub fn clone_step(run: &CloneRun, phase: ClonePhase, rc: i32, out: &str) -> (r: (
    Vec<Effect>,
    ClonePhase,
    CloneAction,
))
    ensures
        (effects::effects(r.0@), r.1, r.2@) == clone_next(*run, phase, rc, out@),
{
    match phase {
        ClonePhase::Origin => {
            let origin = text::trim_text(out, Cut::White);
            if rc != 0 || !text::same(&origin, &run.url) {
                let shown: &str = if rc == 0 {
                    origin.as_str()
                } else {
                    "unreadable"
                };
                let error = run.path.clone().concat(" exists but its origin is ").concat(
                    shown,
                ).concat(" -- expected ").concat(&run.url).concat(
                    "; refusing to work in a clone of a different repository",
                );
                fail(run, error)
            } else {
                start_fetch(run)
            }
        },
        ClonePhase::Clone => if rc != 0 {
            fail(run, "clone failed: ".to_owned().concat(util::tail(out, 300)))
        } else {
            start_fetch(run)
        },
        ClonePhase::Fetch => if rc != 0 {
            fail(run, "git fetch origin failed: ".to_owned().concat(util::tail(out, 300)))
        } else {
            (effects::no_effects(), ClonePhase::Ended, CloneAction::Ready)
        },
        ClonePhase::Ended => (
            effects::no_effects(),
            ClonePhase::Ended,
            CloneAction::Failed { error: "out of turn".to_owned() },
        ),
    }
}

/// Nothing is fetched into a clone of a different repository.
pub proof fn law_foreign_clone_is_refused(run: CloneRun, rc: i32, out: Seq<char>)
    requires
        text::trim(out, Cut::White) != run.url@,
    ensures
        clone_next(run, ClonePhase::Origin, rc, out).2 is Failed,
{
}

/// No command of this machine moves the clone's working tree: it clones, asks
/// for the origin, and fetches.
pub proof fn law_clone_is_never_checked_out(run: CloneRun, there: bool, phase: ClonePhase, rc: i32, out: Seq<char>)
    ensures
        clone_first(run, there).1 matches CloneActionView::Git { argv, .. } ==> argv == seq![
            "git"@,
            "clone"@,
            "--"@,
            run.url@,
            run.path@,
        ] || argv == seq!["git"@, "-C"@, run.path@, "remote"@, "get-url"@, "origin"@],
        clone_next(run, phase, rc, out).2 matches CloneActionView::Git { argv, .. } ==> argv == seq![
            "git"@,
            "-C"@,
            run.path@,
            "fetch"@,
            "origin"@,
        ],
{
}

/// A clone is ready only after a fetch that went well, and a fetch only
/// follows a clone that went well or an origin that is the repository's
/// address. Any other answer ends it with an error that is logged.
pub proof fn law_clone_is_ready_after_its_fetch(run: CloneRun, phase: ClonePhase, rc: i32, out: Seq<char>)
    ensures
        ({
            let (v, next, action) = clone_next(run, phase, rc, out);
            &&& action is Ready <==> phase == ClonePhase::Fetch && rc == 0
            &&& next == ClonePhase::Fetch <==> rc == 0 && (phase == ClonePhase::Clone || (phase
                == ClonePhase::Origin && text::trim(out, Cut::White) == run.url@))
            &&& next == ClonePhase::Fetch || next == ClonePhase::Ended
            &&& action is Failed && phase != ClonePhase::Ended <==> v.len() > 0
            &&& v.len() <= 1
            &&& v.len() == 1 ==> (v[0] matches EffectView::Log { kind, finding, .. } && kind == "error"@
                && finding == run.finding_id)
        }),
        clone_first(run, true).0 == ClonePhase::Origin,
        clone_first(run, false).0 == ClonePhase::Clone,
        clone_first(run, false).1 matches CloneActionView::Git { argv, .. } && argv == seq![
            "git"@,
            "clone"@,
            "--"@,
            run.url@,
            run.path@,
        ],
{
}

} // verus!
