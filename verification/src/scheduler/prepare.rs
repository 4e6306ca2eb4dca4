//! What must hold before a job on a pull request is launched.

use vstd::prelude::*;
use crate::domain::ForgeName;
use crate::forge;
use crate::forge::Forge;
use crate::scheduler::effects;
use crate::scheduler::effects::{Effect, EffectView};
use crate::text;
use crate::types::{Finding, PrState, Repo};
use crate::util;

verus! {

/// The beginning of the messages about one kind of job at one finding.
pub open spec fn about(kind: Seq<char>, finding: i64) -> Seq<char> {
    kind + " #"@ + text::int_text(finding as int)
}

pub fn about_text(kind: &str, finding: i64) -> (r: String)
    ensures
        r@ == about(kind@, finding),
{
    kind.to_owned().concat(" #").concat(text::int_to_text(finding).as_str())
}

/// A job that cannot be launched: what is logged, and the error.
#[derive(Debug, Clone)]
pub struct Refusal {
    pub effects: Vec<Effect>,
    pub error: String,
}

/// A refusal as its effects and the error.
pub open spec fn refusal_view(r: Refusal) -> (Seq<EffectView>, Seq<char>) {
    (effects::effects(r.effects@), r.error@)
}

/// The refusal with this message and this error.
pub open spec fn refused(
    kind: Seq<char>,
    finding: i64,
    message: Seq<char>,
    error: Seq<char>,
) -> (Seq<EffectView>, Seq<char>) {
    (seq![effects::log_view("error"@, about(kind, finding) + message, None, Some(finding))], error)
}

/// The recording of a number that was missing.
pub open spec fn healing(finding: i64, known: Option<i64>, number: int) -> Seq<EffectView> {
    if known is None {
        seq![EffectView::SetPrNumber { finding, number: number as i64 }]
    } else {
        Seq::empty()
    }
}

pub fn refuse(kind: &str, finding: i64, message: &str, error: &str) -> (r: Refusal)
    ensures
        refusal_view(r) == refused(kind@, finding, message@, error@),
{
    Refusal {
        effects: effects::one_effect(
            effects::log(
                "error",
                about_text(kind, finding).concat(message),
                None,
                Some(finding),
            ),
        ),
        error: error.to_owned(),
    }
}

/// The refusal of a job whose repository is gone.
pub fn repo_missing(kind: &str, f: &Finding) -> (r: Refusal)
    ensures
        refusal_view(r) == refused(
            kind@,
            f.id,
            ": repo "@ + text::int_text(f.repo_id as int) + " missing"@,
            "repo missing"@,
        ),
{
    let msg = ": repo ".to_owned().concat(text::int_to_text(f.repo_id).as_str()).concat(" missing");
    refuse(kind, f.id, &msg, "repo missing")
}

/// The number of a finding's pull request: the stored one, or the one that
/// the address names.
pub open spec fn pr_number_of(f: Finding, forge: ForgeName, ps: PrState) -> Option<int> {
    match ps.pr_number {
        Some(n) => Some(n as int),
        None => match f.pr_url {
            Some(u) => match forge::pr_url_parts(forge, u@) {
                Some((_, n)) => Some(n),
                None => None,
            },
            None => None,
        },
    }
}

pub fn find_pr_number(f: &Finding, forge: ForgeName, ps: &PrState) -> (r: Option<i64>)
    ensures
        match r {
            Some(n) => pr_number_of(*f, forge, *ps) == Some(n as int),
            None => pr_number_of(*f, forge, *ps) is None,
        },
{
    match ps.pr_number {
        Some(n) => Some(n),
        None => match &f.pr_url {
            Some(u) => match forge::forge_for(forge).parse_pr_url(u) {
                Some((_, n)) => Some(n),
                None => None,
            },
            None => None,
        },
    }
}

/// A pull request that can be worked on.
#[derive(Debug, Clone)]
pub struct PrReady {
    pub number: i64,
    /// The number was missing, and the launch begins by recording it.
    pub healed: bool,
    /// The branch of the pull request; the default branch for a follow-up.
    pub branch: String,
}

/// What an engage needs: the pull request's branch, which is not the default
/// branch, and its number.
pub open spec fn engage_ready(f: Finding, repo: Repo, ps: Option<PrState>) -> Result<
    (int, bool, Seq<char>),
    (Seq<EffectView>, Seq<char>),
> {
    match ps {
        None => Err(
            refused(
                "engage"@,
                f.id,
                ": no pr_state/head_ref -- sync first"@,
                "no pr_state"@,
            ),
        ),
        Some(p) => {
            let head = match p.head_ref {
                Some(h) => h@,
                None => Seq::empty(),
            };
            if head.len() == 0 {
                Err(refused("engage"@, f.id, ": no head_ref"@, "no pr_state"@))
            } else {
                match pr_number_of(f, repo.forge, p) {
                    None => Err(
                        refused(
                            "engage"@,
                            f.id,
                            ": no pr_number and no parseable pr_url"@,
                            "no pr_number"@,
                        ),
                    ),
                    Some(n) => if head == repo.default_branch@ {
                        Err(
                            (
                                healing(f.id, p.pr_number, n) + seq![
                                    effects::log_view(
                                        "error"@,
                                        about("engage"@, f.id)
                                            + ": refusing -- head_ref equals default branch "@
                                            + text::debug_text(head),
                                        None,
                                        Some(f.id),
                                    ),
                                ],
                                "head_ref equals default branch"@,
                            ),
                        )
                    } else {
                        Ok((n, p.pr_number is None, head))
                    },
                }
            }
        },
    }
}

pub open spec fn ready_view(r: PrReady) -> (int, bool, Seq<char>) {
    (r.number as int, r.healed, r.branch@)
}

/// Check what an engage needs. A missing number that the address names is
/// recorded even where the branch then turns out to be the default branch.
pub fn engage_check(f: &Finding, repo: &Repo, ps: &Option<PrState>) -> (r: Result<PrReady, Refusal>)
    ensures
        match r {
            Ok(x) => engage_ready(*f, *repo, *ps) == Ok::<
                (int, bool, Seq<char>),
                (Seq<EffectView>, Seq<char>),
            >(ready_view(x)),
            Err(e) => engage_ready(*f, *repo, *ps) == Err::<
                (int, bool, Seq<char>),
                (Seq<EffectView>, Seq<char>),
            >(refusal_view(e)),
        },
{
    let p = match ps {
        Some(p) => p,
        None => {
            return Err(
                refuse("engage", f.id, ": no pr_state/head_ref -- sync first", "no pr_state"),
            );
        },
    };
    let head: String = match &p.head_ref {
        Some(h) => h.clone(),
        None => String::new(),
    };
    if head.as_str().is_empty() {
        return Err(refuse("engage", f.id, ": no head_ref", "no pr_state"));
    }
    let number: i64 = match find_pr_number(f, repo.forge, p) {
        Some(n) => n,
        None => {
            return Err(
                refuse("engage", f.id, ": no pr_number and no parseable pr_url", "no pr_number"),
            );
        },
    };
    if text::same(&head, &repo.default_branch) {
        let msg = about_text("engage", f.id).concat(
            ": refusing -- head_ref equals default branch ",
        ).concat(text::quoted(&head).as_str());
        let mut out = effects::no_effects();
        if p.pr_number.is_none() {
            effects::add_effect(&mut out, Effect::SetPrNumber { finding: f.id, number });
        }
        effects::add_effect(&mut out, effects::log("error", msg, None, Some(f.id)));
        assert(effects::effects(out@) =~= healing(f.id, p.pr_number, number as int) + seq![
            effects::log_view("error"@, msg@, None, Some(f.id)),
        ]);
        return Err(Refusal { effects: out, error: "head_ref equals default branch".to_owned() });
    }
    Ok(PrReady { number, healed: p.pr_number.is_none(), branch: head })
}

/// What a harvest needs: the number of the pull request.
pub open spec fn harvest_ready(f: Finding, repo: Repo, ps: Option<PrState>) -> Result<
    (int, bool, Seq<char>),
    (Seq<EffectView>, Seq<char>),
> {
    match ps {
        None => Err(
            refused(
                "harvest"@,
                f.id,
                ": no pr_state/pr_number -- sync first"@,
                "no pr_state"@,
            ),
        ),
        Some(p) => match pr_number_of(f, repo.forge, p) {
            None => Err(
                refused(
                    "harvest"@,
                    f.id,
                    ": no pr_number and no parseable pr_url"@,
                    "no pr_number"@,
                ),
            ),
            Some(n) => Ok((n, p.pr_number is None, repo.default_branch@)),
        },
    }
}

/// Check what a harvest needs.
pub fn harvest_check(f: &Finding, repo: &Repo, ps: &Option<PrState>) -> (r: Result<
    PrReady,
    Refusal,
>)
    ensures
        match r {
            Ok(x) => harvest_ready(*f, *repo, *ps) == Ok::<
                (int, bool, Seq<char>),
                (Seq<EffectView>, Seq<char>),
            >(ready_view(x)),
            Err(e) => harvest_ready(*f, *repo, *ps) == Err::<
                (int, bool, Seq<char>),
                (Seq<EffectView>, Seq<char>),
            >(refusal_view(e)),
        },
{
    let p = match ps {
        Some(p) => p,
        None => {
            return Err(
                refuse("harvest", f.id, ": no pr_state/pr_number -- sync first", "no pr_state"),
            );
        },
    };
    match find_pr_number(f, repo.forge, p) {
        Some(number) => Ok(
            PrReady {
                number,
                healed: p.pr_number.is_none(),
                branch: repo.default_branch.clone(),
            },
        ),
        None => Err(
            refuse("harvest", f.id, ": no pr_number and no parseable pr_url", "no pr_number"),
        ),
    }
}

/// The fetch of one branch into the clone.
pub fn fetch_args(path: &str, branch: &str) -> (r: Vec<String>)
    ensures
        text::texts(r@) == seq!["git"@, "-C"@, path@, "fetch"@, "origin"@, branch@],
{
    let mut v = text::no_texts();
    text::add_text(&mut v, "git");
    text::add_text(&mut v, "-C");
    text::add_text(&mut v, path);
    text::add_text(&mut v, "fetch");
    text::add_text(&mut v, "origin");
    text::add_text(&mut v, branch);
    v
}

/// What a failed fetch is refused with.
pub open spec fn fetch_refused(kind: Seq<char>, finding: i64, branch: Seq<char>, out: Seq<char>) -> (
    Seq<EffectView>,
    Seq<char>,
) {
    let tail = util::tail_text(out, 300);
    refused(
        kind,
        finding,
        ": fetch "@ + branch + " failed: "@ + tail,
        "fetch failed: "@ + tail,
    )
}

/// Nothing where the fetch succeeded, else the refusal.
pub fn fetch_outcome(kind: &str, finding: i64, branch: &str, rc: i32, out: &str) -> (r: Option<
    Refusal,
>)
    ensures
        match r {
            Some(x) => rc != 0 && refusal_view(x) == fetch_refused(kind@, finding, branch@, out@),
            None => rc == 0,
        },
{
    if rc == 0 {
        return None;
    }
    let tail = util::tail(out, 300);
    let msg = ": fetch ".to_owned().concat(branch).concat(" failed: ").concat(tail);
    let error = "fetch failed: ".to_owned().concat(tail);
    Some(refuse(kind, finding, &msg, &error))
}

/// An engage never works on the default branch.
pub proof fn law_engage_spares_default_branch(
    f: Finding,
    repo: Repo,
    ps: Option<PrState>,
    number: int,
    healed: bool,
    branch: Seq<char>,
)
    requires
        engage_ready(f, repo, ps) == Ok::<(int, bool, Seq<char>), (Seq<EffectView>, Seq<char>)>(
            (number, healed, branch),
        ),
    ensures
        branch != repo.default_branch@,
        branch.len() > 0,
{
}

/// An engage is launched exactly where the branch of the pull request is
/// known and not the default branch, and its number is stored or named by the
/// finding's address. The number is healed exactly where it was not stored.
pub proof fn law_engage_needs_a_branch_and_a_number(f: Finding, repo: Repo, ps: Option<PrState>)
    ensures
        ({
            let head = match ps {
                Some(p) => match p.head_ref {
                    Some(h) => h@,
                    None => Seq::<char>::empty(),
                },
                None => Seq::<char>::empty(),
            };
            let number = match ps {
                Some(p) => match p.pr_number {
                    Some(n) => Some(n as int),
                    None => match f.pr_url {
                        Some(u) => match forge::pr_url_parts(repo.forge, u@) {
                            Some((_, n)) => Some(n),
                            None => None,
                        },
                        None => None,
                    },
                },
                None => None,
            };
            &&& engage_ready(f, repo, ps) is Ok <==> head.len() > 0 && head != repo.default_branch@ && number
                is Some
            &&& engage_ready(f, repo, ps) matches Ok((n, healed, branch)) ==> Some(n) == number && branch == head
                && (healed <==> ps->0.pr_number is None)
            &&& harvest_ready(f, repo, ps) is Ok <==> number is Some
            &&& harvest_ready(f, repo, ps) matches Ok((n, healed, branch)) ==> Some(n) == number && branch
                == repo.default_branch@ && (healed <==> ps->0.pr_number is None)
        }),
{
}

/// A refused job changes nothing but the log, except that a number that the
/// address names is kept.
pub proof fn law_refusal_changes_nothing(f: Finding, repo: Repo, ps: Option<PrState>, i: int)
    ensures
        engage_ready(f, repo, ps) matches Err((v, _)) ==> (0 <= i < v.len() ==> (v[i] is Log || (v[i] matches
            EffectView::SetPrNumber { finding, number } && finding == f.id && ps is Some
            && ps->0.pr_number is None)) && effects::finding_of(v[i]) == Some(f.id)),
        harvest_ready(f, repo, ps) matches Err((v, _)) ==> (0 <= i < v.len() ==> v[i] is Log
            && effects::finding_of(v[i]) == Some(f.id)),
{
}

} // verus!
