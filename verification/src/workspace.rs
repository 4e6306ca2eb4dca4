//! Where a chain of attempts runs, and when that place may go away.

use vstd::prelude::*;
use crate::domain::{FindingJobKind, JobKind, JobState};
use crate::text;
use crate::text::Cut;
use crate::util;

verus! {

/// What a cold chain's tree starts as.
#[derive(Debug, Clone)]
pub enum TreeSpec {
    /// Detached at a revision.
    Detached { at: String },
    /// A new local branch at a revision.
    Branch { name: String, at: String },
    /// A pull request's head, fetched into `origin/<head_ref>`.
    PrHead { head_ref: String },
}

/// A tree specification with its texts as character sequences.
pub enum TreeSpecView {
    Detached { at: Seq<char> },
    Branch { name: Seq<char>, at: Seq<char> },
    PrHead { head_ref: Seq<char> },
}

impl View for TreeSpec {
    type V = TreeSpecView;

    open spec fn view(&self) -> TreeSpecView {
        match *self {
            TreeSpec::Detached { at } => TreeSpecView::Detached { at: at@ },
            TreeSpec::Branch { name, at } => TreeSpecView::Branch { name: name@, at: at@ },
            TreeSpec::PrHead { head_ref } => TreeSpecView::PrHead { head_ref: head_ref@ },
        }
    }
}

impl TreeSpec {
    pub fn copy(&self) -> (r: TreeSpec)
        ensures
            r@ == self@,
    {
        match self {
            TreeSpec::Detached { at } => TreeSpec::Detached { at: at.clone() },
            TreeSpec::Branch { name, at } => TreeSpec::Branch { name: name.clone(), at: at.clone() },
            TreeSpec::PrHead { head_ref } => TreeSpec::PrHead { head_ref: head_ref.clone() },
        }
    }
}

/// How long a finished chain's transcript is kept.
pub const SESSION_RETENTION_MS: i64 = 2_592_000_000;

// ---------------------------------------------------------------------
// Places
// ---------------------------------------------------------------------

/// One chain's workspace: plain paths.
#[derive(Debug, Clone)]
pub struct Workspace {
    /// The chain's first job, whose id names the directory.
    pub origin_id: i64,
    pub root: String,
    /// The git worktree that the worker runs in.
    pub tree: String,
    /// The session directory.
    pub session: String,
    /// The clone that `tree` is a worktree of.
    pub clone: String,
}

pub open spec fn jobs_root_of(work_root: Seq<char>) -> Seq<char> {
    util::path_join(work_root, "jobs"@)
}

/// The directory of a chain.
pub open spec fn chain_root(work_root: Seq<char>, origin_id: i64) -> Seq<char> {
    util::path_join(jobs_root_of(work_root), text::int_text(origin_id as int))
}

pub struct WorkspaceView {
    pub origin_id: i64,
    pub root: Seq<char>,
    pub tree: Seq<char>,
    pub session: Seq<char>,
    pub clone: Seq<char>,
}

impl View for Workspace {
    type V = WorkspaceView;

    open spec fn view(&self) -> WorkspaceView {
        WorkspaceView {
            origin_id: self.origin_id,
            root: self.root@,
            tree: self.tree@,
            session: self.session@,
            clone: self.clone@,
        }
    }
}

/// The workspace of a chain.
pub open spec fn chain_workspace(work_root: Seq<char>, clone: Seq<char>, origin_id: i64) -> WorkspaceView {
    let root = chain_root(work_root, origin_id);
    WorkspaceView {
        origin_id,
        root,
        tree: util::path_join(root, "tree"@),
        session: util::path_join(root, "session"@),
        clone,
    }
}

impl Workspace {
    pub fn for_chain(work_root: &str, clone: &str, origin_id: i64) -> (r: Workspace)
        ensures
            r@ == chain_workspace(work_root@, clone@, origin_id),
    {
        let root = util::join_path(
            &jobs_root(work_root),
            text::int_to_text(origin_id).as_str(),
        );
        let tree = util::join_path(&root, "tree");
        let session = util::join_path(&root, "session");
        Workspace { origin_id, root, tree, session, clone: clone.to_owned() }
    }

    /// The build cache that all chains of a repository share.
    pub fn build_cache(&self) -> (r: String)
        ensures
            r@ == util::path_join(self.clone@, "target"@),
    {
        util::join_path(&self.clone, "target")
    }
}

/// The parent of every chain's workspace.
pub fn jobs_root(work_root: &str) -> (r: String)
    ensures
        r@ == jobs_root_of(work_root@),
{
    util::join_path(work_root, "jobs")
}

/// The parent of the trees that dependency scans run in.
pub fn scan_root(work_root: &str) -> (r: String)
    ensures
        r@ == util::path_join(work_root@, "scan"@),
{
    util::join_path(work_root, "scan")
}

/// A throwaway tree for a dependency scan.
pub struct ScanTree {
    pub path: String,
    pub clone: String,
}

impl ScanTree {
    /// Why the tree of a scan could not be made, from git's answer.
    pub fn failure(rc: i32, out: &str) -> (r: Option<String>)
        ensures
            text::opt_text(r) == (if rc == 0 {
                None
            } else {
                Some("scan worktree add failed: "@ + util::tail_text(out@, 300))
            }),
    {
        if rc == 0 {
            None
        } else {
            Some("scan worktree add failed: ".to_owned().concat(util::tail(out, 300)))
        }
    }

    /// The command that makes the tree at a revision.
    pub fn add_args(&self, at: &str) -> (r: Vec<String>)
        ensures
            text::texts(r@) == add_args(
                self.clone@,
                self.path@,
                (TreeSpecView::Detached { at: at@ }),
                at@,
            ),
    {
        add_command(&self.clone, &self.path, &TreeSpec::Detached { at: at.to_owned() }, at)
    }

    /// The tree of a repository's scan.
    pub fn for_repo(work_root: &str, clone: &str, repo_id: i64) -> (r: ScanTree)
        ensures
            r.path@ == util::path_join(
                util::path_join(work_root@, "scan"@),
                "repo-"@ + text::int_text(repo_id as int),
            ),
            r.clone@ == clone@,
    {
        let name = "repo-".to_owned().concat(text::int_to_text(repo_id).as_str());
        ScanTree { path: util::join_path(&scan_root(work_root), &name), clone: clone.to_owned() }
    }

    pub fn path(&self) -> (r: &String)
        ensures
            r@ == self.path@,
    {
        &self.path
    }
}

// ---------------------------------------------------------------------
// Git
// ---------------------------------------------------------------------

/// The command that asks git which commit a revision names.
pub open spec fn find_args(clone: Seq<char>, rev: Seq<char>) -> Seq<Seq<char>> {
    seq!["git"@, "-C"@, clone, "rev-parse"@, "--verify"@, "--quiet"@, rev + "^{commit}"@]
}

/// Asks git which commit a revision names.
pub fn resolve_args(clone: &str, rev: &str) -> (r: Vec<String>)
    ensures
        text::texts(r@) == find_args(clone@, rev@),
{
    let wanted = rev.to_owned().concat("^{commit}");
    let mut v = text::no_texts();
    text::add_text(&mut v, "git");
    text::add_text(&mut v, "-C");
    text::add_text(&mut v, clone);
    text::add_text(&mut v, "rev-parse");
    text::add_text(&mut v, "--verify");
    text::add_text(&mut v, "--quiet");
    text::add_text(&mut v, &wanted);
    v
}

/// The commit that git printed, where it found one.
pub open spec fn commit_of(rc: i32, out: Seq<char>) -> Option<Seq<char>> {
    let sha = text::trim(out, Cut::White);
    if rc == 0 && sha.len() > 0 { Some(sha) } else { None }
}

/// The commit that a revision names, from git's answer.
pub fn resolve(rc: i32, out: &str) -> (r: Option<String>)
    ensures
        text::opt_text(r) == commit_of(rc, out@),
{
    let sha = text::trim_text(out, Cut::White);
    if rc == 0 && !sha.as_str().is_empty() {
        Some(sha)
    } else {
        None
    }
}

/// The revision that a new tree starts at.
pub open spec fn start_rev(spec: TreeSpecView) -> Seq<char> {
    match spec {
        TreeSpecView::Detached { at } => at,
        TreeSpecView::Branch { at, .. } => at,
        TreeSpecView::PrHead { head_ref } => "origin/"@ + head_ref,
    }
}

/// The command that adds a tree at a commit.
pub open spec fn add_args(clone: Seq<char>, tree: Seq<char>, spec: TreeSpecView, sha: Seq<char>) -> Seq<
    Seq<char>,
> {
    match spec {
        TreeSpecView::Branch { name, .. } => seq![
            "git"@,
            "-C"@,
            clone,
            "worktree"@,
            "add"@,
            "-b"@,
            name,
            tree,
            sha,
        ],
        _ => seq!["git"@, "-C"@, clone, "worktree"@, "add"@, "--detach"@, tree, sha],
    }
}

fn add_command(clone: &str, tree: &str, spec: &TreeSpec, sha: &str) -> (r: Vec<String>)
    ensures
        text::texts(r@) == add_args(clone@, tree@, spec@, sha@),
{
    let mut v = text::no_texts();
    text::add_text(&mut v, "git");
    text::add_text(&mut v, "-C");
    text::add_text(&mut v, clone);
    text::add_text(&mut v, "worktree");
    text::add_text(&mut v, "add");
    match spec {
        TreeSpec::Branch { name, at: _ } => {
            text::add_text(&mut v, "-b");
            text::add_text(&mut v, name);
        },
        _ => {
            text::add_text(&mut v, "--detach");
        },
    }
    text::add_text(&mut v, tree);
    text::add_text(&mut v, sha);
    assert(text::texts(v@) =~= add_args(clone@, tree@, spec@, sha@));
    v
}

/// Where the making of a tree stands.
#[derive(Debug, Clone)]
pub enum TreePhase {
    /// Waiting for the commit of the starting revision.
    Resolve,
    /// Waiting for the tree.
    Add { sha: String, retried: bool },
    /// Waiting for the old branch's removal.
    Reclaim { sha: String, step: u8 },
    /// Waiting for the checkout of the branch.
    Checkout { sha: String },
    Ended,
}

pub enum TreePhaseView {
    Resolve,
    Add { sha: Seq<char>, retried: bool },
    Reclaim { sha: Seq<char>, step: u8 },
    Checkout { sha: Seq<char> },
    Ended,
}

impl View for TreePhase {
    type V = TreePhaseView;

    open spec fn view(&self) -> TreePhaseView {
        match *self {
            TreePhase::Resolve => TreePhaseView::Resolve,
            TreePhase::Add { sha, retried } => TreePhaseView::Add { sha: sha@, retried },
            TreePhase::Reclaim { sha, step } => TreePhaseView::Reclaim { sha: sha@, step },
            TreePhase::Checkout { sha } => TreePhaseView::Checkout { sha: sha@ },
            TreePhase::Ended => TreePhaseView::Ended,
        }
    }
}

/// What the driver does next.
#[derive(Debug, Clone)]
pub enum TreeAction {
    /// Run this git command.
    Git { argv: Vec<String> },
    /// Remove what is left of the tree, then run this git command.
    ClearThenGit { argv: Vec<String> },
    /// The tree stands at this commit.
    Made { sha: String },
    /// The tree could not be made.
    Failed { why: String },
}

pub enum TreeActionView {
    Git { argv: Seq<Seq<char>> },
    ClearThenGit { argv: Seq<Seq<char>> },
    Made { sha: Seq<char> },
    Failed { why: Seq<char> },
}

impl View for TreeAction {
    type V = TreeActionView;

    open spec fn view(&self) -> TreeActionView {
        match *self {
            TreeAction::Git { argv } => TreeActionView::Git { argv: text::texts(argv@) },
            TreeAction::ClearThenGit { argv } => TreeActionView::ClearThenGit {
                argv: text::texts(argv@),
            },
            TreeAction::Made { sha } => TreeActionView::Made { sha: sha@ },
            TreeAction::Failed { why } => TreeActionView::Failed { why: why@ },
        }
    }
}

/// One step of the making of a tree, on git's answer. A branch that an older
/// chain left behind is reclaimed once; the checkout of a pull request's
/// branch is best effort.
pub open spec fn tree_next(
    clone: Seq<char>,
    tree: Seq<char>,
    spec: TreeSpecView,
    phase: TreePhaseView,
    rc: i32,
    out: Seq<char>,
) -> (TreePhaseView, TreeActionView) {
    let broken = (
        TreePhaseView::Ended,
        TreeActionView::Failed { why: "worktree add failed: "@ + util::tail_text(out, 300) },
    );
    match phase {
        TreePhaseView::Resolve => match commit_of(rc, out) {
            Some(sha) => (
                TreePhaseView::Add { sha, retried: false },
                TreeActionView::Git { argv: add_args(clone, tree, spec, sha) },
            ),
            None => (
                TreePhaseView::Ended,
                TreeActionView::Failed { why: start_rev(spec) + " does not resolve to a commit"@ },
            ),
        },
        TreePhaseView::Add { sha, retried } => match spec {
            TreeSpecView::Detached { .. } => if rc == 0 {
                (TreePhaseView::Ended, TreeActionView::Made { sha })
            } else {
                broken
            },
            TreeSpecView::Branch { .. } => if rc == 0 {
                (TreePhaseView::Ended, TreeActionView::Made { sha })
            } else if !retried {
                (
                    TreePhaseView::Reclaim { sha, step: 0 },
                    TreeActionView::ClearThenGit {
                        argv: seq!["git"@, "-C"@, clone, "worktree"@, "prune"@],
                    },
                )
            } else {
                broken
            },
            TreeSpecView::PrHead { head_ref } => if rc == 0 {
                (
                    TreePhaseView::Checkout { sha },
                    TreeActionView::Git {
                        argv: seq![
                            "git"@,
                            "-C"@,
                            tree,
                            "checkout"@,
                            "-B"@,
                            head_ref,
                            "origin/"@ + head_ref,
                        ],
                    },
                )
            } else {
                broken
            },
        },
        TreePhaseView::Reclaim { sha, step } => match spec {
            TreeSpecView::Branch { name, .. } => if step == 0 {
                (
                    TreePhaseView::Reclaim { sha, step: 1 },
                    TreeActionView::Git { argv: seq!["git"@, "-C"@, clone, "branch"@, "-D"@, name] },
                )
            } else {
                (
                    TreePhaseView::Add { sha, retried: true },
                    TreeActionView::Git { argv: add_args(clone, tree, spec, sha) },
                )
            },
            _ => broken,
        },
        TreePhaseView::Checkout { sha } => (TreePhaseView::Ended, TreeActionView::Made { sha }),
        TreePhaseView::Ended => broken,
    }
}

fn broken_tree(out: &str) -> (r: (TreePhase, TreeAction))
    ensures
        r.0@ == TreePhaseView::Ended,
        r.1@ == (TreeActionView::Failed { why: "worktree add failed: "@ + util::tail_text(out@, 300) }),
{
    (
        TreePhase::Ended,
        TreeAction::Failed { why: "worktree add failed: ".to_owned().concat(util::tail(out, 300)) },
    )
}

/// The command that has a clone forget the trees that are gone.
pub fn prune_args(clone: &str) -> (r: Vec<String>)
    ensures
        text::texts(r@) == seq!["git"@, "-C"@, clone@, "worktree"@, "prune"@],
{
    let mut v = text::no_texts();
    text::add_text(&mut v, "git");
    text::add_text(&mut v, "-C");
    text::add_text(&mut v, clone);
    text::add_text(&mut v, "worktree");
    text::add_text(&mut v, "prune");
    v
}

/// The first command of the making of a tree.
pub fn tree_start(clone: &str, spec: &TreeSpec) -> (r: Vec<String>)
    ensures
        text::texts(r@) == find_args(clone@, start_rev(spec@)),
{
    match spec {
        TreeSpec::Detached { at } => resolve_args(clone, at),
        TreeSpec::Branch { name: _, at } => resolve_args(clone, at),
        TreeSpec::PrHead { head_ref } => {
            let rev = "origin/".to_owned().concat(head_ref);
            resolve_args(clone, &rev)
        },
    }
}

/// One step of the making of a tree.
pub fn tree_step(clone: &str, tree: &str, spec: &TreeSpec, phase: TreePhase, rc: i32, out: &str) -> (r: (
    TreePhase,
    TreeAction,
))
    ensures
        (r.0@, r.1@) == tree_next(clone@, tree@, spec@, phase@, rc, out@),
{
    match phase {
        TreePhase::Resolve => match resolve(rc, out) {
            Some(sha) => {
                let argv = add_command(clone, tree, spec, &sha);
                (TreePhase::Add { sha, retried: false }, TreeAction::Git { argv })
            },
            None => {
                let rev: String = match spec {
                    TreeSpec::Detached { at } => at.clone(),
                    TreeSpec::Branch { name: _, at } => at.clone(),
                    TreeSpec::PrHead { head_ref } => "origin/".to_owned().concat(head_ref),
                };
                (
                    TreePhase::Ended,
                    TreeAction::Failed { why: rev.concat(" does not resolve to a commit") },
                )
            },
        },
        TreePhase::Add { sha, retried } => match spec {
            TreeSpec::Detached { at: _ } => if rc == 0 {
                (TreePhase::Ended, TreeAction::Made { sha })
            } else {
                broken_tree(out)
            },
            TreeSpec::Branch { name: _, at: _ } => if rc == 0 {
                (TreePhase::Ended, TreeAction::Made { sha })
            } else if !retried {
                (
                    TreePhase::Reclaim { sha, step: 0 },
                    TreeAction::ClearThenGit { argv: prune_args(clone) },
                )
            } else {
                broken_tree(out)
            },
            TreeSpec::PrHead { head_ref } => if rc == 0 {
                let remote = "origin/".to_owned().concat(head_ref);
                let mut v = text::no_texts();
                text::add_text(&mut v, "git");
                text::add_text(&mut v, "-C");
                text::add_text(&mut v, tree);
                text::add_text(&mut v, "checkout");
                text::add_text(&mut v, "-B");
                text::add_text(&mut v, head_ref);
                text::add_text(&mut v, &remote);
                assert(text::texts(v@) =~= seq![
                    "git"@,
                    "-C"@,
                    tree@,
                    "checkout"@,
                    "-B"@,
                    head_ref@,
                    "origin/"@ + head_ref@,
                ]);
                (TreePhase::Checkout { sha }, TreeAction::Git { argv: v })
            } else {
                broken_tree(out)
            },
        },
        TreePhase::Reclaim { sha, step } => match spec {
            TreeSpec::Branch { name, at: _ } => if step == 0 {
                let mut v = text::no_texts();
                text::add_text(&mut v, "git");
                text::add_text(&mut v, "-C");
                text::add_text(&mut v, clone);
                text::add_text(&mut v, "branch");
                text::add_text(&mut v, "-D");
                text::add_text(&mut v, name);
                assert(text::texts(v@) =~= seq!["git"@, "-C"@, clone@, "branch"@, "-D"@, name@]);
                (TreePhase::Reclaim { sha, step: 1 }, TreeAction::Git { argv: v })
            } else {
                let argv = add_command(clone, tree, spec, &sha);
                (TreePhase::Add { sha, retried: true }, TreeAction::Git { argv })
            },
            _ => broken_tree(out),
        },
        TreePhase::Checkout { sha } => (TreePhase::Ended, TreeAction::Made { sha }),
        TreePhase::Ended => broken_tree(out),
    }
}

/// Why a workspace cannot be made where something already is.
pub fn taken_note(root: &str) -> (r: String)
    ensures
        r@ == "workspace "@ + root@ + " already exists"@,
{
    "workspace ".to_owned().concat(root).concat(" already exists")
}

/// Why the session directory of a workspace could not be made.
pub fn session_dir_note(session: &str, error: &str) -> (r: String)
    ensures
        r@ == "cannot create "@ + session@ + ": "@ + error@,
{
    "cannot create ".to_owned().concat(session).concat(": ").concat(error)
}

/// The command that has git remove a tree.
pub open spec fn removal_args(clone: Seq<char>, tree: Seq<char>) -> Seq<Seq<char>> {
    seq!["git"@, "-C"@, clone, "worktree"@, "remove"@, "--force"@, tree]
}

/// The command that unregisters a tree.
pub fn remove_tree_args(clone: &str, tree: &str) -> (r: Vec<String>)
    ensures
        text::texts(r@) == removal_args(clone@, tree@),
{
    let mut v = text::no_texts();
    text::add_text(&mut v, "git");
    text::add_text(&mut v, "-C");
    text::add_text(&mut v, clone);
    text::add_text(&mut v, "worktree");
    text::add_text(&mut v, "remove");
    text::add_text(&mut v, "--force");
    text::add_text(&mut v, tree);
    v
}

/// Where the making of a workspace stands.
#[derive(Debug, Clone)]
pub enum CreatePhase {
    /// Waiting to hear whether something is at the workspace's place.
    Look,
    /// Waiting for the session directory.
    Session,
    /// Waiting for git.
    Tree { phase: TreePhase },
    Ended,
}

pub enum CreatePhaseView {
    Look,
    Session,
    Tree { phase: TreePhaseView },
    Ended,
}

impl View for CreatePhase {
    type V = CreatePhaseView;

    open spec fn view(&self) -> CreatePhaseView {
        match *self {
            CreatePhase::Look => CreatePhaseView::Look,
            CreatePhase::Session => CreatePhaseView::Session,
            CreatePhase::Tree { phase } => CreatePhaseView::Tree { phase: phase@ },
            CreatePhase::Ended => CreatePhaseView::Ended,
        }
    }
}

/// What the driver found or did.
#[derive(Debug, Clone)]
pub enum CreateEvent {
    /// Whether something is at the workspace's place.
    Root { exists: bool },
    /// The session directory, or why it could not be made.
    Session { error: Option<String> },
    /// Git's answer.
    Git { rc: i32, out: String },
}

/// What the driver does next.
#[derive(Debug, Clone)]
pub enum CreateAction {
    /// Make the session directory.
    MakeSession,
    /// Run this git command.
    Git { argv: Vec<String> },
    /// Remove what is left of the tree, then run this git command.
    ClearThenGit { argv: Vec<String> },
    /// The workspace stands, its tree at this commit.
    Made { sha: String },
    /// Something else has the place; it is left alone.
    Refuse { why: String },
    /// Remove the workspace's directory, then fail.
    RemoveRoot { why: String },
    /// Release the tree and remove the workspace's directory, then fail.
    ReleaseAndRemove { why: String },
}

pub enum CreateActionView {
    MakeSession,
    Git { argv: Seq<Seq<char>> },
    ClearThenGit { argv: Seq<Seq<char>> },
    Made { sha: Seq<char> },
    Refuse { why: Seq<char> },
    RemoveRoot { why: Seq<char> },
    ReleaseAndRemove { why: Seq<char> },
}

impl View for CreateAction {
    type V = CreateActionView;

    open spec fn view(&self) -> CreateActionView {
        match *self {
            CreateAction::MakeSession => CreateActionView::MakeSession,
            CreateAction::Git { argv } => CreateActionView::Git { argv: text::texts(argv@) },
            CreateAction::ClearThenGit { argv } => CreateActionView::ClearThenGit {
                argv: text::texts(argv@),
            },
            CreateAction::Made { sha } => CreateActionView::Made { sha: sha@ },
            CreateAction::Refuse { why } => CreateActionView::Refuse { why: why@ },
            CreateAction::RemoveRoot { why } => CreateActionView::RemoveRoot { why: why@ },
            CreateAction::ReleaseAndRemove { why } => CreateActionView::ReleaseAndRemove {
                why: why@,
            },
        }
    }
}

/// One step of the making of a workspace. A place that is taken is refused,
/// not cleared; a failure after that takes back all that was made.
pub open spec fn create_next(
    ws: WorkspaceView,
    spec: TreeSpecView,
    phase: CreatePhaseView,
    event: CreateEvent,
) -> (CreatePhaseView, CreateActionView) {
    match (phase, event) {
        (CreatePhaseView::Look, CreateEvent::Root { exists }) => if exists {
            (
                CreatePhaseView::Ended,
                CreateActionView::Refuse { why: "workspace "@ + ws.root + " already exists"@ },
            )
        } else {
            (CreatePhaseView::Session, CreateActionView::MakeSession)
        },
        (CreatePhaseView::Session, CreateEvent::Session { error }) => match error {
            Some(e) => (
                CreatePhaseView::Ended,
                CreateActionView::RemoveRoot { why: "cannot create "@ + ws.session + ": "@ + e@ },
            ),
            None => (
                CreatePhaseView::Tree { phase: TreePhaseView::Resolve },
                CreateActionView::Git { argv: find_args(ws.clone, start_rev(spec)) },
            ),
        },
        (CreatePhaseView::Tree { phase }, CreateEvent::Git { rc, out }) => {
            let (next, action) = tree_next(ws.clone, ws.tree, spec, phase, rc, out@);
            match action {
                TreeActionView::Git { argv } => (
                    CreatePhaseView::Tree { phase: next },
                    CreateActionView::Git { argv },
                ),
                TreeActionView::ClearThenGit { argv } => (
                    CreatePhaseView::Tree { phase: next },
                    CreateActionView::ClearThenGit { argv },
                ),
                TreeActionView::Made { sha } => (
                    CreatePhaseView::Ended,
                    CreateActionView::Made { sha },
                ),
                TreeActionView::Failed { why } => (
                    CreatePhaseView::Ended,
                    CreateActionView::ReleaseAndRemove { why },
                ),
            }
        },
        _ => (CreatePhaseView::Ended, CreateActionView::Refuse { why: "out of turn"@ }),
    }
}

/// One step of the making of a workspace.
pub fn create_step(ws: &Workspace, spec: &TreeSpec, phase: CreatePhase, event: CreateEvent) -> (r: (
    CreatePhase,
    CreateAction,
))
    ensures
        (r.0@, r.1@) == create_next(ws@, spec@, phase@, event),
{
    match (phase, event) {
        (CreatePhase::Look, CreateEvent::Root { exists }) => if exists {
            (CreatePhase::Ended, CreateAction::Refuse { why: taken_note(&ws.root) })
        } else {
            (CreatePhase::Session, CreateAction::MakeSession)
        },
        (CreatePhase::Session, CreateEvent::Session { error }) => match error {
            Some(e) => (
                CreatePhase::Ended,
                CreateAction::RemoveRoot { why: session_dir_note(&ws.session, &e) },
            ),
            None => (
                CreatePhase::Tree { phase: TreePhase::Resolve },
                CreateAction::Git { argv: tree_start(&ws.clone, spec) },
            ),
        },
        (CreatePhase::Tree { phase }, CreateEvent::Git { rc, out }) => {
            let (next, action) = tree_step(&ws.clone, &ws.tree, spec, phase, rc, &out);
            match action {
                TreeAction::Git { argv } => (
                    CreatePhase::Tree { phase: next },
                    CreateAction::Git { argv },
                ),
                TreeAction::ClearThenGit { argv } => (
                    CreatePhase::Tree { phase: next },
                    CreateAction::ClearThenGit { argv },
                ),
                TreeAction::Made { sha } => (CreatePhase::Ended, CreateAction::Made { sha }),
                TreeAction::Failed { why } => (
                    CreatePhase::Ended,
                    CreateAction::ReleaseAndRemove { why },
                ),
            }
        },
        _ => (CreatePhase::Ended, CreateAction::Refuse { why: "out of turn".to_owned() }),
    }
}

/// Where the release of a tree stands.
#[derive(Debug, Clone, Copy, PartialEq, Eq, Structural)]
pub enum ReleasePhase {
    Start,
    /// Git was asked to remove the tree, or could not be.
    Unregistered,
    /// The tree's directory is gone.
    Cleared,
    Ended,
}

/// What the driver does next.
#[derive(Debug, Clone)]
pub enum ReleaseAction {
    /// Run this git command, whatever it answers.
    Git { argv: Vec<String> },
    /// Remove the tree's directory.
    RemoveTree,
    Done,
}

pub enum ReleaseActionView {
    Git { argv: Seq<Seq<char>> },
    RemoveTree,
    Done,
}

impl View for ReleaseAction {
    type V = ReleaseActionView;

    open spec fn view(&self) -> ReleaseActionView {
        match *self {
            ReleaseAction::Git { argv } => ReleaseActionView::Git { argv: text::texts(argv@) },
            ReleaseAction::RemoveTree => ReleaseActionView::RemoveTree,
            ReleaseAction::Done => ReleaseActionView::Done,
        }
    }
}

/// One step of the release of a tree, on whether its clone and the tree are
/// there. Git removes the tree where it can, what it leaves is deleted, and
/// the clone forgets it. Git runs only in a clone that is there.
pub open spec fn release_next(
    ws: WorkspaceView,
    phase: ReleasePhase,
    clone_there: bool,
    tree_there: bool,
) -> (ReleasePhase, ReleaseActionView) {
    if phase == ReleasePhase::Start && tree_there && clone_there {
        (
            ReleasePhase::Unregistered,
            ReleaseActionView::Git { argv: removal_args(ws.clone, ws.tree) },
        )
    } else if (phase == ReleasePhase::Start || phase == ReleasePhase::Unregistered) && tree_there {
        (ReleasePhase::Cleared, ReleaseActionView::RemoveTree)
    } else if phase != ReleasePhase::Ended && clone_there {
        (
            ReleasePhase::Ended,
            ReleaseActionView::Git { argv: seq!["git"@, "-C"@, ws.clone, "worktree"@, "prune"@] },
        )
    } else {
        (ReleasePhase::Ended, ReleaseActionView::Done)
    }
}

/// One step of the release of a tree.
pub fn release_step(ws: &Workspace, phase: ReleasePhase, clone_there: bool, tree_there: bool) -> (r: (
    ReleasePhase,
    ReleaseAction,
))
    ensures
        (r.0, r.1@) == release_next(ws@, phase, clone_there, tree_there),
{
    if phase == ReleasePhase::Start && tree_there && clone_there {
        (
            ReleasePhase::Unregistered,
            ReleaseAction::Git { argv: remove_tree_args(&ws.clone, &ws.tree) },
        )
    } else if (phase == ReleasePhase::Start || phase == ReleasePhase::Unregistered) && tree_there {
        (ReleasePhase::Cleared, ReleaseAction::RemoveTree)
    } else if phase != ReleasePhase::Ended && clone_there {
        (ReleasePhase::Ended, ReleaseAction::Git { argv: prune_args(&ws.clone) })
    } else {
        (ReleasePhase::Ended, ReleaseAction::Done)
    }
}

/// Where the removal of a tree stands whose clone is not known.
#[derive(Debug, Clone, Copy, PartialEq, Eq, Structural)]
pub enum OrphanPhase {
    Start,
    /// Waiting to hear where the clone is.
    Asked,
    /// Git was asked to remove the tree.
    Unregistered,
    Ended,
}

/// What the driver found.
#[derive(Debug, Clone)]
pub enum OrphanEvent {
    /// Whether the tree has a `.git` entry.
    Entry { there: bool },
    /// Git's answer, and the parent of the directory that it printed.
    Clone { rc: i32, parent: Option<String> },
    /// Git is done with the tree, whatever it answered.
    Removed,
}

/// What the driver does next.
#[derive(Debug, Clone)]
pub enum OrphanAction {
    /// Run this git command.
    Git { argv: Vec<String> },
    /// Delete what is left of the tree; that is all.
    Delete,
}

pub enum OrphanActionView {
    Git { argv: Seq<Seq<char>> },
    Delete,
}

impl View for OrphanAction {
    type V = OrphanActionView;

    open spec fn view(&self) -> OrphanActionView {
        match *self {
            OrphanAction::Git { argv } => OrphanActionView::Git { argv: text::texts(argv@) },
            OrphanAction::Delete => OrphanActionView::Delete,
        }
    }
}

/// The command that asks a tree for the git directory of its clone.
pub open spec fn common_dir_args(tree: Seq<char>) -> Seq<Seq<char>> {
    seq![
        "git"@,
        "-C"@,
        tree,
        "rev-parse"@,
        "--path-format=absolute"@,
        "--git-common-dir"@,
    ]
}

/// One step of the removal of a tree whose clone is not known: the tree is
/// asked for it, git unregisters the tree there, and what is left is deleted.
pub open spec fn orphan_next(tree: Seq<char>, phase: OrphanPhase, event: OrphanEvent) -> (
    OrphanPhase,
    OrphanActionView,
) {
    match (phase, event) {
        (OrphanPhase::Start, OrphanEvent::Entry { there: true }) => (
            OrphanPhase::Asked,
            OrphanActionView::Git { argv: common_dir_args(tree) },
        ),
        (OrphanPhase::Asked, OrphanEvent::Clone { rc, parent: Some(clone) }) => if rc == 0 {
            (
                OrphanPhase::Unregistered,
                OrphanActionView::Git { argv: removal_args(clone@, tree) },
            )
        } else {
            (OrphanPhase::Ended, OrphanActionView::Delete)
        },
        _ => (OrphanPhase::Ended, OrphanActionView::Delete),
    }
}

/// One step of the removal of a tree whose clone is not known.
pub fn orphan_step(tree: &str, phase: OrphanPhase, event: OrphanEvent) -> (r: (
    OrphanPhase,
    OrphanAction,
))
    ensures
        (r.0, r.1@) == orphan_next(tree@, phase, event),
{
    match (phase, event) {
        (OrphanPhase::Start, OrphanEvent::Entry { there: true }) => {
            let mut v = text::no_texts();
            text::add_text(&mut v, "git");
            text::add_text(&mut v, "-C");
            text::add_text(&mut v, tree);
            text::add_text(&mut v, "rev-parse");
            text::add_text(&mut v, "--path-format=absolute");
            text::add_text(&mut v, "--git-common-dir");
            assert(text::texts(v@) =~= common_dir_args(tree@));
            (OrphanPhase::Asked, OrphanAction::Git { argv: v })
        },
        (OrphanPhase::Asked, OrphanEvent::Clone { rc, parent: Some(clone) }) => if rc == 0 {
            (
                OrphanPhase::Unregistered,
                OrphanAction::Git { argv: remove_tree_args(&clone, tree) },
            )
        } else {
            (OrphanPhase::Ended, OrphanAction::Delete)
        },
        _ => (OrphanPhase::Ended, OrphanAction::Delete),
    }
}

// ---------------------------------------------------------------------
// When a place may go
// ---------------------------------------------------------------------

/// What the sweep reclaimed.
#[derive(Debug, Clone, Copy, PartialEq, Eq, Structural)]
pub struct SweepReport {
    pub trees_released: usize,
    pub workspaces_removed: usize,
    pub legacy_trees_removed: usize,
    pub legacy_trees_kept: usize,
    pub legacy_sessions_removed: usize,
}

impl Default for SweepReport {
    fn default() -> (r: SweepReport)
        ensures
            r == (SweepReport {
                trees_released: 0,
                workspaces_removed: 0,
                legacy_trees_removed: 0,
                legacy_trees_kept: 0,
                legacy_sessions_removed: 0,
            }),
    {
        SweepReport {
            trees_released: 0,
            workspaces_removed: 0,
            legacy_trees_removed: 0,
            legacy_trees_kept: 0,
            legacy_sessions_removed: 0,
        }
    }
}

/// Whether something is older than the retention. Without a known age it is
/// not.
pub open spec fn is_expired(last: Option<i64>, now_ms: i64) -> bool {
    match last {
        Some(t) => now_ms - t > SESSION_RETENTION_MS,
        None => false,
    }
}

pub fn expired(last: Option<i64>, now_ms: i64) -> (r: bool)
    ensures
        r == is_expired(last, now_ms),
{
    match last {
        Some(t) => now_ms as i128 - t as i128 > SESSION_RETENTION_MS as i128,
        None => false,
    }
}

/// What happens to a chain's workspace.
#[derive(Debug, Clone, Copy, PartialEq, Eq, Structural)]
pub enum ChainFate {
    /// Left alone.
    Keep,
    /// The tree goes, the transcript stays.
    ReleaseTree,
    /// All of it goes.
    Remove,
}

/// Whether none of a chain's attempts runs or waits to be continued.
pub open spec fn is_idle(live: i64) -> bool {
    live <= 0
}

/// Whether a chain's tree may be released: `live` attempts run or wait.
pub fn release_if_idle(live: i64) -> (r: bool)
    ensures
        r == is_idle(live),
{
    live <= 0
}

/// A chain with a running or suspended attempt is left alone; any other
/// loses its tree, and after the retention everything.
pub open spec fn fate_of(live: i64, finished: Option<i64>, mtime: Option<i64>, now_ms: i64) -> ChainFate {
    if !is_idle(live) {
        ChainFate::Keep
    } else if is_expired(if finished is Some { finished } else { mtime }, now_ms) {
        ChainFate::Remove
    } else {
        ChainFate::ReleaseTree
    }
}

/// Decide what happens to a chain's workspace: `live` attempts run or wait,
/// the last finished at `finished`, the directory changed at `mtime`.
pub fn chain_fate(live: i64, finished: Option<i64>, mtime: Option<i64>, now_ms: i64) -> (r: ChainFate)
    ensures
        r == fate_of(live, finished, mtime, now_ms),
{
    if live > 0 {
        return ChainFate::Keep;
    }
    let last: Option<i64> = match finished {
        Some(t) => Some(t),
        None => mtime,
    };
    if expired(last, now_ms) {
        ChainFate::Remove
    } else {
        ChainFate::ReleaseTree
    }
}

/// A job that runs or waits to be continued.
#[derive(Debug, Clone)]
pub struct LiveJob {
    pub kind: JobKind,
    pub finding_id: Option<i64>,
    pub session_file: Option<String>,
}

/// The directory of the old layout that a job of this kind ran in.
pub open spec fn legacy_name(kind: JobKind, finding_id: Option<i64>) -> Option<Seq<char>> {
    match (kind, finding_id) {
        (JobKind::Finding(FindingJobKind::Fix), Some(f)) => Some("f"@ + text::int_text(f as int)),
        (JobKind::Finding(FindingJobKind::Engage), Some(f)) => Some(
            "e"@ + text::int_text(f as int),
        ),
        (JobKind::Finding(FindingJobKind::Harvest), Some(f)) => Some(
            "h"@ + text::int_text(f as int),
        ),
        _ => None,
    }
}

pub fn legacy_wt_name(kind: JobKind, finding_id: Option<i64>) -> (r: Option<String>)
    ensures
        text::opt_text(r) == legacy_name(kind, finding_id),
{
    let prefix: &str = match kind {
        JobKind::Finding(FindingJobKind::Fix) => "f",
        JobKind::Finding(FindingJobKind::Engage) => "e",
        JobKind::Finding(FindingJobKind::Harvest) => "h",
        _ => {
            return None;
        },
    };
    match finding_id {
        Some(f) => Some(prefix.to_owned().concat(text::int_to_text(f).as_str())),
        None => None,
    }
}

/// Whether a live job uses a tree of the old layout.
pub open spec fn uses_legacy_tree(j: LiveJob, dir: Seq<char>, name: Seq<char>) -> bool {
    ||| j.session_file matches Some(s) && util::path_under(s@, dir)
    ||| legacy_name(j.kind, j.finding_id) == Some(name)
}

/// Whether any live job uses the tree `name` at `dir`.
pub fn legacy_tree_in_use(live: &Vec<LiveJob>, dir: &str, name: &str) -> (r: bool)
    ensures
        r == exists|i: int|
            0 <= i < live@.len() && uses_legacy_tree(#[trigger] live@[i], dir@, name@),
{
    let mut i: usize = 0;
    while i < live.len()
        invariant
            i <= live@.len(),
            forall|k: int| 0 <= k < i ==> !uses_legacy_tree(#[trigger] live@[k], dir@, name@),
        decreases live@.len() - i,
    {
        let j = &live[i];
        let inside: bool = match &j.session_file {
            Some(s) => util::path_starts_with(s, dir),
            None => false,
        };
        let old = legacy_wt_name(j.kind, j.finding_id);
        if inside || text::opt_is(&old, name) {
            assert(uses_legacy_tree(live@[i as int], dir@, name@));
            return true;
        }
        i = i + 1;
    }
    false
}

/// The directory below `prefix` that a transcript lies in.
pub open spec fn run_dir(session_file: Seq<char>, prefix: Seq<char>) -> Option<Seq<char>> {
    if prefix.is_prefix_of(session_file) {
        Some(text::split(session_file.skip(prefix.len() as int), Cut::At('/'))[0])
    } else {
        None
    }
}

pub fn run_dir_of(session_file: &str, prefix: &str) -> (r: Option<String>)
    ensures
        text::opt_text(r) == run_dir(session_file@, prefix@),
{
    if !text::starts_with(session_file, prefix) {
        return None;
    }
    let rest = text::skip_chars(session_file, prefix.unicode_len());
    let mut pieces = text::split_text(&rest, Cut::At('/'));
    let ghost all = text::texts(pieces@);
    assert(all[0] == pieces@[0]@);
    let first = pieces.remove(0);
    Some(first)
}

/// What the jobs that recorded a transcript in a directory say of it.
#[derive(Debug, Clone, Copy, PartialEq, Eq, Structural)]
pub struct SessionRef {
    pub state: JobState,
    pub finished_at: Option<i64>,
}

/// The latest of the finish times.
pub open spec fn last_finish(refs: Seq<SessionRef>) -> Option<i64>
    decreases refs.len(),
{
    if refs.len() == 0 {
        None
    } else {
        match (last_finish(refs.drop_last()), refs.last().finished_at) {
            (Some(a), Some(b)) => Some(if a > b { a } else { b }),
            (Some(a), None) => Some(a),
            (None, b) => b,
        }
    }
}

/// Whether an old transcript directory goes: no live job recorded it, and it
/// is older than the retention.
pub open spec fn session_goes(refs: Seq<SessionRef>, mtime: Option<i64>, now_ms: i64) -> bool {
    &&& forall|i: int| 0 <= i < refs.len() ==> !(#[trigger] refs[i]).state.live()
    &&& is_expired(
        if last_finish(refs) is Some { last_finish(refs) } else { mtime },
        now_ms,
    )
}

pub fn session_expired(refs: &Vec<SessionRef>, mtime: Option<i64>, now_ms: i64) -> (r: bool)
    ensures
        r == session_goes(refs@, mtime, now_ms),
{
    let mut last: Option<i64> = None;
    let mut i: usize = 0;
    while i < refs.len()
        invariant
            i <= refs@.len(),
            last == last_finish(refs@.take(i as int)),
            forall|k: int| 0 <= k < i ==> !(#[trigger] refs@[k]).state.live(),
        decreases refs@.len() - i,
    {
        assert(refs@.take(i + 1).drop_last() =~= refs@.take(i as int));
        if refs[i].state.is_live() {
            assert(refs@[i as int].state.live());
            return false;
        }
        last = match (last, refs[i].finished_at) {
            (Some(a), Some(b)) => Some(if a > b { a } else { b }),
            (Some(a), None) => Some(a),
            (None, b) => b,
        };
        i = i + 1;
    }
    assert(refs@.take(refs@.len() as int) =~= refs@);
    let aged: Option<i64> = match last {
        Some(t) => Some(t),
        None => mtime,
    };
    expired(aged, now_ms)
}

/// The chain that a directory name stands for: a job's id and nothing else.
pub fn numbered_dir(name: &str) -> (r: Option<i64>)
    ensures
        match r {
            Some(n) => text::parse_i64(name@) == Some(n as int),
            None => text::parse_i64(name@) is None,
        },
{
    text::read_i64(name)
}

// ---------------------------------------------------------------------
// Laws
// ---------------------------------------------------------------------

/// The workspace of a chain with a running or suspended attempt is never
/// touched, however old it is.
pub proof fn law_live_chains_are_kept(live: i64, finished: Option<i64>, mtime: Option<i64>, now_ms: i64)
    requires
        live > 0,
    ensures
        fate_of(live, finished, mtime, now_ms) == ChainFate::Keep,
        !is_idle(live),
{
}

/// A workspace is made only where nothing is; what is there already is
/// refused before anything was touched.
pub proof fn law_taken_place_is_left_alone(ws: WorkspaceView, spec: TreeSpecView, event: CreateEvent)
    ensures
        create_next(ws, spec, CreatePhaseView::Look, event).1 is MakeSession <==> event == (
        CreateEvent::Root { exists: false }),
        create_next(ws, spec, CreatePhaseView::Look, event).1 is MakeSession
            || create_next(ws, spec, CreatePhaseView::Look, event).1 is Refuse,
{
}

/// Once something was made, a failure takes it back: the session directory's
/// by removing the workspace's directory, the tree's by releasing it too.
pub proof fn law_failed_creation_leaves_nothing(
    ws: WorkspaceView,
    spec: TreeSpecView,
    tree: TreePhaseView,
    error: Option<String>,
    rc: i32,
    out: String,
)
    ensures
        ({
            let made = create_next(
                ws,
                spec,
                CreatePhaseView::Session,
                CreateEvent::Session { error },
            ).1;
            made is RemoveRoot || made is Git
        }),
        ({
            let made = create_next(
                ws,
                spec,
                CreatePhaseView::Tree { phase: tree },
                CreateEvent::Git { rc, out },
            ).1;
            made is ReleaseAndRemove || made is Made || made is Git || made is ClearThenGit
        }),
{
}

/// Git runs for a release only where the clone is there: elsewhere it could
/// land in some other repository.
pub proof fn law_release_stays_in_its_clone(
    ws: WorkspaceView,
    phase: ReleasePhase,
    clone_there: bool,
    tree_there: bool,
)
    ensures
        release_next(ws, phase, clone_there, tree_there).1 matches ReleaseActionView::Git { argv }
            ==> clone_there && argv[2] == ws.clone,
{
}

/// A release ends only when the tree is gone, or its directory was deleted.
pub proof fn law_release_leaves_no_tree(ws: WorkspaceView, clone_there: bool, still_there: bool)
    ensures
        release_next(ws, ReleasePhase::Start, clone_there, true).1 is RemoveTree || release_next(
            ws,
            ReleasePhase::Start,
            clone_there,
            true,
        ).0 == ReleasePhase::Unregistered,
        still_there ==> release_next(ws, ReleasePhase::Unregistered, clone_there, still_there).1
            is RemoveTree,
{
}

/// A transcript that a running or suspended job recorded is never removed.
pub proof fn law_live_sessions_are_kept(refs: Seq<SessionRef>, i: int, mtime: Option<i64>, now_ms: i64)
    requires
        0 <= i < refs.len(),
        refs[i].state.live(),
    ensures
        !session_goes(refs, mtime, now_ms),
{
}

/// Different chains have different directories.
pub proof fn law_chains_do_not_share(work_root: Seq<char>, a: i64, b: i64)
    requires
        chain_root(work_root, a) == chain_root(work_root, b),
    ensures
        a == b,
{
    reveal_strlit("jobs");
    let root = jobs_root_of(work_root);
    let (x, y) = (text::int_text(a as int), text::int_text(b as int));
    assert(root.last() == 's');
    let p = root + seq!['/'];
    assert((p + x).skip(p.len() as int) =~= x);
    assert((p + y).skip(p.len() as int) =~= y);
    text::law_decimal_injective(a, b);
}

/// No place lies in the directories of two chains: none is, or is inside,
/// another's.
pub proof fn law_chains_do_not_overlap(work_root: Seq<char>, a: i64, b: i64, place: Seq<char>)
    requires
        util::path_under(place, chain_root(work_root, a)),
        util::path_under(place, chain_root(work_root, b)),
    ensures
        a == b,
{
    reveal_strlit("jobs");
    reveal_strlit(".");
    let root = jobs_root_of(work_root);
    assert(root.last() == 's');
    let (x, y) = (text::int_text(a as int), text::int_text(b as int));
    text::lemma_int_text_chars(a);
    text::lemma_int_text_chars(b);
    assert(text::is_digit(x[0]) || x[0] == '-');
    assert(text::is_digit(y[0]) || y[0] == '-');
    assert("."@[0] == '.');
    util::lemma_joined_parts(root, x);
    util::lemma_joined_parts(root, y);
    let base = util::path_parts(root);
    let n = base.len() as int;
    let parts = util::path_parts(place);
    assert(parts.take(n + 1)[n] == base.push(x)[n]);
    assert(parts.take(n + 1)[n] == base.push(y)[n]);
    text::law_decimal_injective(a, b);
}

/// A chain's directory is found again by the sweep under the chain's id.
pub proof fn law_chain_dirs_are_found(origin_id: i64)
    ensures
        text::parse_i64(text::int_text(origin_id as int)) == Some(origin_id as int),
{
    text::law_decimal_round_trip(origin_id);
}

/// What the sweep does with a chain's workspace. One with an attempt that
/// runs or waits is left alone. Any other loses its tree; it goes as a whole
/// once its last attempt, or its directory where that is not known, is more
/// than thirty days past.
pub proof fn law_workspaces_go_after_thirty_days(
    live: i64,
    finished: Option<i64>,
    mtime: Option<i64>,
    now_ms: i64,
)
    ensures
        live > 0 ==> fate_of(live, finished, mtime, now_ms) == ChainFate::Keep,
        live <= 0 ==> (finished matches Some(t) ==> fate_of(live, finished, mtime, now_ms) == (if now_ms - t
            > 30 * 24 * 3_600_000 {
            ChainFate::Remove
        } else {
            ChainFate::ReleaseTree
        })),
        live <= 0 && finished is None ==> (mtime matches Some(t) ==> fate_of(live, finished, mtime, now_ms) == (
        if now_ms - t > 30 * 24 * 3_600_000 { ChainFate::Remove } else { ChainFate::ReleaseTree })),
        live <= 0 && finished is None && mtime is None ==> fate_of(live, finished, mtime, now_ms)
            == ChainFate::ReleaseTree,
{
}

/// The latest of the finish times is one of them, and none is later.
proof fn lemma_last_finish(refs: Seq<SessionRef>)
    ensures
        forall|i: int|
            0 <= i < refs.len() ==> ((#[trigger] refs[i]).finished_at matches Some(t) ==> (last_finish(refs) matches
                Some(m) && t <= m)),
        last_finish(refs) matches Some(m) ==> exists|i: int|
            0 <= i < refs.len() && (#[trigger] refs[i]).finished_at == Some(m),
    decreases refs.len(),
{
    if refs.len() > 0 {
        let rest = refs.drop_last();
        lemma_last_finish(rest);
        assert(refs[refs.len() - 1] == refs.last());
        assert(forall|i: int| 0 <= i < rest.len() ==> rest[i] == refs[i]);
        if let Some(m) = last_finish(refs) {
            if last_finish(rest) == Some(m) {
                let i = choose|i: int| 0 <= i < rest.len() && (#[trigger] rest[i]).finished_at == Some(m);
                assert(refs[i].finished_at == Some(m));
            }
        }
    }
}

/// A transcript of the old layout stays while any job that recorded it runs,
/// waits, or finished within the last thirty days. It goes where all of them
/// finished before that.
pub proof fn law_old_transcripts_go_after_thirty_days(
    refs: Seq<SessionRef>,
    mtime: Option<i64>,
    now_ms: i64,
    i: int,
)
    requires
        0 <= i < refs.len(),
    ensures
        refs[i].state == JobState::Running || refs[i].state == JobState::Suspended ==> !session_goes(
            refs,
            mtime,
            now_ms,
        ),
        refs[i].finished_at matches Some(t) ==> now_ms - t <= 30 * 24 * 3_600_000 ==> !session_goes(
            refs,
            mtime,
            now_ms,
        ),
        (forall|k: int|
            0 <= k < refs.len() ==> ((#[trigger] refs[k]).state != JobState::Running && refs[k].state
                != JobState::Suspended && (refs[k].finished_at matches Some(t) && now_ms - t > 30 * 24
                * 3_600_000))) ==> session_goes(refs, mtime, now_ms),
{
    lemma_last_finish(refs);
    if forall|k: int|
        0 <= k < refs.len() ==> ((#[trigger] refs[k]).state != JobState::Running && refs[k].state
            != JobState::Suspended && (refs[k].finished_at matches Some(t) && now_ms - t > 30 * 24 * 3_600_000)) {
        assert(refs[i].finished_at is Some);
        let m = last_finish(refs)->0;
        let k = choose|k: int| 0 <= k < refs.len() && (#[trigger] refs[k]).finished_at == Some(m);
        assert(now_ms - m > 30 * 24 * 3_600_000);
    }
}

/// The tree and the transcript of a chain lie side by side in the directory
/// that its first job's number names.
pub proof fn law_workspace_lies_under_its_chain(work_root: Seq<char>, clone: Seq<char>, origin_id: i64)
    requires
        work_root.len() > 0,
        work_root.last() != '/',
    ensures
        ({
            let ws = chain_workspace(work_root, clone, origin_id);
            &&& ws.root == work_root + "/jobs/"@ + text::int_text(origin_id as int)
            &&& ws.tree == ws.root + "/tree"@
            &&& ws.session == ws.root + "/session"@
            &&& ws.clone == clone
            &&& ws.origin_id == origin_id
            &&& ws.tree != ws.session
        }),
{
    reveal_strlit("jobs");
    reveal_strlit("/jobs/");
    reveal_strlit("tree");
    reveal_strlit("/tree");
    reveal_strlit("session");
    reveal_strlit("/session");
    text::lemma_int_text_chars(origin_id);
    let n = text::int_text(origin_id as int);
    let ws = chain_workspace(work_root, clone, origin_id);
    let jobs = jobs_root_of(work_root);
    assert(jobs =~= work_root + seq!['/'] + "jobs"@);
    assert(jobs.last() == 's');
    assert(ws.root =~= work_root + "/jobs/"@ + n);
    assert(ws.root.last() == n.last());
    assert(ws.root.last() != '/');
    assert(ws.tree =~= ws.root + "/tree"@);
    assert(ws.session =~= ws.root + "/session"@);
    assert(ws.tree.len() != ws.session.len());
}

/// A tree stands only where git made it: at the commit that the starting
/// revision named, after git added it without an error. A pull request's tree
/// is then on its branch.
pub proof fn law_tree_stands_at_its_commit(
    clone: Seq<char>,
    tree: Seq<char>,
    spec: TreeSpecView,
    phase: TreePhaseView,
    rc: i32,
    out: Seq<char>,
)
    ensures
        ({
            let (next, action) = tree_next(clone, tree, spec, phase, rc, out);
            &&& action matches TreeActionView::Made { sha } ==> {
                ||| phase matches TreePhaseView::Add { sha: s, .. } && s == sha && rc == 0 && !(spec is PrHead)
                ||| phase matches TreePhaseView::Checkout { sha: s } && s == sha
            }
            &&& next matches TreePhaseView::Add { sha, retried } ==> {
                ||| phase is Resolve && rc == 0 && sha == text::trim(out, Cut::White) && sha.len() > 0 && !retried
                ||| phase matches TreePhaseView::Reclaim { sha: s, .. } && s == sha && spec is Branch && retried
            }
            &&& next matches TreePhaseView::Add { sha, .. } ==> (action matches TreeActionView::Git { argv }
                && argv.len() >= 8 && argv[2] == clone && argv[argv.len() - 2] == tree && argv.last() == sha)
            &&& next is Checkout ==> phase is Add && rc == 0 && spec is PrHead
        }),
{
}

/// A branch that is in the way is reclaimed once, and only the branch of that
/// name: the clone forgets dead trees, the branch is deleted, and the tree is
/// added again. A second failure is final.
pub proof fn law_branch_is_reclaimed_once(
    clone: Seq<char>,
    tree: Seq<char>,
    name: Seq<char>,
    at: Seq<char>,
    sha: Seq<char>,
    rc: i32,
    out: Seq<char>,
)
    requires
        rc != 0,
    ensures
        ({
            let spec = TreeSpecView::Branch { name, at };
            &&& tree_next(clone, tree, spec, TreePhaseView::Add { sha, retried: true }, rc, out).1 is Failed
            &&& tree_next(clone, tree, spec, TreePhaseView::Add { sha, retried: false }, rc, out).0 == (
            TreePhaseView::Reclaim { sha, step: 0 })
            &&& tree_next(clone, tree, spec, TreePhaseView::Reclaim { sha, step: 0 }, rc, out).1 == (
            TreeActionView::Git { argv: seq!["git"@, "-C"@, clone, "branch"@, "-D"@, name] })
            &&& tree_next(clone, tree, spec, TreePhaseView::Reclaim { sha, step: 1 }, rc, out).1 == (
            TreeActionView::Git {
                argv: seq!["git"@, "-C"@, clone, "worktree"@, "add"@, "-b"@, name, tree, sha],
            })
        }),
{
}

/// A new tree starts at the revision that was asked for; a pull request's at
/// the branch as its origin has it.
pub proof fn law_tree_starts_at_its_revision(at: Seq<char>, name: Seq<char>)
    ensures
        start_rev(TreeSpecView::Detached { at }) == at,
        start_rev(TreeSpecView::Branch { name, at }) == at,
        start_rev(TreeSpecView::PrHead { head_ref: name }) == "origin/"@ + name,
{
}

/// A tree of the old layout is in use where a live job works on its finding
/// with the kind that its letter stands for, or has its transcript in it.
pub proof fn law_old_trees_are_known_by_their_letter(j: LiveJob, dir: Seq<char>, finding: i64)
    requires
        j.finding_id == Some(finding),
    ensures
        j.kind == JobKind::Finding(FindingJobKind::Fix) ==> uses_legacy_tree(
            j,
            dir,
            "f"@ + text::int_text(finding as int),
        ),
        j.kind == JobKind::Finding(FindingJobKind::Engage) ==> uses_legacy_tree(
            j,
            dir,
            "e"@ + text::int_text(finding as int),
        ),
        j.kind == JobKind::Finding(FindingJobKind::Harvest) ==> uses_legacy_tree(
            j,
            dir,
            "h"@ + text::int_text(finding as int),
        ),
        j.kind == JobKind::Finding(FindingJobKind::Recheck) || j.kind is Repo ==> legacy_name(
            j.kind,
            j.finding_id,
        ) is None,
{
}

/// A tree whose clone is not known is unregistered only in the clone that git
/// names for it; what is left of it is deleted in any case.
pub proof fn law_orphaned_tree_is_deleted(tree: Seq<char>, phase: OrphanPhase, event: OrphanEvent)
    ensures
        ({
            let (next, action) = orphan_next(tree, phase, event);
            &&& next == OrphanPhase::Ended <==> action is Delete
            &&& next == OrphanPhase::Unregistered ==> (event matches OrphanEvent::Clone {
                rc,
                parent: Some(clone),
            } && rc == 0 && action == (OrphanActionView::Git {
                argv: seq!["git"@, "-C"@, clone@, "worktree"@, "remove"@, "--force"@, tree],
            }))
            &&& phase == OrphanPhase::Unregistered ==> action is Delete
        }),
{
}

} // verus!
