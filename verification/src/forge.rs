//! GitHub and GitLab: addresses, command lines, and what their answers mean.

use vstd::prelude::*;
use crate::domain::ForgeName;
use crate::json::{Json, JsonView};
use crate::text;
use crate::text::Cut;

verus! {

// ---------------------------------------------------------------------
// States
// ---------------------------------------------------------------------

/// Life of a pull request.
#[derive(Debug, Clone, Copy, PartialEq, Eq, Structural)]
pub enum PrState {
    Open,
    Merged,
    Closed,
}

impl PrState {
    pub open spec fn text(self) -> Seq<char> {
        match self {
            PrState::Open => "OPEN"@,
            PrState::Merged => "MERGED"@,
            PrState::Closed => "CLOSED"@,
        }
    }

    pub fn as_str(self) -> (r: &'static str)
        ensures
            r@ == self.text(),
    {
        match self {
            PrState::Open => "OPEN",
            PrState::Merged => "MERGED",
            PrState::Closed => "CLOSED",
        }
    }
}

/// Whether a pull request can be merged cleanly.
#[derive(Debug, Clone, Copy, PartialEq, Eq, Structural)]
pub enum Mergeable {
    Unknown,
    Mergeable,
    Conflicting,
}

impl Mergeable {
    pub open spec fn text(self) -> Seq<char> {
        match self {
            Mergeable::Mergeable => "MERGEABLE"@,
            Mergeable::Conflicting => "CONFLICTING"@,
            Mergeable::Unknown => "UNKNOWN"@,
        }
    }

    pub fn as_str(self) -> (r: &'static str)
        ensures
            r@ == self.text(),
    {
        match self {
            Mergeable::Mergeable => "MERGEABLE",
            Mergeable::Conflicting => "CONFLICTING",
            Mergeable::Unknown => "UNKNOWN",
        }
    }
}

/// What those who looked at the change decided.
#[derive(Debug, Clone, Copy, PartialEq, Eq, Structural)]
pub enum ReviewDecision {
    Undecided,
    Approved,
    ChangesRequested,
}

/// How a check ended.
#[derive(Debug, Clone, Copy, PartialEq, Eq, Structural)]
pub enum CheckConclusion {
    Success,
    Failure,
    TimedOut,
    Cancelled,
    Neutral,
    Skipped,
    Pending,
    Other,
}

impl CheckConclusion {
    /// The conclusion that a text names, in any case.
    pub open spec fn of_text(s: Seq<char>) -> CheckConclusion {
        let t = text::upper(s);
        if t == "SUCCESS"@ {
            CheckConclusion::Success
        } else if t == "FAILURE"@ {
            CheckConclusion::Failure
        } else if t == "TIMED_OUT"@ {
            CheckConclusion::TimedOut
        } else if t == "CANCELLED"@ {
            CheckConclusion::Cancelled
        } else if t == "NEUTRAL"@ {
            CheckConclusion::Neutral
        } else if t == "SKIPPED"@ {
            CheckConclusion::Skipped
        } else if t == "PENDING"@ || t == ""@ {
            CheckConclusion::Pending
        } else {
            CheckConclusion::Other
        }
    }

    pub open spec fn failing(self) -> bool {
        self is Failure || self is TimedOut || self is Cancelled
    }

    pub open spec fn passing(self) -> bool {
        self is Success || self is Neutral || self is Skipped
    }

    pub fn parse(s: &str) -> (r: CheckConclusion)
        ensures
            r == CheckConclusion::of_text(s@),
    {
        let t = text::to_upper(s);
        if text::same(&t, "SUCCESS") {
            CheckConclusion::Success
        } else if text::same(&t, "FAILURE") {
            CheckConclusion::Failure
        } else if text::same(&t, "TIMED_OUT") {
            CheckConclusion::TimedOut
        } else if text::same(&t, "CANCELLED") {
            CheckConclusion::Cancelled
        } else if text::same(&t, "NEUTRAL") {
            CheckConclusion::Neutral
        } else if text::same(&t, "SKIPPED") {
            CheckConclusion::Skipped
        } else if text::same(&t, "PENDING") || text::same(&t, "") {
            CheckConclusion::Pending
        } else {
            CheckConclusion::Other
        }
    }

    pub fn is_failing(self) -> (r: bool)
        ensures
            r == self.failing(),
    {
        match self {
            CheckConclusion::Failure => true,
            CheckConclusion::TimedOut => true,
            CheckConclusion::Cancelled => true,
            _ => false,
        }
    }

    pub fn is_passing(self) -> (r: bool)
        ensures
            r == self.passing(),
    {
        match self {
            CheckConclusion::Success => true,
            CheckConclusion::Neutral => true,
            CheckConclusion::Skipped => true,
            _ => false,
        }
    }
}

// ---------------------------------------------------------------------
// What the forges answer
// ---------------------------------------------------------------------

#[derive(Debug, Clone)]
pub struct GhAuthor {
    pub login: String,
}

#[derive(Debug, Clone)]
pub struct GhComment {
    pub author: Option<GhAuthor>,
    pub body: String,
    pub created_at: String,
}

#[derive(Debug, Clone)]
pub struct GhReview {
    pub author: Option<GhAuthor>,
    pub body: String,
    pub submitted_at: String,
    pub state: String,
}

#[derive(Debug, Clone)]
pub struct GhCheckRun {
    pub name: Option<String>,
    pub context: Option<String>,
    pub conclusion: Option<String>,
    pub state: Option<String>,
}

#[derive(Debug, Clone)]
pub struct GlAuthor {
    pub username: String,
}

#[derive(Debug, Clone)]
pub struct GlNote {
    pub body: String,
    pub author: Option<GlAuthor>,
    pub created_at: String,
    pub updated_at: String,
    pub system: bool,
    pub note_type: Option<String>,
}

/// What GitLab says of a merge request.
#[derive(Debug, Clone)]
pub struct GlMergeRequest {
    pub state: String,
    pub detailed_merge_status: Option<String>,
    pub merge_status: Option<String>,
    pub source_branch: String,
    pub sha: String,
    pub updated_at: String,
    pub title: String,
    pub description: String,
    /// Status of the head pipeline, where there is one.
    pub head_pipeline: Option<String>,
    /// Status of the pipeline, where there is one.
    pub pipeline: Option<String>,
}

/// A pull request as the scheduler sees it.
#[derive(Debug, Clone)]
pub struct PrView {
    pub state: PrState,
    pub mergeable: Mergeable,
    pub review_decision: ReviewDecision,
    pub head_ref: String,
    pub head_sha: String,
    pub updated_at: String,
    pub title: String,
    pub body: String,
    pub status_check_rollup: Vec<GhCheckRun>,
    pub comments: Vec<GhComment>,
    pub reviews: Vec<GhReview>,
}

// ---------------------------------------------------------------------
// Addresses
// ---------------------------------------------------------------------

/// What follows `<scheme>://`, the scheme compared without regard to case.
pub open spec fn after_scheme(url: Seq<char>, scheme: Seq<char>) -> Option<Seq<char>> {
    let n = scheme.len() as int;
    if n <= url.len() && text::lower(url.take(n)) == text::lower(scheme) && "://"@.is_prefix_of(
        url.skip(n),
    ) {
        Some(url.skip(n + 3))
    } else {
        None
    }
}

/// What follows the scheme, for each scheme that a remote may have.
pub open spec fn after_any_scheme(url: Seq<char>) -> Option<Seq<char>> {
    match after_scheme(url, "https"@) {
        Some(r) => Some(r),
        None => match after_scheme(url, "http"@) {
            Some(r) => Some(r),
            None => after_scheme(url, "ssh"@),
        },
    }
}

/// Whether the address has a web scheme.
pub open spec fn web_scheme(url: Seq<char>) -> bool {
    after_scheme(url, "https"@) is Some || after_scheme(url, "http"@) is Some
}

/// In `[user@]host:path`, what stands before the first colon and after it;
/// what stands before holds no slash.
pub open spec fn scp_parts(url: Seq<char>) -> Option<(Seq<char>, Seq<char>)> {
    match text::split_once(url, ":"@) {
        Some((a, p)) => if text::has(a, "/"@) { None } else { Some((a, p)) },
        None => None,
    }
}

/// Everything before the first `p`, or all of the text.
pub open spec fn up_to(s: Seq<char>, p: Seq<char>) -> Seq<char> {
    match text::split_once(s, p) {
        Some((a, _)) => a,
        None => s,
    }
}

/// Everything after the last `p`, or all of the text.
pub open spec fn after_last(s: Seq<char>, p: Seq<char>) -> Seq<char> {
    match text::rsplit_once(s, p) {
        Some((_, b)) => b,
        None => s,
    }
}

/// Host of a remote: without the user before `@` and, after a scheme,
/// without the port.
pub open spec fn host_of(url: Seq<char>) -> Option<Seq<char>> {
    let host = match after_any_scheme(url) {
        Some(rest) => Some(up_to(after_last(up_to(rest, "/"@), "@"@), ":"@)),
        None => match scp_parts(url) {
            Some((a, _)) => Some(after_last(a, "@"@)),
            None => None,
        },
    };
    match host {
        Some(h) => if h.len() > 0 { Some(h) } else { None },
        None => None,
    }
}

/// Host and path of a remote, where it has both.
pub open spec fn host_path_of(url: Seq<char>) -> Option<(Seq<char>, Seq<char>)> {
    let path = match after_any_scheme(url) {
        Some(rest) => match text::split_once(rest, "/"@) {
            Some((_, p)) => Some(p),
            None => None,
        },
        None => match scp_parts(url) {
            Some((_, p)) => Some(p),
            None => None,
        },
    };
    match (host_of(url), path) {
        (Some(h), Some(p)) => if p.len() > 0 { Some((h, p)) } else { None },
        _ => None,
    }
}

/// A repository path without slashes and `.git` at its end.
pub open spec fn bare_path(p: Seq<char>) -> Seq<char> {
    text::trim_suffixes(text::trim_end(p, Cut::At('/')), ".git"@)
}

/// Whether a host is a GitHub instance: one of its labels is `github`, or
/// the last two are `ghe.com`.
pub open spec fn github_host(host: Seq<char>) -> bool {
    let labels = text::split(text::lower(host), Cut::At('.'));
    ||| labels.contains("github"@)
    ||| labels.len() >= 2 && labels[labels.len() - 2] == "ghe"@ && labels.last() == "com"@
}

/// Whether the host is github.com itself, in any case.
pub open spec fn public_github(host: Seq<char>) -> bool {
    text::lower(host) == "github.com"@
}

/// A slug with the host in front where it is not github.com.
pub open spec fn hosted(host: Seq<char>, slug: Seq<char>) -> Seq<char> {
    if public_github(host) { slug } else { text::lower(host) + "/"@ + slug }
}

/// Owner and repository of a GitHub remote; an Enterprise owner carries the
/// host.
pub open spec fn github_pair(url: Seq<char>) -> Option<(Seq<char>, Seq<char>)> {
    match host_path_of(url) {
        Some((host, path)) => if !github_host(host) {
            None
        } else {
            match text::split_once(bare_path(path), "/"@) {
                Some((owner, repo)) => if owner.len() == 0 || repo.len() == 0 {
                    None
                } else {
                    Some((hosted(host, owner), repo))
                },
                None => None,
            }
        },
        None => None,
    }
}

/// Host and project path of a GitLab remote.
pub open spec fn gitlab_pair(url: Seq<char>) -> Option<(Seq<char>, Seq<char>)> {
    match host_path_of(url) {
        Some((host, path)) => if bare_path(path).len() > 0 {
            Some((host, bare_path(path)))
        } else {
            None
        },
        None => None,
    }
}

/// The forge that serves a remote, by its host alone.
pub open spec fn forge_of(url: Seq<char>) -> ForgeName {
    match host_of(url) {
        Some(h) => if github_host(h) { ForgeName::Github } else { ForgeName::Gitlab },
        None => if github_host(Seq::<char>::empty()) {
            ForgeName::Github
        } else {
            ForgeName::Gitlab
        },
    }
}

/// What follows `<scheme>://` in `url`.
fn strip_scheme(url: &str, scheme: &str) -> (r: Option<String>)
    ensures
        text::opt_text(r) == after_scheme(url@, scheme@),
{
    let n: usize = scheme.unicode_len();
    let total: usize = url.unicode_len();
    if n > total {
        return None;
    }
    let head = text::before(url, n);
    let rest = text::skip_chars(url, n);
    let head = text::to_lower(&head);
    let want = text::to_lower(scheme);
    if text::same(&head, &want) && text::starts_with(&rest, "://") {
        proof {
            reveal_strlit("://");
            assert(url@.skip(n as int).skip(3) =~= url@.skip(n + 3));
        }
        Some(text::skip_chars(&rest, 3))
    } else {
        None
    }
}

fn strip_any_scheme(url: &str) -> (r: Option<String>)
    ensures
        text::opt_text(r) == after_any_scheme(url@),
{
    match strip_scheme(url, "https") {
        Some(r) => Some(r),
        None => match strip_scheme(url, "http") {
            Some(r) => Some(r),
            None => strip_scheme(url, "ssh"),
        },
    }
}

fn is_web_scheme(url: &str) -> (r: bool)
    ensures
        r == web_scheme(url@),
{
    strip_scheme(url, "https").is_some() || strip_scheme(url, "http").is_some()
}

fn cut_scp(url: &str) -> (r: Option<(String, String)>)
    ensures
        text::opt_pair(r) == scp_parts(url@),
{
    match text::cut_once(url, ":") {
        Some((a, p)) => if text::contains(&a, "/") {
            None
        } else {
            Some((a, p))
        },
        None => None,
    }
}

fn head_up_to(s: String, p: &str) -> (r: String)
    ensures
        r@ == up_to(s@, p@),
{
    match text::cut_once(&s, p) {
        Some((a, _)) => a,
        None => s,
    }
}

fn tail_after(s: String, p: &str) -> (r: String)
    ensures
        r@ == after_last(s@, p@),
{
    match text::rcut_once(&s, p) {
        Some((_, b)) => b,
        None => s,
    }
}

/// Host of a git remote: `https://`, `http://`, `ssh://` and the form
/// `git@host:path`, without user and port.
pub fn url_host(url: &str) -> (r: Option<String>)
    ensures
        text::opt_text(r) == host_of(url@),
{
    let host = match strip_any_scheme(url) {
        Some(rest) => head_up_to(tail_after(head_up_to(rest, "/"), "@"), ":"),
        None => match cut_scp(url) {
            Some((a, _)) => tail_after(a, "@"),
            None => return None,
        },
    };
    if host.as_str().is_empty() {
        None
    } else {
        Some(host)
    }
}

fn url_host_path(url: &str) -> (r: Option<(String, String)>)
    ensures
        text::opt_pair(r) == host_path_of(url@),
{
    let host = match url_host(url) {
        Some(h) => h,
        None => return None,
    };
    let path = match strip_any_scheme(url) {
        Some(rest) => match text::cut_once(&rest, "/") {
            Some((_, p)) => p,
            None => return None,
        },
        None => match cut_scp(url) {
            Some((_, p)) => p,
            None => return None,
        },
    };
    if path.as_str().is_empty() {
        None
    } else {
        Some((host, path))
    }
}

fn bare(p: &str) -> (r: String)
    ensures
        r@ == bare_path(p@),
{
    let t = text::trim_end_text(p, Cut::At('/'));
    text::trim_suffixes_text(&t, ".git")
}

/// Whether `host` is a GitHub instance.
pub fn is_github_host(host: &str) -> (r: bool)
    ensures
        r == github_host(host@),
{
    let low = text::to_lower(host);
    let labels = text::split_text(&low, Cut::At('.'));
    let ghost ls = text::texts(labels@);
    let n: usize = labels.len();
    if n >= 2 && text::same(&labels[n - 2], "ghe") && text::same(&labels[n - 1], "com") {
        assert(ls[n - 2] == labels@[n - 2]@);
        assert(ls[n - 1] == labels@[n - 1]@);
        return true;
    }
    assert(n >= 2 ==> ls[n - 2] == labels@[n - 2]@);
    assert(ls[n - 1] == labels@[n - 1]@);
    let mut i: usize = 0;
    while i < n
        invariant
            n == labels@.len(),
            i <= n,
            ls == text::texts(labels@),
            ls == text::split(text::lower(host@), Cut::At('.')),
            forall|j: int| 0 <= j < i ==> ls[j] != "github"@,
        decreases n - i,
    {
        if text::same(&labels[i], "github") {
            assert(ls[i as int] == "github"@);
            assert(ls.contains("github"@));
            return true;
        }
        assert(ls[i as int] == labels@[i as int]@);
        i = i + 1;
    }
    false
}

fn with_host(host: &str, slug: &str) -> (r: String)
    ensures
        r@ == hosted(host@, slug@),
{
    let low = text::to_lower(host);
    if text::same(&low, "github.com") {
        slug.to_owned()
    } else {
        low.concat("/").concat(slug)
    }
}

/// Owner and repository of a GitHub remote.
pub fn github_owner_repo(url: &str) -> (r: Option<(String, String)>)
    ensures
        text::opt_pair(r) == github_pair(url@),
{
    match url_host_path(url) {
        Some((host, path)) => if !is_github_host(&host) {
            None
        } else {
            let p = bare(&path);
            match text::cut_once(&p, "/") {
                Some((owner, repo)) => if owner.as_str().is_empty() || repo.as_str().is_empty() {
                    None
                } else {
                    Some((with_host(&host, &owner), repo))
                },
                None => None,
            }
        },
        None => None,
    }
}

/// Host and project path of a GitLab remote.
pub fn gitlab_host_path(url: &str) -> (r: Option<(String, String)>)
    ensures
        text::opt_pair(r) == gitlab_pair(url@),
{
    match url_host_path(url) {
        Some((host, path)) => {
            let p = bare(&path);
            if p.as_str().is_empty() {
                None
            } else {
                Some((host, p))
            }
        },
        None => None,
    }
}

/// Which forge serves `url`. GitHub has the closed list of hosts, GitLab the
/// remainder.
pub fn detect_forge(url: &str) -> (r: ForgeName)
    ensures
        r == forge_of(url@),
{
    let host = match url_host(url) {
        Some(h) => h,
        None => String::new(),
    };
    if is_github_host(&host) {
        ForgeName::Github
    } else {
        ForgeName::Gitlab
    }
}

// ---------------------------------------------------------------------
// The two forges
// ---------------------------------------------------------------------

/// The number at the start of what follows the marker in a web address.
pub open spec fn number_part(s: Seq<char>) -> Option<int> {
    text::parse_i64(text::split(s, Cut::UrlPart)[0])
}

fn read_number(s: &str) -> (r: Option<i64>)
    ensures
        match r {
            Some(n) => number_part(s@) == Some(n as int),
            None => number_part(s@) is None,
        },
{
    let parts = text::split_text(s, Cut::UrlPart);
    assert(text::texts(parts@)[0] == parts@[0]@);
    text::read_i64(&parts[0])
}

/// The remote that is pushed to: the SSH form of a web address.
pub open spec fn ssh_url_of(forge: ForgeName, url: Seq<char>) -> Seq<char> {
    let parts = match forge {
        ForgeName::Github => match host_path_of(url) {
            Some((h, p)) => if github_host(h) && bare_path(p).len() > 0 {
                Some((h, bare_path(p)))
            } else {
                None
            },
            None => None,
        },
        ForgeName::Gitlab => gitlab_pair(url),
    };
    match parts {
        Some((h, p)) => if web_scheme(url) {
            "git@"@ + h + ":"@ + p + ".git"@
        } else {
            url
        },
        None => url,
    }
}

/// The slug and number that the web address of a pull request names.
pub open spec fn pr_url_parts(forge: ForgeName, url: Seq<char>) -> Option<(Seq<char>, int)> {
    match forge {
        ForgeName::Github => match host_path_of(url) {
            Some((h, p)) => if after_scheme(url, "https"@) is None || !github_host(h) {
                None
            } else {
                match text::rsplit_once(p, "/pull/"@) {
                    Some((slug, rest)) => match number_part(rest) {
                        Some(n) => Some((hosted(h, slug), n)),
                        None => None,
                    },
                    None => None,
                }
            },
            None => None,
        },
        ForgeName::Gitlab => match after_scheme(url, "https"@) {
            Some(rest) => match text::split_once(rest, "/"@) {
                Some((_, p)) => match text::rsplit_once(p, "/-/merge_requests/"@) {
                    Some((slug, tail)) => match number_part(tail) {
                        Some(n) => Some((slug, n)),
                        None => None,
                    },
                    None => None,
                },
                None => None,
            },
            None => None,
        },
    }
}

/// Owner and repository of a remote.
pub open spec fn owner_repo_of(forge: ForgeName, url: Seq<char>) -> Option<(Seq<char>, Seq<char>)> {
    match forge {
        ForgeName::Github => github_pair(url),
        ForgeName::Gitlab => match gitlab_pair(url) {
            Some((_, path)) => match text::rsplit_once(path, "/"@) {
                Some((prefix, last)) => if prefix.len() == 0 || last.len() == 0 {
                    None
                } else {
                    Some((prefix, last))
                },
                None => None,
            },
            None => None,
        },
    }
}

/// What a forge makes of addresses.
pub trait Forge {
    /// Which of the forges this is.
    spec fn which(&self) -> ForgeName;

    /// Git SSH address for push operations.
    fn ssh_url(&self, https_url: &str) -> (r: String)
        ensures
            r@ == ssh_url_of(self.which(), https_url@),
    ;

    /// Owner and repository of a remote.
    fn owner_repo(&self, url: &str) -> (r: Option<(String, String)>)
        ensures
            text::opt_pair(r) == owner_repo_of(self.which(), url@),
    ;

    /// Slug and number of a pull request's web address.
    fn parse_pr_url(&self, url: &str) -> (r: Option<(String, i64)>)
        ensures
            match r {
                Some((slug, n)) => pr_url_parts(self.which(), url@) == Some((slug@, n as int)),
                None => pr_url_parts(self.which(), url@) is None,
            },
    ;
}

pub struct GitHubForge;

pub struct GitLabForge;

impl Forge for GitHubForge {
    open spec fn which(&self) -> ForgeName {
        ForgeName::Github
    }

    fn ssh_url(&self, https_url: &str) -> (r: String) {
        if is_web_scheme(https_url) {
            if let Some((host, path)) = url_host_path(https_url) {
                if is_github_host(&host) {
                    let p = bare(&path);
                    if !p.as_str().is_empty() {
                        return "git@".to_owned().concat(&host).concat(":").concat(&p).concat(
                            ".git",
                        );
                    }
                }
            }
        }
        https_url.to_owned()
    }

    fn owner_repo(&self, url: &str) -> (r: Option<(String, String)>) {
        github_owner_repo(url)
    }

    fn parse_pr_url(&self, url: &str) -> (r: Option<(String, i64)>) {
        match url_host_path(url) {
            Some((host, path)) => {
                if strip_scheme(url, "https").is_none() || !is_github_host(&host) {
                    return None;
                }
                match text::rcut_once(&path, "/pull/") {
                    Some((slug, rest)) => match read_number(&rest) {
                        Some(n) => Some((with_host(&host, &slug), n)),
                        None => None,
                    },
                    None => None,
                }
            },
            None => None,
        }
    }
}

impl Forge for GitLabForge {
    open spec fn which(&self) -> ForgeName {
        ForgeName::Gitlab
    }

    fn ssh_url(&self, https_url: &str) -> (r: String) {
        if let Some((host, path)) = gitlab_host_path(https_url) {
            if is_web_scheme(https_url) {
                return "git@".to_owned().concat(&host).concat(":").concat(&path).concat(".git");
            }
        }
        https_url.to_owned()
    }

    fn owner_repo(&self, url: &str) -> (r: Option<(String, String)>) {
        match gitlab_host_path(url) {
            Some((_, path)) => match text::rcut_once(&path, "/") {
                Some((prefix, last)) => if prefix.as_str().is_empty() || last.as_str().is_empty() {
                    None
                } else {
                    Some((prefix, last))
                },
                None => None,
            },
            None => None,
        }
    }

    fn parse_pr_url(&self, url: &str) -> (r: Option<(String, i64)>) {
        match strip_scheme(url, "https") {
            Some(rest) => match text::cut_once(&rest, "/") {
                Some((_, p)) => match text::rcut_once(&p, "/-/merge_requests/") {
                    Some((slug, tail)) => match read_number(&tail) {
                        Some(n) => Some((slug, n)),
                        None => None,
                    },
                    None => None,
                },
                None => None,
            },
            None => None,
        }
    }
}

/// One of the two forges.
pub enum AnyForge {
    Github(GitHubForge),
    Gitlab(GitLabForge),
}

impl Forge for AnyForge {
    open spec fn which(&self) -> ForgeName {
        match *self {
            AnyForge::Github(_) => ForgeName::Github,
            AnyForge::Gitlab(_) => ForgeName::Gitlab,
        }
    }

    fn ssh_url(&self, https_url: &str) -> (r: String) {
        match self {
            AnyForge::Github(f) => f.ssh_url(https_url),
            AnyForge::Gitlab(f) => f.ssh_url(https_url),
        }
    }

    fn owner_repo(&self, url: &str) -> (r: Option<(String, String)>) {
        match self {
            AnyForge::Github(f) => f.owner_repo(url),
            AnyForge::Gitlab(f) => f.owner_repo(url),
        }
    }

    fn parse_pr_url(&self, url: &str) -> (r: Option<(String, i64)>) {
        match self {
            AnyForge::Github(f) => f.parse_pr_url(url),
            AnyForge::Gitlab(f) => f.parse_pr_url(url),
        }
    }
}

/// The forge of that name.
pub fn forge_for(forge: ForgeName) -> (r: AnyForge)
    ensures
        r.which() == forge,
{
    match forge {
        ForgeName::Gitlab => AnyForge::Gitlab(GitLabForge),
        ForgeName::Github => AnyForge::Github(GitHubForge),
    }
}


// ---------------------------------------------------------------------
// Command lines
// ---------------------------------------------------------------------

/// The report of a command that failed.
pub open spec fn failed_text(what: Seq<char>, rc: i32, out: Seq<char>) -> Seq<char> {
    what + " failed (rc="@ + text::int_text(rc as int) + "): "@ + out
}

fn failed(what: &str, rc: i32, out: &str) -> (r: String)
    ensures
        r@ == failed_text(what@, rc, out@),
{
    what.to_owned().concat(" failed (rc=").concat(text::int_to_text(rc as i64).as_str()).concat(
        "): ",
    ).concat(out)
}

/// Nothing where the command succeeded, else the report.
pub fn command_outcome(what: &str, rc: i32, out: &str) -> (r: Result<(), String>)
    ensures
        match r {
            Ok(_) => rc == 0,
            Err(e) => rc != 0 && e@ == failed_text(what@, rc, out@),
        },
{
    if rc != 0 {
        Err(failed(what, rc, out))
    } else {
        Ok(())
    }
}

/// Fields that the synchronisation of pull requests reads.
pub open spec fn sync_fields() -> Seq<char> {
    "state,mergedAt,mergeable,reviewDecision,statusCheckRollup,comments,reviews,updatedAt,headRefName,headRefOid"@
}

/// Fields that a worker on a pull request is given.
pub open spec fn engage_fields() -> Seq<char> {
    "title,body,comments,reviews,statusCheckRollup,headRefName,headRefOid"@
}

/// `OWNER/REPO` of a GitHub remote.
pub open spec fn github_slug(url: Seq<char>) -> Option<Seq<char>> {
    match github_pair(url) {
        Some((owner, repo)) => Some(owner + "/"@ + repo),
        None => None,
    }
}

pub open spec fn no_slug_text(url: Seq<char>) -> Seq<char> {
    "cannot parse owner/repo from "@ + url
}

/// The slug that `gh` is given, or the report of a remote without one.
pub fn gh_slug(url: &str) -> (r: Result<String, String>)
    ensures
        match r {
            Ok(s) => github_slug(url@) == Some(s@),
            Err(e) => github_slug(url@) is None && e@ == no_slug_text(url@),
        },
{
    match github_owner_repo(url) {
        Some((owner, repo)) => Ok(owner.concat("/").concat(&repo)),
        None => Err("cannot parse owner/repo from ".to_owned().concat(url)),
    }
}

pub open spec fn no_path_text(url: Seq<char>) -> Seq<char> {
    "cannot parse GitLab URL: "@ + url
}

/// The project path that `glab` is given, or the report of a remote without
/// one.
pub fn glab_path(url: &str) -> (r: Result<String, String>)
    ensures
        match r {
            Ok(p) => gitlab_pair(url@) matches Some((_, path)) && p@ == path,
            Err(e) => gitlab_pair(url@) is None && e@ == no_path_text(url@),
        },
{
    match gitlab_host_path(url) {
        Some((_, path)) => Ok(path),
        None => Err("cannot parse GitLab URL: ".to_owned().concat(url)),
    }
}

/// `gh pr view` for the given fields.
pub fn gh_view_args(slug: &str, pr_number: i64, engage: bool) -> (r: Vec<String>)
    ensures
        text::texts(r@) == seq![
            "gh"@,
            "pr"@,
            "view"@,
            text::int_text(pr_number as int),
            "-R"@,
            slug@,
            "--json"@,
            if engage { engage_fields() } else { sync_fields() },
        ],
{
    let mut v = text::no_texts();
    text::add_text(&mut v, "gh");
    text::add_text(&mut v, "pr");
    text::add_text(&mut v, "view");
    text::add_text(&mut v, text::int_to_text(pr_number).as_str());
    text::add_text(&mut v, "-R");
    text::add_text(&mut v, slug);
    text::add_text(&mut v, "--json");
    if engage {
        text::add_text(
            &mut v,
            "title,body,comments,reviews,statusCheckRollup,headRefName,headRefOid",
        );
    } else {
        text::add_text(
            &mut v,
            "state,mergedAt,mergeable,reviewDecision,statusCheckRollup,comments,reviews,updatedAt,headRefName,headRefOid",
        );
    }
    v
}

/// Title of a new pull request: the branch where there is none.
pub open spec fn title_or_head(title: Seq<char>, head: Seq<char>) -> Seq<char> {
    if title.len() == 0 { head } else { title }
}

pub open spec fn create_args_of(
    forge: ForgeName,
    head: Seq<char>,
    base: Seq<char>,
    title: Seq<char>,
    body: Seq<char>,
) -> Seq<Seq<char>> {
    match forge {
        ForgeName::Github => seq![
            "gh"@,
            "pr"@,
            "create"@,
            "--draft"@,
            "--head"@,
            head,
            "--base"@,
            base,
            "--title"@,
            title_or_head(title, head),
            "--body"@,
            body,
        ],
        ForgeName::Gitlab => seq![
            "glab"@,
            "mr"@,
            "create"@,
            "--source-branch"@,
            head,
            "--target-branch"@,
            base,
            "--draft"@,
            "--title"@,
            title_or_head(title, head),
            "--description"@,
            body,
            "--yes"@,
        ],
    }
}

/// The command that opens a draft pull request.
pub fn create_pr_args(forge: ForgeName, head: &str, base: &str, title: &str, body: &str) -> (r: Vec<
    String,
>)
    ensures
        text::texts(r@) == create_args_of(forge, head@, base@, title@, body@),
{
    let shown: &str = if title.is_empty() {
        head
    } else {
        title
    };
    let mut v = text::no_texts();
    match forge {
        ForgeName::Github => {
            text::add_text(&mut v, "gh");
            text::add_text(&mut v, "pr");
            text::add_text(&mut v, "create");
            text::add_text(&mut v, "--draft");
            text::add_text(&mut v, "--head");
            text::add_text(&mut v, head);
            text::add_text(&mut v, "--base");
            text::add_text(&mut v, base);
            text::add_text(&mut v, "--title");
            text::add_text(&mut v, shown);
            text::add_text(&mut v, "--body");
            text::add_text(&mut v, body);
        },
        ForgeName::Gitlab => {
            text::add_text(&mut v, "glab");
            text::add_text(&mut v, "mr");
            text::add_text(&mut v, "create");
            text::add_text(&mut v, "--source-branch");
            text::add_text(&mut v, head);
            text::add_text(&mut v, "--target-branch");
            text::add_text(&mut v, base);
            text::add_text(&mut v, "--draft");
            text::add_text(&mut v, "--title");
            text::add_text(&mut v, shown);
            text::add_text(&mut v, "--description");
            text::add_text(&mut v, body);
            text::add_text(&mut v, "--yes");
        },
    }
    assert(text::texts(v@) =~= create_args_of(forge, head@, base@, title@, body@));
    v
}

/// The last of the lines that holds `p`.
pub open spec fn last_with(ls: Seq<Seq<char>>, p: Seq<char>) -> Option<Seq<char>>
    decreases ls.len(),
{
    if ls.len() == 0 {
        None
    } else if text::has(ls.last(), p) {
        Some(ls.last())
    } else {
        last_with(ls.drop_last(), p)
    }
}

/// The address that a successful creation printed.
pub open spec fn created_url(forge: ForgeName, out: Seq<char>) -> Seq<char> {
    let shown = text::trim(out, Cut::White);
    match forge {
        ForgeName::Github => text::last_line(shown),
        ForgeName::Gitlab => match last_with(text::lines(shown), "/-/merge_requests/"@) {
            Some(l) => text::trim(l, Cut::White),
            None => text::last_line(shown),
        },
    }
}

pub open spec fn create_label(forge: ForgeName) -> Seq<char> {
    match forge {
        ForgeName::Github => "gh pr create"@,
        ForgeName::Gitlab => "glab mr create"@,
    }
}

fn mr_line(ls: &Vec<String>) -> (r: Option<String>)
    ensures
        text::opt_text(r) == last_with(text::texts(ls@), "/-/merge_requests/"@),
{
    let ghost all = text::texts(ls@);
    let mut n: usize = ls.len();
    assert(all.take(n as int) =~= all);
    while n > 0
        invariant
            n <= ls@.len(),
            all == text::texts(ls@),
            last_with(all, "/-/merge_requests/"@) == last_with(
                all.take(n as int),
                "/-/merge_requests/"@,
            ),
        decreases n,
    {
        assert(all.take(n as int).last() == ls@[n - 1]@);
        assert(all.take(n as int).drop_last() =~= all.take(n - 1));
        if text::contains(&ls[n - 1], "/-/merge_requests/") {
            return Some(ls[n - 1].clone());
        }
        n = n - 1;
    }
    None
}

/// The address of the new pull request, or the report of the failure.
pub fn created_pr(forge: ForgeName, rc: i32, out: &str) -> (r: Result<String, String>)
    ensures
        match r {
            Ok(u) => rc == 0 && u@ == created_url(forge, out@),
            Err(e) => rc != 0 && e@ == failed_text(create_label(forge), rc, out@),
        },
{
    match forge {
        ForgeName::Github => {
            if rc != 0 {
                return Err(failed("gh pr create", rc, out));
            }
            let shown = text::trim_text(out, Cut::White);
            Ok(text::last_line_of(&shown))
        },
        ForgeName::Gitlab => {
            if rc != 0 {
                return Err(failed("glab mr create", rc, out));
            }
            let shown = text::trim_text(out, Cut::White);
            let ls = text::lines_of(&shown);
            match mr_line(&ls) {
                Some(l) => Ok(text::trim_text(&l, Cut::White)),
                None => Ok(text::last_line_of(&shown)),
            }
        },
    }
}

/// The comment that a pull request is closed with: at most 800 characters.
pub fn closing_comment(comment: &str) -> (r: String)
    ensures
        r@ == text::first_chars(comment@, 800),
{
    text::take_chars(comment, 800)
}

/// `gh pr comment`.
pub fn gh_comment_args(slug: &str, pr_number: i64, body: &str) -> (r: Vec<String>)
    ensures
        text::texts(r@) == seq![
            "gh"@,
            "pr"@,
            "comment"@,
            text::int_text(pr_number as int),
            "-R"@,
            slug@,
            "--body"@,
            body@,
        ],
{
    let mut v = text::no_texts();
    text::add_text(&mut v, "gh");
    text::add_text(&mut v, "pr");
    text::add_text(&mut v, "comment");
    text::add_text(&mut v, text::int_to_text(pr_number).as_str());
    text::add_text(&mut v, "-R");
    text::add_text(&mut v, slug);
    text::add_text(&mut v, "--body");
    text::add_text(&mut v, body);
    v
}

/// `gh pr close`.
pub fn gh_close_args(slug: &str, pr_number: i64) -> (r: Vec<String>)
    ensures
        text::texts(r@) == seq![
            "gh"@,
            "pr"@,
            "close"@,
            text::int_text(pr_number as int),
            "-R"@,
            slug@,
        ],
{
    let mut v = text::no_texts();
    text::add_text(&mut v, "gh");
    text::add_text(&mut v, "pr");
    text::add_text(&mut v, "close");
    text::add_text(&mut v, text::int_to_text(pr_number).as_str());
    text::add_text(&mut v, "-R");
    text::add_text(&mut v, slug);
    v
}

/// The repository flag of `glab mr close`: the whole address where the
/// instance is not gitlab.com.
pub open spec fn glab_repo_flag(url: Seq<char>) -> Seq<char> {
    match gitlab_pair(url) {
        Some((host, path)) => if host == "gitlab.com"@ {
            path
        } else {
            "https://"@ + host + "/"@ + path
        },
        None => Seq::empty(),
    }
}

/// `glab mr close`, or the report of a remote without a project path.
pub fn glab_close_args(url: &str, pr_number: i64) -> (r: Result<Vec<String>, String>)
    ensures
        match r {
            Ok(v) => gitlab_pair(url@) is Some && text::texts(v@) == seq![
                "glab"@,
                "mr"@,
                "close"@,
                text::int_text(pr_number as int),
                "-R"@,
                glab_repo_flag(url@),
            ],
            Err(e) => gitlab_pair(url@) is None && e@ == no_path_text(url@),
        },
{
    match gitlab_host_path(url) {
        Some((host, path)) => {
            let flag = if text::same(&host, "gitlab.com") {
                path
            } else {
                "https://".to_owned().concat(&host).concat("/").concat(&path)
            };
            let mut v = text::no_texts();
            text::add_text(&mut v, "glab");
            text::add_text(&mut v, "mr");
            text::add_text(&mut v, "close");
            text::add_text(&mut v, text::int_to_text(pr_number).as_str());
            text::add_text(&mut v, "-R");
            text::add_text(&mut v, &flag);
            Ok(v)
        },
        None => Err("cannot parse GitLab URL: ".to_owned().concat(url)),
    }
}

/// The API path of a merge request.
pub open spec fn mr_api_path(path: Seq<char>, number: i64) -> Seq<char> {
    "projects/"@ + text::replace_char(path, '/', "%2F"@) + "/merge_requests/"@ + text::int_text(
        number as int,
    )
}

pub fn mr_path(path: &str, number: i64) -> (r: String)
    ensures
        r@ == mr_api_path(path@, number),
{
    let enc = text::replace_text(path, '/', "%2F");
    "projects/".to_owned().concat(&enc).concat("/merge_requests/").concat(
        text::int_to_text(number).as_str(),
    )
}

/// The API path of the newest page of a merge request's notes.
pub fn notes_path(path: &str, number: i64) -> (r: String)
    ensures
        r@ == mr_api_path(path@, number) + "/notes?sort=desc&per_page=100"@,
{
    mr_path(path, number).concat("/notes?sort=desc&per_page=100")
}

/// The API path that a note is posted to.
pub fn post_note_path(path: &str, number: i64) -> (r: String)
    ensures
        r@ == mr_api_path(path@, number) + "/notes"@,
{
    mr_path(path, number).concat("/notes")
}

/// A `glab api` call: a note to post or nothing, and the host where the
/// instance is not gitlab.com.
pub open spec fn glab_args_of(url: Seq<char>, api_path: Seq<char>, body: Option<Seq<char>>) -> Seq<
    Seq<char>,
> {
    let base = seq!["glab"@, "api"@, api_path];
    let posted = match body {
        Some(b) => base + seq!["--method"@, "POST"@, "-f"@, "body="@ + b],
        None => base,
    };
    match gitlab_pair(url) {
        Some((host, _)) => if host == "gitlab.com"@ {
            posted
        } else {
            posted + seq!["--hostname"@, host]
        },
        None => posted,
    }
}

/// The command of a `glab api` call.
pub fn gitlab_api(url: &str, api_path: &str, body: Option<&str>) -> (r: Vec<String>)
    ensures
        text::texts(r@) == glab_args_of(
            url@,
            api_path@,
            match body {
                Some(b) => Some(b@),
                None => None,
            },
        ),
{
    let mut v = text::no_texts();
    text::add_text(&mut v, "glab");
    text::add_text(&mut v, "api");
    text::add_text(&mut v, api_path);
    if let Some(b) = body {
        text::add_text(&mut v, "--method");
        text::add_text(&mut v, "POST");
        text::add_text(&mut v, "-f");
        let field = "body=".to_owned().concat(b);
        text::add_text(&mut v, &field);
    }
    if let Some((host, _)) = gitlab_host_path(url) {
        if !text::same(&host, "gitlab.com") {
            text::add_text(&mut v, "--hostname");
            text::add_text(&mut v, &host);
        }
    }
    assert(text::texts(v@) =~= glab_args_of(
        url@,
        api_path@,
        match body {
            Some(b) => Some(b@),
            None => None,
        },
    ));
    v
}

/// A command to a forge's tool, its time limit in seconds, and what its
/// failure is reported as.
#[derive(Debug, Clone)]
pub struct ForgeCommand {
    pub argv: Vec<String>,
    pub timeout_s: u64,
    pub what: String,
}

pub struct ForgeCommandView {
    pub argv: Seq<Seq<char>>,
    pub timeout_s: u64,
    pub what: Seq<char>,
}

impl View for ForgeCommand {
    type V = ForgeCommandView;

    open spec fn view(&self) -> ForgeCommandView {
        ForgeCommandView {
            argv: text::texts(self.argv@),
            timeout_s: self.timeout_s,
            what: self.what@,
        }
    }
}

pub open spec fn commands(v: Seq<ForgeCommand>) -> Seq<ForgeCommandView> {
    v.map_values(|c: ForgeCommand| c@)
}

/// The command that posts a comment on a pull request, or the report of a
/// remote that the forge cannot be asked about.
pub open spec fn comment_command(
    forge: ForgeName,
    url: Seq<char>,
    number: i64,
    body: Seq<char>,
) -> Result<ForgeCommandView, Seq<char>> {
    match forge {
        ForgeName::Github => match github_slug(url) {
            Some(slug) => Ok(
                ForgeCommandView {
                    argv: seq![
                        "gh"@,
                        "pr"@,
                        "comment"@,
                        text::int_text(number as int),
                        "-R"@,
                        slug,
                        "--body"@,
                        body,
                    ],
                    timeout_s: 60,
                    what: "gh pr comment"@,
                },
            ),
            None => Err(no_slug_text(url)),
        },
        ForgeName::Gitlab => match gitlab_pair(url) {
            Some((_, path)) => Ok(
                ForgeCommandView {
                    argv: glab_args_of(url, mr_api_path(path, number) + "/notes"@, Some(body)),
                    timeout_s: 30,
                    what: "glab api POST notes"@,
                },
            ),
            None => Err(no_path_text(url)),
        },
    }
}

pub open spec fn command_result(r: Result<ForgeCommand, String>) -> Result<
    ForgeCommandView,
    Seq<char>,
> {
    match r {
        Ok(c) => Ok(c@),
        Err(e) => Err(e@),
    }
}

pub fn comment_pr(forge: ForgeName, url: &str, number: i64, body: &str) -> (r: Result<
    ForgeCommand,
    String,
>)
    ensures
        command_result(r) == comment_command(forge, url@, number, body@),
{
    match forge {
        ForgeName::Github => match gh_slug(url) {
            Ok(slug) => Ok(
                ForgeCommand {
                    argv: gh_comment_args(&slug, number, body),
                    timeout_s: 60,
                    what: "gh pr comment".to_owned(),
                },
            ),
            Err(e) => Err(e),
        },
        ForgeName::Gitlab => match glab_path(url) {
            Ok(path) => {
                let api_path = post_note_path(&path, number);
                Ok(
                    ForgeCommand {
                        argv: gitlab_api(url, &api_path, Some(body)),
                        timeout_s: 30,
                        what: "glab api POST notes".to_owned(),
                    },
                )
            },
            Err(e) => Err(e),
        },
    }
}

/// The command that closes a pull request.
pub open spec fn close_command(forge: ForgeName, url: Seq<char>, number: i64) -> Result<
    ForgeCommandView,
    Seq<char>,
> {
    match forge {
        ForgeName::Github => match github_slug(url) {
            Some(slug) => Ok(
                ForgeCommandView {
                    argv: seq![
                        "gh"@,
                        "pr"@,
                        "close"@,
                        text::int_text(number as int),
                        "-R"@,
                        slug,
                    ],
                    timeout_s: 60,
                    what: "gh pr close"@,
                },
            ),
            None => Err(no_slug_text(url)),
        },
        ForgeName::Gitlab => match gitlab_pair(url) {
            Some(_) => Ok(
                ForgeCommandView {
                    argv: seq![
                        "glab"@,
                        "mr"@,
                        "close"@,
                        text::int_text(number as int),
                        "-R"@,
                        glab_repo_flag(url),
                    ],
                    timeout_s: 60,
                    what: "glab mr close"@,
                },
            ),
            None => Err(no_path_text(url)),
        },
    }
}

/// What closes a pull request, in order, each only after the one before it
/// succeeded: the reason as a comment, where there is one, then the close.
pub open spec fn close_commands(
    forge: ForgeName,
    url: Seq<char>,
    number: i64,
    comment: Seq<char>,
) -> Result<Seq<ForgeCommandView>, Seq<char>> {
    let reason = text::first_chars(comment, 800);
    match close_command(forge, url, number) {
        Ok(close) => if reason.len() == 0 {
            Ok(seq![close])
        } else {
            Ok(seq![comment_command(forge, url, number, reason)->Ok_0, close])
        },
        Err(e) => Err(e),
    }
}

/// The commands that close a pull request; the first that fails ends it.
pub fn close_pr(forge: ForgeName, url: &str, number: i64, comment: &str) -> (r: Result<
    Vec<ForgeCommand>,
    String,
>)
    ensures
        match r {
            Ok(v) => close_commands(forge, url@, number, comment@) == Ok::<
                Seq<ForgeCommandView>,
                Seq<char>,
            >(commands(v@)),
            Err(e) => close_commands(forge, url@, number, comment@) == Err::<
                Seq<ForgeCommandView>,
                Seq<char>,
            >(e@),
        },
{
    let close = match forge {
        ForgeName::Github => match gh_slug(url) {
            Ok(slug) => ForgeCommand {
                argv: gh_close_args(&slug, number),
                timeout_s: 60,
                what: "gh pr close".to_owned(),
            },
            Err(e) => {
                return Err(e);
            },
        },
        ForgeName::Gitlab => match glab_close_args(url, number) {
            Ok(argv) => ForgeCommand { argv, timeout_s: 60, what: "glab mr close".to_owned() },
            Err(e) => {
                return Err(e);
            },
        },
    };
    let ghost last = close@;
    assert(close_command(forge, url@, number) == Ok::<ForgeCommandView, Seq<char>>(last));
    let reason = closing_comment(comment);
    let mut v: Vec<ForgeCommand> = Vec::new();
    if !reason.as_str().is_empty() {
        match comment_pr(forge, url, number, &reason) {
            Ok(c) => {
                v.push(c);
            },
            Err(e) => {
                return Err(e);
            },
        }
    }
    v.push(close);
    assert(commands(v@) =~= close_commands(forge, url@, number, comment@)->Ok_0);
    Ok(v)
}

/// `git push --force` of the current commit to a branch of the remote.
pub fn push_args(forge: ForgeName, url: &str, branch: &str) -> (r: Vec<String>)
    ensures
        text::texts(r@) == seq![
            "git"@,
            "push"@,
            "--force"@,
            ssh_url_of(forge, url@),
            "HEAD:"@ + branch@,
        ],
{
    let ssh = forge_for(forge).ssh_url(url);
    let refspec = "HEAD:".to_owned().concat(branch);
    let mut v = text::no_texts();
    text::add_text(&mut v, "git");
    text::add_text(&mut v, "push");
    text::add_text(&mut v, "--force");
    text::add_text(&mut v, &ssh);
    text::add_text(&mut v, &refspec);
    v
}


// ---------------------------------------------------------------------
// Reading the answers
// ---------------------------------------------------------------------

/// State that GitHub names, in any case; open where it names none.
pub open spec fn gh_state(s: Seq<char>) -> PrState {
    let t = text::upper(s);
    if t == "MERGED"@ {
        PrState::Merged
    } else if t == "CLOSED"@ {
        PrState::Closed
    } else {
        PrState::Open
    }
}

pub open spec fn gh_mergeable(s: Seq<char>) -> Mergeable {
    let t = text::upper(s);
    if t == "MERGEABLE"@ {
        Mergeable::Mergeable
    } else if t == "CONFLICTING"@ {
        Mergeable::Conflicting
    } else {
        Mergeable::Unknown
    }
}

pub open spec fn gh_review(s: Seq<char>) -> ReviewDecision {
    let t = text::upper(s);
    if t == "APPROVED"@ {
        ReviewDecision::Approved
    } else if t == "CHANGES_REQUESTED"@ {
        ReviewDecision::ChangesRequested
    } else {
        ReviewDecision::Undecided
    }
}

/// The pull request that a `gh pr view` document describes. The three lists
/// were read from the document's own lists.
pub fn gh_pr_view(
    v: &Json,
    rollup: Vec<GhCheckRun>,
    comments: Vec<GhComment>,
    reviews: Vec<GhReview>,
) -> (r: PrView)
    ensures
        r.state == gh_state(v@.text_field_or("state"@, ""@)),
        r.mergeable == gh_mergeable(v@.text_field_or("mergeable"@, ""@)),
        r.review_decision == gh_review(v@.text_field_or("reviewDecision"@, ""@)),
        r.head_ref@ == v@.text_field_or("headRefName"@, ""@),
        r.head_sha@ == v@.text_field_or("headRefOid"@, ""@),
        r.updated_at@ == v@.text_field_or("updatedAt"@, ""@),
        r.title@ == v@.text_field_or("title"@, ""@),
        r.body@ == v@.text_field_or("body"@, ""@),
        r.status_check_rollup == rollup,
        r.comments == comments,
        r.reviews == reviews,
{
    let st = text::to_upper(&v.get_str_or("state", ""));
    let state = if text::same(&st, "MERGED") {
        PrState::Merged
    } else if text::same(&st, "CLOSED") {
        PrState::Closed
    } else {
        PrState::Open
    };
    let me = text::to_upper(&v.get_str_or("mergeable", ""));
    let mergeable = if text::same(&me, "MERGEABLE") {
        Mergeable::Mergeable
    } else if text::same(&me, "CONFLICTING") {
        Mergeable::Conflicting
    } else {
        Mergeable::Unknown
    };
    let rd = text::to_upper(&v.get_str_or("reviewDecision", ""));
    let review_decision = if text::same(&rd, "APPROVED") {
        ReviewDecision::Approved
    } else if text::same(&rd, "CHANGES_REQUESTED") {
        ReviewDecision::ChangesRequested
    } else {
        ReviewDecision::Undecided
    };
    PrView {
        state,
        mergeable,
        review_decision,
        head_ref: v.get_str_or("headRefName", ""),
        head_sha: v.get_str_or("headRefOid", ""),
        updated_at: v.get_str_or("updatedAt", ""),
        title: v.get_str_or("title", ""),
        body: v.get_str_or("body", ""),
        status_check_rollup: rollup,
        comments,
        reviews,
    }
}

/// The answer of a `gh pr view`: the document of its trimmed output.
pub open spec fn gh_document(rc: i32, out: Seq<char>) -> Result<JsonView, Seq<char>> {
    if rc != 0 {
        Err(failed_text("gh pr view"@, rc, out))
    } else {
        crate::json::json_of(text::trim(out, Cut::White))
    }
}

/// Parse the answer of a `gh pr view`.
pub fn read_gh_document(rc: i32, out: &str) -> (r: Result<Json, String>)
    ensures
        match r {
            Ok(j) => gh_document(rc, out@) == Ok::<JsonView, Seq<char>>(j@),
            Err(e) => gh_document(rc, out@) == Err::<JsonView, Seq<char>>(e@),
        },
{
    if rc != 0 {
        Err(failed("gh pr view", rc, out))
    } else {
        let t = text::trim_text(out, Cut::White);
        crate::json::parse_json(&t)
    }
}

/// State that GitLab names, in any case; open where it names none.
pub open spec fn gl_state(raw: Seq<char>) -> PrState {
    let t = text::lower(raw);
    if t == "merged"@ {
        PrState::Merged
    } else if t == "closed"@ || t == "locked"@ {
        PrState::Closed
    } else {
        PrState::Open
    }
}

pub fn gitlab_norm_state(raw: &str) -> (r: PrState)
    ensures
        r == gl_state(raw@),
{
    let t = text::to_lower(raw);
    if text::same(&t, "merged") {
        PrState::Merged
    } else if text::same(&t, "closed") || text::same(&t, "locked") {
        PrState::Closed
    } else {
        PrState::Open
    }
}

/// The first of two optional texts that is there, else the default.
pub open spec fn first_of(a: Option<String>, b: Option<String>, default: Seq<char>) -> Seq<char> {
    match a {
        Some(s) => s@,
        None => match b {
            Some(s) => s@,
            None => default,
        },
    }
}

pub fn pick_first(a: &Option<String>, b: &Option<String>, default: &str) -> (r: String)
    ensures
        r@ == first_of(*a, *b, default@),
{
    match a {
        Some(s) => s.clone(),
        None => match b {
            Some(s) => s.clone(),
            None => default.to_owned(),
        },
    }
}

pub open spec fn gl_mergeable(mr: GlMergeRequest) -> Mergeable {
    let t = text::lower(first_of(mr.detailed_merge_status, mr.merge_status, ""@));
    if t == "mergeable"@ || t == "can_be_merged"@ || t == "ci_must_pass"@ || t
        == "ci_still_running"@ {
        Mergeable::Mergeable
    } else if text::has(t, "conflict"@) || t == "cannot_be_merged"@ {
        Mergeable::Conflicting
    } else {
        Mergeable::Unknown
    }
}

pub fn gitlab_norm_mergeable(mr: &GlMergeRequest) -> (r: Mergeable)
    ensures
        r == gl_mergeable(*mr),
{
    let t = text::to_lower(&pick_first(&mr.detailed_merge_status, &mr.merge_status, ""));
    if text::same(&t, "mergeable") || text::same(&t, "can_be_merged") || text::same(
        &t,
        "ci_must_pass",
    ) || text::same(&t, "ci_still_running") {
        Mergeable::Mergeable
    } else if text::contains(&t, "conflict") || text::same(&t, "cannot_be_merged") {
        Mergeable::Conflicting
    } else {
        Mergeable::Unknown
    }
}

/// The conclusion that stands for a pipeline's status.
pub open spec fn pipeline_conclusion(status: Seq<char>) -> Seq<char> {
    let t = text::lower(status);
    if t == "success"@ {
        "SUCCESS"@
    } else if t == "failed"@ {
        "FAILURE"@
    } else if t == "canceled"@ {
        "CANCELLED"@
    } else if t == "skipped"@ {
        "SKIPPED"@
    } else if t == "running"@ {
        "IN_PROGRESS"@
    } else if t == "pending"@ || t == "created"@ {
        "PENDING"@
    } else if t == "manual"@ {
        "NEUTRAL"@
    } else {
        text::upper(t)
    }
}

/// The pipeline of a merge request as a list of checks: one or none.
pub open spec fn gl_checks(mr: GlMergeRequest, checks: Seq<GhCheckRun>) -> bool {
    let status = match mr.head_pipeline {
        Some(s) => Some(s@),
        None => text::opt_text(mr.pipeline),
    };
    match status {
        Some(s) => {
            &&& checks.len() == 1
            &&& text::opt_text(checks[0].conclusion) == Some(pipeline_conclusion(s))
            &&& checks[0].name is None
            &&& checks[0].context is None
            &&& checks[0].state is None
        },
        None => checks.len() == 0,
    }
}

pub fn gitlab_norm_pipeline(mr: &GlMergeRequest) -> (r: Vec<GhCheckRun>)
    ensures
        gl_checks(*mr, r@),
{
    let mut out: Vec<GhCheckRun> = Vec::new();
    let status: &String = match &mr.head_pipeline {
        Some(s) => s,
        None => match &mr.pipeline {
            Some(s) => s,
            None => return out,
        },
    };
    let t = text::to_lower(status);
    let conclusion: String = if text::same(&t, "success") {
        "SUCCESS".to_owned()
    } else if text::same(&t, "failed") {
        "FAILURE".to_owned()
    } else if text::same(&t, "canceled") {
        "CANCELLED".to_owned()
    } else if text::same(&t, "skipped") {
        "SKIPPED".to_owned()
    } else if text::same(&t, "running") {
        "IN_PROGRESS".to_owned()
    } else if text::same(&t, "pending") || text::same(&t, "created") {
        "PENDING".to_owned()
    } else if text::same(&t, "manual") {
        "NEUTRAL".to_owned()
    } else {
        text::to_upper(&t)
    };
    out.push(GhCheckRun { name: None, context: None, conclusion: Some(conclusion), state: None });
    out
}

/// A remark: who, what and when.
pub struct Remark {
    pub author: Option<Seq<char>>,
    pub body: Seq<char>,
    pub at: Seq<char>,
}

pub open spec fn comment_remark(c: GhComment) -> Remark {
    Remark {
        author: match c.author {
            Some(a) => Some(a.login@),
            None => None,
        },
        body: c.body@,
        at: c.created_at@,
    }
}

pub open spec fn review_remark(c: GhReview) -> Remark {
    Remark {
        author: match c.author {
            Some(a) => Some(a.login@),
            None => None,
        },
        body: c.body@,
        at: c.submitted_at@,
    }
}

pub open spec fn note_remark(n: GlNote) -> Remark {
    Remark {
        author: match n.author {
            Some(a) => Some(a.username@),
            None => None,
        },
        body: n.body@,
        at: if n.created_at@.len() == 0 { n.updated_at@ } else { n.created_at@ },
    }
}

/// Whether a note stands at a line of the change.
pub open spec fn is_diff_note(n: GlNote) -> bool {
    text::opt_text(n.note_type) == Some("DiffNote"@)
}

/// The notes of people that are, or are not, at a line of the change.
pub open spec fn notes_of(notes: Seq<GlNote>, diff: bool) -> Seq<Remark>
    decreases notes.len(),
{
    if notes.len() == 0 {
        Seq::empty()
    } else {
        let rest = notes_of(notes.drop_last(), diff);
        let n = notes.last();
        if !n.system && is_diff_note(n) == diff {
            rest.push(note_remark(n))
        } else {
            rest
        }
    }
}

pub open spec fn comment_remarks(v: Seq<GhComment>) -> Seq<Remark> {
    v.map_values(|c: GhComment| comment_remark(c))
}

pub open spec fn review_remarks(v: Seq<GhReview>) -> Seq<Remark> {
    v.map_values(|c: GhReview| review_remark(c))
}

/// Notes of people as comments and, at lines of the change, as reviews.
pub fn gitlab_split_notes(notes: &Vec<GlNote>) -> (r: (Vec<GhComment>, Vec<GhReview>))
    ensures
        comment_remarks(r.0@) == notes_of(notes@, false),
        review_remarks(r.1@) == notes_of(notes@, true),
        forall|i: int| 0 <= i < r.1@.len() ==> (#[trigger] r.1@[i]).state@ == Seq::<char>::empty(),
{
    let mut comments: Vec<GhComment> = Vec::new();
    let mut reviews: Vec<GhReview> = Vec::new();
    let mut i: usize = 0;
    assert(comment_remarks(comments@) =~= Seq::<Remark>::empty());
    assert(review_remarks(reviews@) =~= Seq::<Remark>::empty());
    while i < notes.len()
        invariant
            i <= notes@.len(),
            comment_remarks(comments@) == notes_of(notes@.take(i as int), false),
            review_remarks(reviews@) == notes_of(notes@.take(i as int), true),
            forall|k: int|
                0 <= k < reviews@.len() ==> (#[trigger] reviews@[k]).state@ == Seq::<char>::empty(),
        decreases notes@.len() - i,
    {
        let n = &notes[i];
        assert(notes@.take(i + 1).drop_last() =~= notes@.take(i as int));
        let ghost cs = comment_remarks(comments@);
        let ghost rs = review_remarks(reviews@);
        if !n.system {
            let at: String = if n.created_at.as_str().is_empty() {
                n.updated_at.clone()
            } else {
                n.created_at.clone()
            };
            let author: Option<GhAuthor> = match &n.author {
                Some(a) => Some(GhAuthor { login: a.username.clone() }),
                None => None,
            };
            if text::opt_is(&n.note_type, "DiffNote") {
                let x = GhReview {
                    author,
                    body: n.body.clone(),
                    submitted_at: at,
                    state: String::new(),
                };
                reviews.push(x);
                assert(review_remarks(reviews@) =~= rs.push(note_remark(*n)));
            } else {
                let x = GhComment { author, body: n.body.clone(), created_at: at };
                comments.push(x);
                assert(comment_remarks(comments@) =~= cs.push(note_remark(*n)));
            }
        }
        i = i + 1;
    }
    assert(notes@.take(notes@.len() as int) =~= notes@);
    (comments, reviews)
}

/// Notes in the other order.
fn turned(notes: Vec<GlNote>) -> (r: Vec<GlNote>)
    ensures
        r@ == notes@.reverse(),
{
    let ghost all = notes@;
    let mut left = notes;
    let mut out: Vec<GlNote> = Vec::new();
    while left.len() > 0
        invariant
            left@.len() <= all.len(),
            left@ == all.take(left@.len() as int),
            out@ == all.reverse().take(all.len() - left@.len()),
        decreases left@.len(),
    {
        let ghost n = left@.len() as int;
        let last = left.pop();
        if let Some(x) = last {
            out.push(x);
            proof {
                assert(x == all[n - 1]);
                assert(all.reverse()[all.len() - n] == all[n - 1]);
                assert(left@ =~= all.take(n - 1));
                assert(out@ =~= all.reverse().take(all.len() - n + 1));
            }
        }
    }
    assert(out@ =~= all.reverse());
    out
}

/// The merge request as a pull request. `notes` come newest first, as they
/// are listed; title and description are kept where a worker is to read them.
pub fn gitlab_view(mr: GlMergeRequest, notes: Vec<GlNote>, engage: bool) -> (r: PrView)
    ensures
        r.state == gl_state(mr.state@),
        r.mergeable == gl_mergeable(mr),
        r.review_decision == ReviewDecision::Undecided,
        r.head_ref@ == mr.source_branch@,
        r.head_sha@ == mr.sha@,
        r.updated_at@ == mr.updated_at@,
        r.title@ == if engage { mr.title@ } else { Seq::<char>::empty() },
        r.body@ == if engage { mr.description@ } else { Seq::<char>::empty() },
        gl_checks(mr, r.status_check_rollup@),
        comment_remarks(r.comments@) == notes_of(notes@.reverse(), false),
        review_remarks(r.reviews@) == notes_of(notes@.reverse(), true),
        forall|i: int|
            0 <= i < r.reviews@.len() ==> (#[trigger] r.reviews@[i]).state@ == Seq::<char>::empty(),
{
    let (comments, reviews) = gitlab_split_notes(&turned(notes));
    let state = gitlab_norm_state(&mr.state);
    let mergeable = gitlab_norm_mergeable(&mr);
    let status_check_rollup = gitlab_norm_pipeline(&mr);
    PrView {
        state,
        mergeable,
        review_decision: ReviewDecision::Undecided,
        head_ref: mr.source_branch,
        head_sha: mr.sha,
        updated_at: mr.updated_at,
        title: if engage { mr.title } else { String::new() },
        body: if engage { mr.description } else { String::new() },
        status_check_rollup,
        comments,
        reviews,
    }
}

// ---------------------------------------------------------------------
// Laws
// ---------------------------------------------------------------------

/// A remote that is classified as GitHub and names an owner and a
/// repository is one that the GitHub operations accept.
pub proof fn law_detected_github_is_operable(
    url: Seq<char>,
    host: Seq<char>,
    path: Seq<char>,
    owner: Seq<char>,
    repo: Seq<char>,
)
    requires
        forge_of(url) == ForgeName::Github,
        host_path_of(url) == Some((host, path)),
        text::split_once(bare_path(path), "/"@) == Some((owner, repo)),
        owner.len() > 0,
        repo.len() > 0,
    ensures
        owner_repo_of(ForgeName::Github, url) == Some((hosted(host, owner), repo)),
{
}

proof fn lemma_scheme(scheme: Seq<char>, written: Seq<char>, rest: Seq<char>)
    requires
        text::lower(written) == text::lower(scheme),
    ensures
        after_scheme(written + "://"@ + rest, scheme) == Some(rest),
{
    reveal_strlit("://");
    let url = written + "://"@ + rest;
    assert(text::lower(written).len() == written.len());
    assert(text::lower(scheme).len() == scheme.len());
    let n = scheme.len() as int;
    assert(url.take(n) =~= written);
    assert(url.skip(n) =~= "://"@ + rest);
    assert(url.skip(n).take(3) =~= "://"@);
    assert(url.skip(n + 3) =~= rest);
}

/// The case of the scheme makes no difference to the host, and so none to
/// the forge.
pub proof fn law_scheme_case_is_ignored(written: Seq<char>, rest: Seq<char>)
    requires
        text::lower(written) == "https"@,
    ensures
        host_of(written + "://"@ + rest) == host_of("https"@ + "://"@ + rest),
        forge_of(written + "://"@ + rest) == forge_of("https"@ + "://"@ + rest),
        web_scheme(written + "://"@ + rest),
{
    reveal_strlit("https");
    assert(text::lower("https"@) =~= "https"@);
    lemma_scheme("https"@, written, rest);
    lemma_scheme("https"@, "https"@, rest);
}

/// Whether a text holds none of the characters that delimit a host in the
/// address of a remote.
pub open spec fn plain_name(s: Seq<char>) -> bool {
    !text::holds_char(s, ':') && !text::holds_char(s, '/') && !text::holds_char(s, '@')
}

/// A remote has the same host and path in each of its forms: with a web
/// scheme, over SSH with a user and with or without a port, and in the short
/// form with and without a user.
pub proof fn law_host_is_the_same_in_every_form(
    user: Seq<char>,
    host: Seq<char>,
    port: Seq<char>,
    path: Seq<char>,
)
    requires
        host.len() > 0,
        path.len() > 0,
        plain_name(host),
        !text::holds_char(user, ':'),
        !text::holds_char(user, '/'),
        !text::holds_char(port, '/'),
        !text::holds_char(port, '@'),
    ensures
        host_path_of("https"@ + "://"@ + (host + "/"@ + path)) == Some((host, path)),
        host_path_of("http"@ + "://"@ + (host + "/"@ + path)) == Some((host, path)),
        host_path_of("ssh"@ + "://"@ + (user + "@"@ + host + "/"@ + path)) == Some((host, path)),
        host_path_of("ssh"@ + "://"@ + (user + "@"@ + host + ":"@ + port + "/"@ + path)) == Some(
            (host, path),
        ),
        host_path_of(user + "@"@ + host + ":"@ + path) == Some((host, path)),
        !"//"@.is_prefix_of(path) ==> host_path_of(host + ":"@ + path) == Some((host, path)),
{
    let none = Seq::<char>::empty();
    let web = host + "/"@ + path;
    assert(authority(none, false, host, none, false) + "/"@ + path =~= web);
    lemma_scheme_form("https"@, none, false, host, none, false, path);
    lemma_scheme_form("http"@, none, false, host, none, false, path);
    let ssh = user + "@"@ + host + "/"@ + path;
    assert(authority(user, true, host, none, false) + "/"@ + path =~= ssh);
    lemma_scheme_form("ssh"@, user, true, host, none, false, path);
    let at_port = user + "@"@ + host + ":"@ + port + "/"@ + path;
    assert(authority(user, true, host, port, true) + "/"@ + path =~= at_port);
    lemma_scheme_form("ssh"@, user, true, host, port, true, path);
    lemma_scp_form(user, true, host, path);
    if !"//"@.is_prefix_of(path) {
        assert(none + none + host =~= host);
        lemma_scp_form(none, false, host, path);
    }
}

/// An address with a scheme has its host and path.
proof fn lemma_scheme_form(
    scheme: Seq<char>,
    user: Seq<char>,
    with_user: bool,
    host: Seq<char>,
    port: Seq<char>,
    with_port: bool,
    path: Seq<char>,
)
    requires
        scheme == "https"@ || scheme == "http"@ || scheme == "ssh"@,
        host.len() > 0,
        path.len() > 0,
        plain_name(host),
        !text::holds_char(user, '/'),
        !text::holds_char(port, '/'),
        !text::holds_char(port, '@'),
    ensures
        host_path_of(
            scheme + "://"@ + (authority(user, with_user, host, port, with_port) + "/"@ + path),
        ) == Some((host, path)),
{
    lemma_three_schemes(authority(user, with_user, host, port, with_port) + "/"@ + path);
    lemma_authority(user, with_user, host, port, with_port, path);
}

/// User, host and port as an address with a scheme has them.
spec fn authority(user: Seq<char>, with_user: bool, host: Seq<char>, port: Seq<char>, with_port: bool) -> Seq<
    char,
> {
    (if with_user { user + "@"@ } else { Seq::<char>::empty() }) + host + (if with_port {
        ":"@ + port
    } else {
        Seq::<char>::empty()
    })
}

proof fn lemma_three_schemes(rest: Seq<char>)
    ensures
        after_any_scheme("https"@ + "://"@ + rest) == Some(rest),
        after_any_scheme("http"@ + "://"@ + rest) == Some(rest),
        after_any_scheme("ssh"@ + "://"@ + rest) == Some(rest),
{
    reveal_strlit("https");
    reveal_strlit("http");
    reveal_strlit("ssh");
    reveal_strlit("://");
    lemma_scheme("https"@, "https"@, rest);
    lemma_scheme("http"@, "http"@, rest);
    lemma_scheme("ssh"@, "ssh"@, rest);
    let web = "http"@ + "://"@ + rest;
    assert(text::lower(web.take(5))[4] == text::lower_char(web[4]));
    assert(text::lower("https"@)[4] == text::lower_char('s'));
    assert(web[4] == ':');
    let ssh = "ssh"@ + "://"@ + rest;
    assert(ssh[0] == 's');
    assert(text::lower(ssh.take(5))[0] == text::lower_char(ssh[0]));
    assert(text::lower(ssh.take(4))[0] == text::lower_char(ssh[0]));
    assert(text::lower("https"@)[0] == text::lower_char('h'));
    assert(text::lower("http"@)[0] == text::lower_char('h'));
}

/// What follows a scheme is cut into host and path.
proof fn lemma_authority(
    user: Seq<char>,
    with_user: bool,
    host: Seq<char>,
    port: Seq<char>,
    with_port: bool,
    path: Seq<char>,
)
    requires
        plain_name(host),
        !text::holds_char(user, '/'),
        !text::holds_char(port, '/'),
        !text::holds_char(port, '@'),
    ensures
        ({
            let rest = authority(user, with_user, host, port, with_port) + "/"@ + path;
            &&& text::split_once(rest, "/"@) == Some(
                (authority(user, with_user, host, port, with_port), path),
            )
            &&& up_to(after_last(up_to(rest, "/"@), "@"@), ":"@) == host
        }),
{
    reveal_strlit(":");
    reveal_strlit("/");
    reveal_strlit("@");
    assert(":"@ =~= seq![':']);
    assert("/"@ =~= seq!['/']);
    assert("@"@ =~= seq!['@']);
    let none = Seq::<char>::empty();
    let tail = if with_port { ":"@ + port } else { none };
    let place = host + tail;
    let full = authority(user, with_user, host, port, with_port);
    assert(!text::holds_char(place, '/')) by {
        lemma_parts_without(host, seq![':'], port, '/');
        assert(with_port ==> place =~= host + seq![':'] + port);
        assert(!with_port ==> place =~= host);
    }
    assert(!text::holds_char(place, '@')) by {
        lemma_parts_without(host, seq![':'], port, '@');
        assert(with_port ==> place =~= host + seq![':'] + port);
        assert(!with_port ==> place =~= host);
    }
    assert(with_user ==> full =~= user + seq!['@'] + place);
    assert(!with_user ==> full =~= place);
    assert(!text::holds_char(full, '/')) by {
        lemma_parts_without(user, seq!['@'], place, '/');
    }
    text::lemma_split_once_at(full, '/', path);
    if with_user {
        text::lemma_rsplit_once_at(user, '@', place);
    } else {
        text::lemma_split_once_none(place, '@');
    }
    assert(after_last(full, "@"@) == place);
    if with_port {
        assert(place =~= host + seq![':'] + port);
        text::lemma_split_once_at(host, ':', port);
    } else {
        assert(place =~= host);
        text::lemma_split_once_none(host, ':');
    }
}

proof fn lemma_parts_without(a: Seq<char>, between: Seq<char>, b: Seq<char>, c: char)
    requires
        !text::holds_char(a, c),
        !text::holds_char(b, c),
        between.len() == 1,
        between[0] != c,
    ensures
        !text::holds_char(a + between + b, c),
{
    let s = a + between + b;
    if text::holds_char(s, c) {
        let i = choose|i: int| 0 <= i < s.len() && s[i] == c;
        if i < a.len() {
            assert(a[i] == c);
        } else if i > a.len() {
            assert(b[i - a.len() - 1] == c);
        }
    }
}

/// The short form is cut at its first colon, and has no scheme.
proof fn lemma_scp_form(user: Seq<char>, with_user: bool, host: Seq<char>, path: Seq<char>)
    requires
        host.len() > 0,
        path.len() > 0,
        plain_name(host),
        !text::holds_char(user, ':'),
        !text::holds_char(user, '/'),
        with_user || user.len() == 0 && !"//"@.is_prefix_of(path),
    ensures
        host_path_of(user + (if with_user { "@"@ } else { Seq::<char>::empty() }) + host + ":"@ + path)
            == Some((host, path)),
{
    reveal_strlit(":");
    reveal_strlit("/");
    reveal_strlit("@");
    reveal_strlit("//");
    reveal_strlit("://");
    assert(":"@ =~= seq![':']);
    assert("/"@ =~= seq!['/']);
    assert("@"@ =~= seq!['@']);
    let none = Seq::<char>::empty();
    let a = user + (if with_user { "@"@ } else { none }) + host;
    let url = a + ":"@ + path;
    if with_user {
        lemma_parts_without(user, seq!['@'], host, ':');
        lemma_parts_without(user, seq!['@'], host, '/');
        text::lemma_rsplit_once_at(user, '@', host);
    } else {
        assert(a =~= host);
        text::lemma_split_once_none(host, '@');
    }
    assert(after_last(a, "@"@) == host);
    text::lemma_split_once_at(a, ':', path);
    text::lemma_split_once_none(a, '/');
    assert(scp_parts(url) == Some((a, path)));
    lemma_no_scheme(user, with_user, host, path, "https"@);
    lemma_no_scheme(user, with_user, host, path, "http"@);
    lemma_no_scheme(user, with_user, host, path, "ssh"@);
}

proof fn lemma_no_scheme(user: Seq<char>, with_user: bool, host: Seq<char>, path: Seq<char>, scheme: Seq<char>)
    requires
        plain_name(host),
        !text::holds_char(user, ':'),
        with_user || user.len() == 0 && !"//"@.is_prefix_of(path),
        scheme == "https"@ || scheme == "http"@ || scheme == "ssh"@,
    ensures
        after_scheme(
            user + (if with_user { "@"@ } else { Seq::<char>::empty() }) + host + ":"@ + path,
            scheme,
        ) is None,
{
    reveal_strlit("https");
    reveal_strlit("http");
    reveal_strlit("ssh");
    reveal_strlit(":");
    reveal_strlit("@");
    reveal_strlit("//");
    reveal_strlit("://");
    let a = user + (if with_user { "@"@ } else { Seq::<char>::empty() }) + host;
    let url = a + ":"@ + path;
    let n = scheme.len() as int;
    if after_scheme(url, scheme) is Some {
        assert(url.skip(n).take(3) =~= "://"@);
        assert(url[n] == "://"@[0]);
        assert(url[n + 1] == "://"@[1] && url[n + 2] == "://"@[2]);
        if n < a.len() {
            if n < user.len() {
                assert(user[n] == ':');
            } else if with_user {
                assert(n > user.len());
                assert(host[n - user.len() - 1] == ':');
            } else {
                assert(host[n] == ':');
            }
        }
        assert(n >= a.len());
        if with_user {
            let k = user.len() as int;
            assert(url[k] == '@');
            assert(text::lower(url.take(n))[k] == text::lower_char(url[k]));
            assert(text::lower(scheme)[k] == text::lower_char(scheme[k]));
            assert(false);
        } else if n == a.len() {
            assert(path.len() >= 2);
            assert(path.take(2) =~= "//"@) by {
                assert(url[n + 1] == path[0] && url[n + 2] == path[1]);
            }
        } else {
            let k = a.len() as int;
            assert(url[k] == ':');
            assert(text::lower(url.take(n))[k] == text::lower_char(url[k]));
            assert(text::lower(scheme)[k] == text::lower_char(scheme[k]));
            assert(false);
        }
    }
}

/// A rewritten push address stays on the host of the remote.
pub proof fn law_push_stays_on_host(forge: ForgeName, url: Seq<char>)
    requires
        ssh_url_of(forge, url) != url,
    ensures
        host_of(ssh_url_of(forge, url)) == host_of(url),
{
    let (h, p) = host_path_of(url)->0;
    let q = bare_path(p);
    let ssh = ssh_url_of(forge, url);
    assert(ssh == "git@"@ + h + ":"@ + q + ".git"@);
    lemma_web_host_is_plain(url);
    reveal_strlit("git@");
    reveal_strlit(":");
    reveal_strlit("/");
    reveal_strlit("@");
    reveal_strlit(".git");
    assert(":"@ =~= seq![':']);
    assert("/"@ =~= seq!['/']);
    assert("@"@ =~= seq!['@']);
    let a = "git@"@ + h;
    let b = q + ".git"@;
    assert(ssh =~= a + seq![':'] + b);
    assert(!text::holds_char(a, ':')) by {
        if text::holds_char(a, ':') {
            let i = choose|i: int| 0 <= i < a.len() && a[i] == ':';
            if i >= 4 {
                assert(h[i - 4] == ':');
            }
        }
    }
    text::lemma_split_once_at(a, ':', b);
    assert(!text::holds_char(a, '/')) by {
        if text::holds_char(a, '/') {
            let i = choose|i: int| 0 <= i < a.len() && a[i] == '/';
            if i >= 4 {
                assert(h[i - 4] == '/');
            }
        }
    }
    text::lemma_split_once_none(a, '/');
    assert(a =~= "git"@ + seq!['@'] + h) by {
        reveal_strlit("git");
    }
    text::lemma_rsplit_once_at("git"@, '@', h);
    assert(after_any_scheme(ssh) is None) by {
        reveal_strlit("https");
        reveal_strlit("http");
        reveal_strlit("ssh");
        if ssh.len() >= 5 {
            assert(text::lower(ssh.take(5))[0] == text::lower_char(ssh[0]));
            assert(text::lower("https"@)[0] == 'h');
        }
        if ssh.len() >= 4 {
            assert(text::lower(ssh.take(4))[0] == text::lower_char(ssh[0]));
            assert(text::lower("http"@)[0] == 'h');
        }
        assert(text::lower(ssh.take(3))[0] == text::lower_char(ssh[0]));
        assert(text::lower("ssh"@)[0] == 's');
        assert(ssh[0] == 'g');
    }
}

/// A web address's host holds none of the characters that delimit it.
proof fn lemma_web_host_is_plain(url: Seq<char>)
    requires
        web_scheme(url),
        host_of(url) is Some,
    ensures
        !text::holds_char(host_of(url)->0, ':'),
        !text::holds_char(host_of(url)->0, '/'),
        !text::holds_char(host_of(url)->0, '@'),
{
    reveal_strlit(":");
    reveal_strlit("/");
    reveal_strlit("@");
    assert(":"@ =~= seq![':']);
    assert("/"@ =~= seq!['/']);
    assert("@"@ =~= seq!['@']);
    let rest = after_any_scheme(url)->0;
    let au = up_to(rest, "/"@);
    lemma_up_to(rest, '/');
    let ho = after_last(au, "@"@);
    lemma_after_last(au, '@');
    lemma_up_to(ho, ':');
    let h = up_to(ho, ":"@);
    assert forall|i: int| 0 <= i < h.len() implies h[i] == ho[i] by {}
    if text::holds_char(h, '/') {
        let i = choose|i: int| 0 <= i < h.len() && h[i] == '/';
        assert(ho[i] == '/');
        assert(text::holds_char(ho, '/'));
    }
    if text::holds_char(h, '@') {
        let i = choose|i: int| 0 <= i < h.len() && h[i] == '@';
        assert(ho[i] == '@');
        assert(text::holds_char(ho, '@'));
    }
}

proof fn lemma_up_to(s: Seq<char>, c: char)
    ensures
        !text::holds_char(up_to(s, seq![c]), c),
        up_to(s, seq![c]).len() <= s.len(),
        forall|i: int| 0 <= i < up_to(s, seq![c]).len() ==> up_to(s, seq![c])[i] == s[i],
{
    text::lemma_find_from(s, seq![c], 0);
    let u = up_to(s, seq![c]);
    if text::holds_char(u, c) {
        let i = choose|i: int| 0 <= i < u.len() && u[i] == c;
        text::lemma_occurs_one(s, c, i);
        assert(text::occurs_at(s, seq![c], i));
    }
}

proof fn lemma_after_last(s: Seq<char>, c: char)
    ensures
        !text::holds_char(after_last(s, seq![c]), c),
        forall|d: char| text::holds_char(after_last(s, seq![c]), d) ==> #[trigger] text::holds_char(
            s,
            d,
        ),
{
    text::lemma_rfind_to(s, seq![c], s.len() - 1);
    let a = after_last(s, seq![c]);
    let off = s.len() - a.len();
    assert forall|i: int| 0 <= i < a.len() implies a[i] == s[off + i] by {}
    if text::holds_char(a, c) {
        let i = choose|i: int| 0 <= i < a.len() && a[i] == c;
        text::lemma_occurs_one(s, c, off + i);
        assert(text::occurs_at(s, seq![c], off + i));
    }
    assert forall|d: char| text::holds_char(a, d) implies #[trigger] text::holds_char(s, d) by {
        let i = choose|i: int| 0 <= i < a.len() && a[i] == d;
        assert(s[off + i] == d);
    }
}

/// A pull request is never closed silently: where there is a reason, it is
/// posted first, and the close is the last command.
pub proof fn law_reason_lands_before_the_close(
    forge: ForgeName,
    url: Seq<char>,
    number: i64,
    comment: Seq<char>,
)
    requires
        comment.len() > 0,
        close_commands(forge, url, number, comment) is Ok,
    ensures
        ({
            let v = close_commands(forge, url, number, comment)->Ok_0;
            &&& v.len() == 2
            &&& comment_command(forge, url, number, text::first_chars(comment, 800)) == Ok::<
                ForgeCommandView,
                Seq<char>,
            >(v[0])
            &&& close_command(forge, url, number) == Ok::<ForgeCommandView, Seq<char>>(v[1])
        }),
{
    assert(text::first_chars(comment, 800).len() > 0);
}

/// Where a comment can be posted, the pull request can be closed, and the
/// other way round: both ask the same remote.
pub proof fn law_comment_and_close_ask_the_same_remote(
    forge: ForgeName,
    url: Seq<char>,
    number: i64,
    body: Seq<char>,
)
    ensures
        comment_command(forge, url, number, body) is Ok <==> close_command(forge, url, number) is Ok,
        comment_command(forge, url, number, body) is Err ==> comment_command(
            forge,
            url,
            number,
            body,
        )->Err_0 == close_command(forge, url, number)->Err_0,
{
}

/// The states of the two forges are read alike, in any case: only what is
/// named as merged is merged, only what is named as closed, or locked on
/// GitLab, is closed, and everything else is open.
pub proof fn law_states_are_read_by_name(s: Seq<char>)
    ensures
        gh_state(s) == PrState::Merged <==> text::upper(s) == "MERGED"@,
        gh_state(s) == PrState::Closed <==> text::upper(s) == "CLOSED"@,
        gl_state(s) == PrState::Merged <==> text::lower(s) == "merged"@,
        gl_state(s) == PrState::Closed <==> text::lower(s) == "closed"@ || text::lower(s) == "locked"@,
        gh_mergeable(s) == Mergeable::Conflicting <==> text::upper(s) == "CONFLICTING"@,
        gh_mergeable(s) == Mergeable::Mergeable <==> text::upper(s) == "MERGEABLE"@,
        gh_review(s) == ReviewDecision::ChangesRequested <==> text::upper(s) == "CHANGES_REQUESTED"@,
        gh_review(s) == ReviewDecision::Approved <==> text::upper(s) == "APPROVED"@,
{
    reveal_strlit("MERGED");
    reveal_strlit("CLOSED");
    reveal_strlit("merged");
    reveal_strlit("closed");
    reveal_strlit("locked");
    reveal_strlit("CONFLICTING");
    reveal_strlit("MERGEABLE");
    reveal_strlit("CHANGES_REQUESTED");
    reveal_strlit("APPROVED");
    assert("MERGED"@[0] == 'M' && "CLOSED"@[0] == 'C');
    assert("merged"@[0] == 'm' && "closed"@[0] == 'c' && "locked"@[0] == 'l');
    assert("MERGEABLE"@.len() == 9 && "CONFLICTING"@.len() == 11);
    assert("CHANGES_REQUESTED"@.len() == 17 && "APPROVED"@.len() == 8);
}

/// A merge request that has a conflict is never taken for one that can be
/// merged. The detailed status counts before the plain one.
pub proof fn law_conflicts_are_told(mr: GlMergeRequest)
    ensures
        ({
            let said = match mr.detailed_merge_status {
                Some(s) => text::lower(s@),
                None => match mr.merge_status {
                    Some(s) => text::lower(s@),
                    None => Seq::<char>::empty(),
                },
            };
            let good = said == "mergeable"@ || said == "can_be_merged"@ || said == "ci_must_pass"@ || said
                == "ci_still_running"@;
            let bad = text::has(said, "conflict"@) || said == "cannot_be_merged"@;
            &&& gl_mergeable(mr) == Mergeable::Mergeable <==> good
            &&& gl_mergeable(mr) == Mergeable::Conflicting <==> bad && !good
        }),
{
    reveal_strlit("");
    assert(text::lower(""@) =~= Seq::<char>::empty());
}

/// A pipeline counts as the check that it stands for: a failed or canceled
/// one fails, a successful, skipped or manual one passes, and one that runs,
/// waits or was just created does neither.
pub proof fn law_pipeline_counts_as_a_check(status: Seq<char>)
    ensures
        ({
            let end = CheckConclusion::of_text(pipeline_conclusion(status));
            let t = text::lower(status);
            &&& t == "failed"@ || t == "canceled"@ ==> end.failing()
            &&& t == "success"@ || t == "skipped"@ || t == "manual"@ ==> end.passing()
            &&& t == "running"@ || t == "pending"@ || t == "created"@ ==> !end.failing() && !end.passing()
        }),
{
    reveal_strlit("");
    reveal_strlit("success");
    reveal_strlit("failed");
    reveal_strlit("canceled");
    reveal_strlit("skipped");
    reveal_strlit("running");
    reveal_strlit("pending");
    reveal_strlit("created");
    reveal_strlit("manual");
    reveal_strlit("SUCCESS");
    reveal_strlit("FAILURE");
    reveal_strlit("TIMED_OUT");
    reveal_strlit("CANCELLED");
    reveal_strlit("NEUTRAL");
    reveal_strlit("SKIPPED");
    reveal_strlit("PENDING");
    reveal_strlit("IN_PROGRESS");
    assert("success"@[0] == 's' && "success"@[1] == 'u');
    assert("failed"@[0] == 'f');
    assert("canceled"@[0] == 'c' && "canceled"@[1] == 'a');
    assert("skipped"@[0] == 's' && "skipped"@[1] == 'k');
    assert("running"@[0] == 'r');
    assert("pending"@[0] == 'p');
    assert("created"@[0] == 'c' && "created"@[1] == 'r');
    assert("manual"@[0] == 'm');
    assert("SUCCESS"@[0] == 'S' && "SUCCESS"@[1] == 'U');
    assert("FAILURE"@[0] == 'F');
    assert("TIMED_OUT"@[0] == 'T');
    assert("CANCELLED"@[0] == 'C');
    assert("NEUTRAL"@[0] == 'N');
    assert("SKIPPED"@[0] == 'S' && "SKIPPED"@[1] == 'K');
    assert("PENDING"@[0] == 'P');
    assert("IN_PROGRESS"@[0] == 'I');
    assert(text::upper("SUCCESS"@) =~= "SUCCESS"@);
    assert(text::upper("FAILURE"@) =~= "FAILURE"@);
    assert(text::upper("CANCELLED"@) =~= "CANCELLED"@);
    assert(text::upper("SKIPPED"@) =~= "SKIPPED"@);
    assert(text::upper("NEUTRAL"@) =~= "NEUTRAL"@);
    assert(text::upper("PENDING"@) =~= "PENDING"@);
    assert(text::upper("IN_PROGRESS"@) =~= "IN_PROGRESS"@);
}

/// The notes of people keep their order; what the system wrote is dropped. A
/// note at a line of the change is a review, every other a comment, and none
/// is both.
pub proof fn law_notes_are_reviews_or_comments(notes: Seq<GlNote>, n: GlNote)
    ensures
        ({
            let diff = n.note_type matches Some(t) && t@ == "DiffNote"@;
            let comments = notes_of(notes, false);
            let reviews = notes_of(notes, true);
            &&& n.system ==> notes_of(notes.push(n), false) == comments && notes_of(notes.push(n), true) == reviews
            &&& !n.system && diff ==> notes_of(notes.push(n), true) == reviews.push(note_remark(n)) && notes_of(
                notes.push(n),
                false,
            ) == comments
            &&& !n.system && !diff ==> notes_of(notes.push(n), false) == comments.push(note_remark(n))
                && notes_of(notes.push(n), true) == reviews
        }),
        notes_of(Seq::empty(), true).len() == 0 && notes_of(Seq::empty(), false).len() == 0,
{
    assert(notes.push(n).drop_last() =~= notes);
}

/// A note is remarked by its author, with its text, at the time that it was
/// written, or changed where that is all that is known.
pub proof fn law_note_is_remarked_by_its_author(n: GlNote)
    ensures
        note_remark(n).body == n.body@,
        n.author matches Some(a) ==> note_remark(n).author == Some(a.username@),
        n.author is None ==> note_remark(n).author is None,
        n.created_at@.len() > 0 ==> note_remark(n).at == n.created_at@,
        n.created_at@.len() == 0 ==> note_remark(n).at == n.updated_at@,
{
}

/// A command line in which a flag is followed by its value.
pub open spec fn flagged(argv: Seq<Seq<char>>, flag: Seq<char>, value: Seq<char>) -> bool {
    exists|i: int| 0 <= i < argv.len() - 1 && #[trigger] argv[i] == flag && argv[i + 1] == value
}

/// A pull request is opened as a draft, from the branch that was worked on
/// into the base branch, with its title, or the branch where it has none, and
/// its body.
pub proof fn law_pull_request_goes_into_its_base(
    head: Seq<char>,
    base: Seq<char>,
    title: Seq<char>,
    body: Seq<char>,
)
    ensures
        ({
            let v = create_args_of(ForgeName::Github, head, base, title, body);
            &&& v.contains("--draft"@)
            &&& flagged(v, "--head"@, head)
            &&& flagged(v, "--base"@, base)
            &&& flagged(v, "--title"@, if title.len() > 0 { title } else { head })
            &&& flagged(v, "--body"@, body)
        }),
        ({
            let v = create_args_of(ForgeName::Gitlab, head, base, title, body);
            &&& v.contains("--draft"@)
            &&& flagged(v, "--source-branch"@, head)
            &&& flagged(v, "--target-branch"@, base)
            &&& flagged(v, "--title"@, if title.len() > 0 { title } else { head })
            &&& flagged(v, "--description"@, body)
        }),
{
    let v = create_args_of(ForgeName::Github, head, base, title, body);
    assert(v[3] == "--draft"@ && v[4] == "--head"@ && v[6] == "--base"@ && v[8] == "--title"@ && v[10]
        == "--body"@);
    let w = create_args_of(ForgeName::Gitlab, head, base, title, body);
    assert(w[3] == "--source-branch"@ && w[5] == "--target-branch"@ && w[7] == "--draft"@ && w[8] == "--title"@
        && w[10] == "--description"@);
}

/// Closing and commenting act on the pull request of the given number, in the
/// repository of the remote.
pub proof fn law_commands_name_their_pull_request(url: Seq<char>, number: i64, body: Seq<char>)
    ensures
        github_pair(url) matches Some((owner, repo)) ==> {
            &&& close_command(ForgeName::Github, url, number) matches Ok(c) && c.argv[2] == "close"@ && c.argv[3]
                == text::int_text(number as int) && flagged(c.argv, "-R"@, owner + "/"@ + repo)
            &&& comment_command(ForgeName::Github, url, number, body) matches Ok(c) && c.argv[2] == "comment"@
                && c.argv[3] == text::int_text(number as int) && flagged(c.argv, "-R"@, owner + "/"@ + repo)
                && flagged(c.argv, "--body"@, body)
        },
        gitlab_pair(url) matches Some((host, path)) ==> {
            &&& close_command(ForgeName::Gitlab, url, number) matches Ok(c) && c.argv[2] == "close"@ && c.argv[3]
                == text::int_text(number as int) && flagged(
                c.argv,
                "-R"@,
                if host == "gitlab.com"@ { path } else { "https://"@ + host + "/"@ + path },
            )
            &&& comment_command(ForgeName::Gitlab, url, number, body) matches Ok(c) && flagged(
                c.argv,
                "-f"@,
                "body="@ + body,
            ) && flagged(c.argv, "--method"@, "POST"@) && (host != "gitlab.com"@ ==> flagged(
                c.argv,
                "--hostname"@,
                host,
            )) && (host == "gitlab.com"@ ==> c.argv.len() == 7)
        },
{
    if let Some((owner, repo)) = github_pair(url) {
        let a = close_command(ForgeName::Github, url, number)->Ok_0.argv;
        let b = comment_command(ForgeName::Github, url, number, body)->Ok_0.argv;
        assert(a[4] == "-R"@ && a[5] == owner + "/"@ + repo);
        assert(b[4] == "-R"@ && b[5] == owner + "/"@ + repo && b[6] == "--body"@ && b[7] == body);
    }
    if let Some((host, path)) = gitlab_pair(url) {
        let a = close_command(ForgeName::Gitlab, url, number)->Ok_0.argv;
        let b = comment_command(ForgeName::Gitlab, url, number, body)->Ok_0.argv;
        assert(a[4] == "-R"@);
        assert(b[3] == "--method"@ && b[4] == "POST"@ && b[5] == "-f"@ && b[6] == "body="@ + body);
        if host != "gitlab.com"@ {
            assert(b[7] == "--hostname"@ && b[8] == host);
        }
    }
}

/// A web address is pushed to over SSH on the same host and path; an address
/// in another form is kept.
pub proof fn law_web_address_is_pushed_over_ssh(host: Seq<char>, path: Seq<char>)
    requires
        host.len() > 0,
        plain_name(host),
        path.len() > 0,
        bare_path(path) == path,
    ensures
        ssh_url_of(ForgeName::Gitlab, "https"@ + "://"@ + (host + "/"@ + path)) == "git@"@ + host + ":"@ + path
            + ".git"@,
        github_host(host) ==> ssh_url_of(ForgeName::Github, "https"@ + "://"@ + (host + "/"@ + path)) == "git@"@
            + host + ":"@ + path + ".git"@,
        !github_host(host) ==> ssh_url_of(ForgeName::Github, "https"@ + "://"@ + (host + "/"@ + path)) == "https"@
            + "://"@ + (host + "/"@ + path),
{
    let none = Seq::<char>::empty();
    let web = host + "/"@ + path;
    law_host_is_the_same_in_every_form(none, host, none, path);
    reveal_strlit("https");
    assert(text::lower("https"@) =~= "https"@);
    lemma_scheme("https"@, "https"@, web);
}

/// The first of two texts that is there counts.
pub proof fn law_first_text_counts(a: Option<String>, b: Option<String>, default: Seq<char>)
    ensures
        a matches Some(s) ==> first_of(a, b, default) == s@,
        a is None ==> (b matches Some(s) ==> first_of(a, b, default) == s@),
        a is None && b is None ==> first_of(a, b, default) == default,
{
}

/// A text of digits behind the last marker is the number of an address.
proof fn lemma_marked_number(slug: Seq<char>, n: i64)
    requires
        n >= 0,
    ensures
        text::rsplit_once(slug + "/pull/"@ + text::int_text(n as int), "/pull/"@) == Some(
            (slug, text::int_text(n as int)),
        ),
        number_part(text::int_text(n as int)) == Some(n as int),
{
    reveal_strlit("/pull/");
    let p = "/pull/"@;
    let d = text::int_text(n as int);
    let s = slug + p + d;
    let at = slug.len() as int;
    lemma_nat_plain(n as nat);
    text::lemma_rfind_to(s, p, s.len() - p.len());
    assert(s.subrange(at, at + 6) =~= p);
    assert(text::occurs_at(s, p, at));
    assert forall|k: int| k > at implies !text::occurs_at(s, p, k) by {
        if text::occurs_at(s, p, k) {
            assert(s.subrange(k, k + 6)[0] == s[k]);
            assert(s.subrange(k, k + 6)[5] == s[k + 5]);
            assert(s[k] == '/' && s[k + 5] == '/');
            if k >= at + 6 {
                assert(d[k - at - 6] == '/');
            } else {
                assert(s[k] == p[k - at]);
                assert(k == at + 5);
                assert(d[k + 5 - at - 6] == '/');
            }
        }
    }
    assert(text::rfind(s, p) == Some(at));
    assert(s.take(at) =~= slug);
    assert(s.skip(at + 6) =~= d);
    lemma_whole_part(d);
    text::law_decimal_round_trip(n);
}

proof fn lemma_nat_plain(n: nat)
    ensures
        forall|k: int| 0 <= k < text::nat_text(n).len() ==> text::is_digit(#[trigger] text::nat_text(n)[k]),
    decreases n,
{
    if n >= 10 {
        let most = text::nat_text(n / 10);
        lemma_nat_plain(n / 10);
        assert forall|k: int| 0 <= k < text::nat_text(n).len() implies text::is_digit(
            #[trigger] text::nat_text(n)[k],
        ) by {
            if k < most.len() {
                assert(text::nat_text(n)[k] == most[k]);
            }
        }
    }
}

/// A text that no web address part ends in is one part.
proof fn lemma_whole_part(d: Seq<char>)
    requires
        forall|k: int| 0 <= k < d.len() ==> text::is_digit(#[trigger] d[k]),
    ensures
        text::split(d, Cut::UrlPart) == seq![d],
    decreases d.len(),
{
    if d.len() == 0 {
        assert(d =~= Seq::<char>::empty());
    } else {
        let short = d.drop_last();
        assert forall|k: int| 0 <= k < short.len() implies text::is_digit(#[trigger] short[k]) by {
            assert(d[k] == short[k]);
        }
        lemma_whole_part(short);
        assert(text::is_digit(d[d.len() - 1]));
        assert(short.push(d.last()) =~= d);
        assert(text::split(d, Cut::UrlPart) =~= seq![d]);
    }
}

/// The address of a pull request gives back the repository and the number
/// that it was built of; the repository carries the host where that is not
/// github.com.
pub proof fn law_pull_request_address_round_trip(host: Seq<char>, slug: Seq<char>, n: i64)
    requires
        host.len() > 0,
        plain_name(host),
        github_host(host),
        n >= 0,
    ensures
        pr_url_parts(
            ForgeName::Github,
            "https"@ + "://"@ + (host + "/"@ + (slug + "/pull/"@ + text::int_text(n as int))),
        ) == Some((if text::lower(host) == "github.com"@ { slug } else { text::lower(host) + "/"@ + slug }, n as int)),
{
    reveal_strlit("/pull/");
    let path = slug + "/pull/"@ + text::int_text(n as int);
    let none = Seq::<char>::empty();
    law_host_is_the_same_in_every_form(none, host, none, path);
    reveal_strlit("https");
    assert(text::lower("https"@) =~= "https"@);
    lemma_scheme("https"@, "https"@, host + "/"@ + path);
    lemma_marked_number(slug, n);
}

} // verus!
