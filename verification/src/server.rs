//! What the HTTP surface checks and answers.

use vstd::prelude::*;
use crate::backend::{Verdict, VerdictView};
use crate::domain::{FindingStatus, FindingType, ForgeName, Severity};
use crate::forge;
use crate::json;
use crate::json::{Json, JsonView};
use crate::scheduler::effects;
use crate::scheduler::effects::{Effect, EffectView};
use crate::store::{FindingFilter, RepoUpdate};
use crate::text;
use crate::text::Cut;
use crate::types::{BudgetState, Finding, SchedulerState};
use crate::util;

verus! {

/// The notes of a repository, as they are answered.
#[derive(Debug, Clone)]
pub struct RepoNotesResponse {
    pub notes: String,
}

// ---------------------------------------------------------------------
// Errors
// ---------------------------------------------------------------------

/// Why a request is refused.
#[derive(Debug, Clone)]
pub enum ApiError {
    BadRequest { message: String },
    NotFound { message: String },
    Conflict { message: String },
    UnsupportedMediaType,
    Forbidden,
}

pub enum ApiErrorView {
    BadRequest { message: Seq<char> },
    NotFound { message: Seq<char> },
    Conflict { message: Seq<char> },
    UnsupportedMediaType,
    Forbidden,
}

impl View for ApiError {
    type V = ApiErrorView;

    open spec fn view(&self) -> ApiErrorView {
        match *self {
            ApiError::BadRequest { message } => ApiErrorView::BadRequest { message: message@ },
            ApiError::NotFound { message } => ApiErrorView::NotFound { message: message@ },
            ApiError::Conflict { message } => ApiErrorView::Conflict { message: message@ },
            ApiError::UnsupportedMediaType => ApiErrorView::UnsupportedMediaType,
            ApiError::Forbidden => ApiErrorView::Forbidden,
        }
    }
}

pub open spec fn bad(message: Seq<char>) -> ApiErrorView {
    ApiErrorView::BadRequest { message }
}

fn bad_request(message: &str) -> (r: ApiError)
    ensures
        r@ == bad(message@),
{
    ApiError::BadRequest { message: message.to_owned() }
}

impl ApiError {
    /// The status of the answer.
    pub fn status(&self) -> (r: u16)
        ensures
            r == (match self@ {
                ApiErrorView::BadRequest { .. } => 400u16,
                ApiErrorView::NotFound { .. } => 404,
                ApiErrorView::Conflict { .. } => 409,
                ApiErrorView::UnsupportedMediaType => 415,
                ApiErrorView::Forbidden => 403,
            }),
    {
        match self {
            ApiError::BadRequest { .. } => 400,
            ApiError::NotFound { .. } => 404,
            ApiError::Conflict { .. } => 409,
            ApiError::UnsupportedMediaType => 415,
            ApiError::Forbidden => 403,
        }
    }

    /// The message of the answer.
    pub fn message(&self) -> (r: String)
        ensures
            r@ == (match self@ {
                ApiErrorView::BadRequest { message } => message,
                ApiErrorView::NotFound { message } => message,
                ApiErrorView::Conflict { message } => message,
                ApiErrorView::UnsupportedMediaType => "Content-Type must be application/json"@,
                ApiErrorView::Forbidden => "forbidden: non-local origin"@,
            }),
    {
        match self {
            ApiError::BadRequest { message } => message.clone(),
            ApiError::NotFound { message } => message.clone(),
            ApiError::Conflict { message } => message.clone(),
            ApiError::UnsupportedMediaType => "Content-Type must be application/json".to_owned(),
            ApiError::Forbidden => "forbidden: non-local origin".to_owned(),
        }
    }
}

// ---------------------------------------------------------------------
// Gates
// ---------------------------------------------------------------------

/// The name in a `Host` header: `name`, `name:port`, `[v6]` or `[v6]:port`.
pub open spec fn name_in_host(host: Seq<char>) -> Seq<char> {
    if host.len() > 0 && host[0] == '[' {
        match text::split_once(host.skip(1), "]"@) {
            Some((name, _)) => name,
            None => host,
        }
    } else {
        match text::rsplit_once(host, ":"@) {
            Some((name, port)) => if !text::has(name, ":"@) && port.len() > 0 && text::all_digits(port) {
                name
            } else {
                host
            },
            None => host,
        }
    }
}

pub fn host_name(host: &str) -> (r: String)
    ensures
        r@ == name_in_host(host@),
{
    let n: usize = host.unicode_len();
    if n > 0 && host.get_char(0) == '[' {
        let rest = text::skip_chars(host, 1);
        return match text::cut_once(&rest, "]") {
            Some((name, _)) => name,
            None => host.to_owned(),
        };
    }
    match text::rcut_once(host, ":") {
        Some((name, port)) => if !text::contains(&name, ":") && !port.as_str().is_empty()
            && text::only_digits(&port) {
            name
        } else {
            host.to_owned()
        },
        None => host.to_owned(),
    }
}

/// Whether a request comes for this machine: its host is a loopback name, or
/// it names none.
pub open spec fn is_local(host: Seq<char>) -> bool {
    ||| host.len() == 0
    ||| name_in_host(host) == "localhost"@
    ||| name_in_host(host) == "127.0.0.1"@
    ||| name_in_host(host) == "::1"@
}

/// Reject a request for another host: a page elsewhere can point its own name
/// at this machine.
pub fn require_localhost(host: &str) -> (r: Result<(), ApiError>)
    ensures
        match r {
            Ok(_) => is_local(host@),
            Err(e) => !is_local(host@) && e@ == ApiErrorView::Forbidden,
        },
{
    if host.is_empty() {
        return Ok(());
    }
    let name = host_name(host);
    if text::same(&name, "localhost") || text::same(&name, "127.0.0.1") || text::same(&name, "::1") {
        Ok(())
    } else {
        Err(ApiError::Forbidden)
    }
}

/// A write has to come as JSON.
pub fn post_gate(content_type: &str) -> (r: Result<(), ApiError>)
    ensures
        match r {
            Ok(_) => "application/json"@.is_prefix_of(content_type@),
            Err(e) => !"application/json"@.is_prefix_of(content_type@) && e@
                == ApiErrorView::UnsupportedMediaType,
        },
{
    if text::starts_with(content_type, "application/json") {
        Ok(())
    } else {
        Err(ApiError::UnsupportedMediaType)
    }
}

/// The object that a parsed body holds.
pub open spec fn object_in(parsed: Result<JsonView, Seq<char>>) -> Result<JsonView, ApiErrorView> {
    match parsed {
        Ok(v) => if v is Record { Ok(v) } else { Err(bad("body must be a JSON object"@)) },
        Err(_) => Err(bad("invalid JSON body"@)),
    }
}

pub open spec fn json_outcome(r: Result<Json, ApiError>) -> Result<JsonView, ApiErrorView> {
    match r {
        Ok(v) => Ok(v@),
        Err(e) => Err(e@),
    }
}

pub fn object_of(parsed: Result<Json, String>) -> (r: Result<Json, ApiError>)
    ensures
        json_outcome(r) == object_in(
            match parsed {
                Ok(v) => Ok(v@),
                Err(e) => Err(e@),
            },
        ),
{
    match parsed {
        Ok(v) => if v.is_record() {
            Ok(v)
        } else {
            Err(bad_request("body must be a JSON object"))
        },
        Err(_) => Err(bad_request("invalid JSON body")),
    }
}

/// The object in the body of a request.
pub fn parse_object(body: &Vec<u8>) -> (r: Result<Json, ApiError>)
    ensures
        json_outcome(r) == (if body@.len() == 0 {
            Err(bad("empty body"@))
        } else {
            object_in(json::json_of_bytes(body@))
        }),
{
    if body.len() == 0 {
        return Err(bad_request("empty body"));
    }
    object_of(json::parse_json_bytes(body))
}

/// The integer in a field of the body.
pub fn require_int(body: &Json, key: &str, message: &str) -> (r: Result<i64, ApiError>)
    ensures
        match r {
            Ok(n) => body@.int_field(key@) == Some(n),
            Err(e) => body@.int_field(key@) is None && e@ == bad(message@),
        },
{
    match body.get_int(key) {
        Some(n) => Ok(n),
        None => Err(bad_request(message)),
    }
}

/// Whether a value counts as set: not null, false, zero or empty.
pub open spec fn is_set(v: JsonView) -> bool {
    match v {
        JsonView::Null => false,
        JsonView::Bool(b) => b,
        JsonView::Number { whole, text } => whole != Some(0i64) && text != "0.0"@ && text != "-0.0"@,
        JsonView::Text { value, .. } => value.len() > 0,
        JsonView::List { items, .. } => items.len() > 0,
        JsonView::Record { names, .. } => names.len() > 0,
    }
}

pub fn truthy(v: &Json) -> (r: bool)
    ensures
        r == is_set(v@),
{
    match v {
        Json::Null => false,
        Json::Bool(b) => *b,
        Json::Number { whole, text } => {
            let zero: bool = match whole {
                Some(n) => *n == 0,
                None => false,
            };
            !zero && !text::same(text, "0.0") && !text::same(text, "-0.0")
        },
        Json::Text { value, .. } => !value.as_str().is_empty(),
        Json::List { items, .. } => {
            proof {
                json::lemma_json_views(items@);
            }
            items.len() > 0
        },
        Json::Record { names, .. } => names.len() > 0,
    }
}

// ---------------------------------------------------------------------
// Query parameters
// ---------------------------------------------------------------------

/// The value of a parameter; an empty one counts as absent.
pub open spec fn param_in(params: Seq<(String, String)>, key: Seq<char>) -> Option<Seq<char>>
    decreases params.len(),
{
    if params.len() == 0 {
        None
    } else if params.last().0@ == key {
        if params.last().1@.len() > 0 { Some(params.last().1@) } else { None }
    } else {
        param_in(params.drop_last(), key)
    }
}

pub fn param(params: &Vec<(String, String)>, key: &str) -> (r: Option<String>)
    ensures
        text::opt_text(r) == param_in(params@, key@),
{
    let mut i: usize = params.len();
    assert(params@.take(i as int) =~= params@);
    while i > 0
        invariant
            i <= params@.len(),
            param_in(params@, key@) == param_in(params@.take(i as int), key@),
        decreases i,
    {
        assert(params@.take(i as int).drop_last() =~= params@.take(i - 1));
        i = i - 1;
        if text::same(&params[i].0, key) {
            return if params[i].1.as_str().is_empty() {
                None
            } else {
                Some(params[i].1.clone())
            };
        }
    }
    None
}

/// How a repository is looked up.
#[derive(Debug, Clone)]
pub enum RepoKey {
    Id { id: i64 },
    Name { name: String },
    /// A number that no id can have.
    Nowhere,
}

pub enum RepoKeyView {
    Id { id: i64 },
    Name { name: Seq<char> },
    Nowhere,
}

impl View for RepoKey {
    type V = RepoKeyView;

    open spec fn view(&self) -> RepoKeyView {
        match *self {
            RepoKey::Id { id } => RepoKeyView::Id { id },
            RepoKey::Name { name } => RepoKeyView::Name { name: name@ },
            RepoKey::Nowhere => RepoKeyView::Nowhere,
        }
    }
}

/// Digits are an id, anything else a name.
pub open spec fn key_of(s: Seq<char>) -> RepoKeyView {
    if text::all_digits(s) {
        match text::parse_i64(s) {
            Some(n) => RepoKeyView::Id { id: n as i64 },
            None => RepoKeyView::Nowhere,
        }
    } else {
        RepoKeyView::Name { name: s }
    }
}

pub fn repo_key(s: &str) -> (r: RepoKey)
    ensures
        r@ == key_of(s@),
{
    if text::only_digits(s) {
        match text::read_i64(s) {
            Some(id) => RepoKey::Id { id },
            None => RepoKey::Nowhere,
        }
    } else {
        RepoKey::Name { name: s.to_owned() }
    }
}

/// What is answered to a request for findings.
#[derive(Debug, Clone)]
pub enum FindingsPlan {
    /// No finding can match.
    Empty,
    Refused { error: ApiError },
    List { filter: FindingFilter, unified: bool },
}

pub enum FindingsPlanView {
    Empty,
    Refused { error: ApiErrorView },
    List { filter: FindingFilter, unified: bool },
}

impl View for FindingsPlan {
    type V = FindingsPlanView;

    open spec fn view(&self) -> FindingsPlanView {
        match *self {
            FindingsPlan::Empty => FindingsPlanView::Empty,
            FindingsPlan::Refused { error } => FindingsPlanView::Refused { error: error@ },
            FindingsPlan::List { filter, unified } => FindingsPlanView::List { filter, unified },
        }
    }
}

/// Whether the findings of all types are asked for in one form.
pub open spec fn is_unified(params: Seq<(String, String)>) -> bool {
    match param_in(params, "unified"@) {
        Some(v) => v == "1"@,
        None => true,
    }
}

/// What is answered to a request for findings, where `repo` is what was found
/// under the repository that is asked for. A status or a type that does not
/// exist matches nothing.
pub open spec fn plan_findings(params: Seq<(String, String)>, repo: Option<i64>) -> FindingsPlanView {
    let status = param_in(params, "status"@);
    let key = param_in(params, "repo"@);
    let severity = param_in(params, "severity"@);
    let kind = param_in(params, "type"@);
    let unified = is_unified(params);
    if status matches Some(s) && FindingStatus::of_text(s) is None {
        FindingsPlanView::Empty
    } else if key is Some && repo is None {
        FindingsPlanView::Refused { error: bad("unknown repo "@ + key->0) }
    } else if severity matches Some(s) && Severity::of_text(s) is None {
        FindingsPlanView::Refused { error: bad("invalid severity "@ + severity->0) }
    } else if unified && (kind matches Some(k) && FindingType::of_text(k) is None) {
        FindingsPlanView::Empty
    } else {
        FindingsPlanView::List {
            filter: FindingFilter {
                status: match status {
                    Some(s) => FindingStatus::of_text(s),
                    None => None,
                },
                repo_id: if key is Some { repo } else { None },
                kind: match kind {
                    Some(k) => if unified { FindingType::of_text(k) } else { None },
                    None => None,
                },
                min_severity_rank: match severity {
                    Some(s) => Some(Severity::of_text(s)->0.level() as i64),
                    None => None,
                },
            },
            unified,
        }
    }
}

pub fn findings_plan(params: &Vec<(String, String)>, repo: Option<i64>) -> (r: FindingsPlan)
    ensures
        r@ == plan_findings(params@, repo),
{
    let unified: bool = match param(params, "unified") {
        Some(v) => text::same(&v, "1"),
        None => true,
    };
    let status: Option<FindingStatus> = match param(params, "status") {
        Some(s) => match FindingStatus::from_text(&s) {
            Some(x) => Some(x),
            None => {
                return FindingsPlan::Empty;
            },
        },
        None => None,
    };
    let repo_id: Option<i64> = match param(params, "repo") {
        Some(key) => match repo {
            Some(id) => Some(id),
            None => {
                let message = "unknown repo ".to_owned().concat(&key);
                return FindingsPlan::Refused { error: ApiError::BadRequest { message } };
            },
        },
        None => None,
    };
    let min_severity_rank: Option<i64> = match param(params, "severity") {
        Some(s) => match Severity::parse(&s) {
            Some(x) => Some(x.rank()),
            None => {
                let message = "invalid severity ".to_owned().concat(&s);
                return FindingsPlan::Refused { error: ApiError::BadRequest { message } };
            },
        },
        None => None,
    };
    let kind: Option<FindingType> = if unified {
        match param(params, "type") {
            Some(k) => match FindingType::from_str(&k) {
                Ok(x) => Some(x),
                Err(_) => {
                    return FindingsPlan::Empty;
                },
            },
            None => None,
        }
    } else {
        None
    };
    FindingsPlan::List {
        filter: FindingFilter { status, repo_id, kind, min_severity_rank },
        unified,
    }
}

/// The finding that is asked for. Without a usable id there is none.
pub open spec fn asked_finding(params: Seq<(String, String)>) -> Option<int> {
    match param_in(params, "id"@) {
        Some(v) => if text::all_digits(v) { text::parse_i64(v) } else { None },
        None => None,
    }
}

pub fn detail_id(params: &Vec<(String, String)>) -> (r: Result<i64, ApiError>)
    ensures
        match r {
            Ok(n) => asked_finding(params@) == Some(n as int),
            Err(e) => asked_finding(params@) is None && e@ == (ApiErrorView::NotFound {
                message: "no such finding"@,
            }),
        },
{
    if let Some(v) = param(params, "id") {
        if text::only_digits(&v) {
            if let Some(n) = text::read_i64(&v) {
                return Ok(n);
            }
        }
    }
    Err(ApiError::NotFound { message: "no such finding".to_owned() })
}

/// The answer where the finding that is asked for is not there.
pub fn no_such_finding() -> (r: ApiError)
    ensures
        r@ == (ApiErrorView::NotFound { message: "no such finding"@ }),
{
    ApiError::NotFound { message: "no such finding".to_owned() }
}

/// Whether a cycle can be asked for: not while one runs.
pub fn cycle_request(running: bool) -> (r: Result<(), ApiError>)
    ensures
        match r {
            Ok(_) => !running,
            Err(e) => running && e@ == (ApiErrorView::Conflict { message: "busy"@ }),
        },
{
    if running {
        Err(ApiError::Conflict { message: "busy".to_owned() })
    } else {
        Ok(())
    }
}

/// The repository whose notes are asked for, and the text that names it.
pub fn notes_key(params: &Vec<(String, String)>) -> (r: Result<(RepoKey, String), ApiError>)
    ensures
        match r {
            Ok((key, raw)) => param_in(params@, "id"@) == Some(raw@) && text::all_digits(raw@) && key@
                == key_of(raw@),
            Err(e) => !(param_in(params@, "id"@) matches Some(v) && text::all_digits(v)) && e@ == bad(
                "id query param must be an integer"@,
            ),
        },
{
    if let Some(v) = param(params, "id") {
        if text::only_digits(&v) {
            let key = repo_key(&v);
            return Ok((key, v));
        }
    }
    Err(bad_request("id query param must be an integer"))
}

/// There is no such repository.
pub fn no_repo(raw: &str) -> (r: ApiError)
    ensures
        r@ == (ApiErrorView::NotFound { message: "no repo "@ + raw@ }),
{
    ApiError::NotFound { message: "no repo ".to_owned().concat(raw) }
}

/// There is no such finding.
pub fn no_finding(id: i64) -> (r: ApiError)
    ensures
        r@ == (ApiErrorView::NotFound { message: "no finding "@ + text::int_text(id as int) }),
{
    ApiError::NotFound { message: "no finding ".to_owned().concat(text::int_to_text(id).as_str()) }
}

// ---------------------------------------------------------------------
// Files
// ---------------------------------------------------------------------

/// What a path asks for.
#[derive(Debug, Clone)]
pub enum FilePlan {
    NotFound,
    Index,
    /// A file below the directory of the user interface.
    Asset { content_type: String, relative: String },
}

pub enum FilePlanView {
    NotFound,
    Index,
    Asset { content_type: Seq<char>, relative: Seq<char> },
}

impl View for FilePlan {
    type V = FilePlanView;

    open spec fn view(&self) -> FilePlanView {
        match *self {
            FilePlan::NotFound => FilePlanView::NotFound,
            FilePlan::Index => FilePlanView::Index,
            FilePlan::Asset { content_type, relative } => FilePlanView::Asset {
                content_type: content_type@,
                relative: relative@,
            },
        }
    }
}

/// The type of a file that is served at all, by what follows its last dot.
pub open spec fn content_type(path: Seq<char>) -> Option<Seq<char>> {
    match text::rsplit_once(path, "."@) {
        Some((_, ext)) => if ext == "js"@ {
            Some("application/javascript; charset=utf-8"@)
        } else if ext == "css"@ {
            Some("text/css; charset=utf-8"@)
        } else if ext == "map"@ {
            Some("application/json"@)
        } else {
            None
        },
        None => None,
    }
}

pub open spec fn plan_file(path: Seq<char>) -> FilePlanView {
    if "/api/"@.is_prefix_of(path) {
        FilePlanView::NotFound
    } else if path == "/"@ || path == "/index.html"@ {
        FilePlanView::Index
    } else {
        match content_type(path) {
            Some(t) => FilePlanView::Asset {
                content_type: t,
                relative: text::trim_start(path, Cut::At('/')),
            },
            None => FilePlanView::NotFound,
        }
    }
}

pub fn static_file(path: &str) -> (r: FilePlan)
    ensures
        r@ == plan_file(path@),
{
    if text::starts_with(path, "/api/") {
        return FilePlan::NotFound;
    }
    if text::same(path, "/") || text::same(path, "/index.html") {
        return FilePlan::Index;
    }
    let kind: &str = match text::rcut_once(path, ".") {
        Some((_, ext)) => if text::same(&ext, "js") {
            "application/javascript; charset=utf-8"
        } else if text::same(&ext, "css") {
            "text/css; charset=utf-8"
        } else if text::same(&ext, "map") {
            "application/json"
        } else {
            return FilePlan::NotFound;
        },
        None => {
            return FilePlan::NotFound;
        },
    };
    FilePlan::Asset {
        content_type: kind.to_owned(),
        relative: text::trim_start_text(path, Cut::At('/')),
    }
}

/// Whether a resolved file may be served: it lies below the directory.
pub fn serves(resolved: &str, ui_dir: &str) -> (r: bool)
    ensures
        r == (util::path_under(resolved@, ui_dir@) && util::path_parts(resolved@) != util::path_parts(
            ui_dir@,
        )),
{
    if !util::path_starts_with(resolved, ui_dir) {
        return false;
    }
    let back: bool = util::path_starts_with(ui_dir, resolved);
    proof {
        let (a, b) = (util::path_parts(resolved@), util::path_parts(ui_dir@));
        if back {
            assert(a =~= b);
        }
    }
    !back
}

// ---------------------------------------------------------------------
// Verdicts
// ---------------------------------------------------------------------

/// A verdict on a finding.
#[derive(Debug, Clone)]
pub struct VerdictRequest {
    pub id: i64,
    pub status: FindingStatus,
    pub reason: Option<String>,
}

/// Whether a status is one that a verdict can give.
pub open spec fn can_judge(s: FindingStatus) -> bool {
    s is Queued || s is Rejected || s is Wontfix || s is Note || s is Merged
}

/// The reason in a body: blank counts as none, and what is set has to be a
/// text.
pub open spec fn reason_in(body: JsonView) -> Result<Option<Seq<char>>, ApiErrorView> {
    match body.field("reason"@) {
        None => Ok(None),
        Some(JsonView::Text { value, .. }) => {
            let s = text::trim(value, Cut::White);
            Ok(if s.len() > 0 { Some(s) } else { None })
        },
        Some(v) => if is_set(v) { Err(bad("reason must be a string"@)) } else { Ok(None) },
    }
}

pub struct VerdictRequestView {
    pub id: i64,
    pub status: FindingStatus,
    pub reason: Option<Seq<char>>,
}

impl View for VerdictRequest {
    type V = VerdictRequestView;

    open spec fn view(&self) -> VerdictRequestView {
        VerdictRequestView { id: self.id, status: self.status, reason: text::opt_text(self.reason) }
    }
}

/// The status that a body asks for, where a verdict can give it.
pub open spec fn status_in(body: JsonView) -> Option<FindingStatus> {
    match FindingStatus::of_text(body.text_field_or("status"@, ""@)) {
        Some(s) => if can_judge(s) { Some(s) } else { None },
        None => None,
    }
}

/// Whether a status has to come with a reason.
pub open spec fn needs_reason(s: FindingStatus) -> bool {
    s is Rejected || s is Wontfix
}

/// The verdict that a body asks for.
pub open spec fn asked_verdict(body: JsonView) -> Result<VerdictRequestView, ApiErrorView> {
    match body.int_field("id"@) {
        None => Err(bad("id must be an integer"@)),
        Some(id) => match status_in(body) {
            None => Err(
                bad("status must be one of ['queued', 'rejected', 'wontfix', 'note', 'merged']"@),
            ),
            Some(status) => match reason_in(body) {
                Err(e) => Err(e),
                Ok(reason) => if needs_reason(status) && reason is None {
                    Err(bad("reason required for status '"@ + status.text() + "'"@))
                } else {
                    Ok(VerdictRequestView { id, status, reason })
                },
            },
        },
    }
}

fn read_reason(body: &Json) -> (r: Result<Option<String>, ApiError>)
    ensures
        match r {
            Ok(s) => reason_in(body@) == Ok::<Option<Seq<char>>, ApiErrorView>(text::opt_text(s)),
            Err(e) => reason_in(body@) == Err::<Option<Seq<char>>, ApiErrorView>(e@),
        },
{
    match body.get("reason") {
        None => Ok(None),
        Some(v) => match v {
            Json::Text { value, .. } => {
                let s = text::trim_text(value, Cut::White);
                if s.as_str().is_empty() {
                    Ok(None)
                } else {
                    Ok(Some(s))
                }
            },
            _ => if truthy(v) {
                Err(bad_request("reason must be a string"))
            } else {
                Ok(None)
            },
        },
    }
}

pub fn verdict_request(body: &Json) -> (r: Result<VerdictRequest, ApiError>)
    ensures
        match r {
            Ok(v) => asked_verdict(body@) == Ok::<VerdictRequestView, ApiErrorView>(v@),
            Err(e) => asked_verdict(body@) == Err::<VerdictRequestView, ApiErrorView>(e@),
        },
{
    let id: i64 = match require_int(body, "id", "id must be an integer") {
        Ok(n) => n,
        Err(e) => {
            return Err(e);
        },
    };
    let named = FindingStatus::from_text(&body.get_str_or("status", ""));
    let status: FindingStatus = match named {
        Some(s) => if s.is_verdict() {
            s
        } else {
            return Err(
                bad_request(
                    "status must be one of ['queued', 'rejected', 'wontfix', 'note', 'merged']",
                ),
            );
        },
        None => {
            return Err(
                bad_request(
                    "status must be one of ['queued', 'rejected', 'wontfix', 'note', 'merged']",
                ),
            );
        },
    };
    let reason: Option<String> = match read_reason(body) {
        Ok(s) => s,
        Err(e) => {
            return Err(e);
        },
    };
    if status.reason_required() && reason.is_none() {
        let message = "reason required for status '".to_owned().concat(status.as_str()).concat("'");
        return Err(ApiError::BadRequest { message });
    }
    Ok(VerdictRequest { id, status, reason })
}

/// What a verdict writes on a finding.
pub open spec fn verdict_writes(v: VerdictRequestView, fingerprint: Seq<char>) -> Seq<EffectView> {
    let head = "finding "@ + text::int_text(v.id as int) + " ["@ + fingerprint + "] -> "@
        + v.status.text();
    seq![
        match v.reason {
            Some(reason) => EffectView::SetVerdict { finding: v.id, status: v.status, reason },
            None => EffectView::SetStatus { finding: v.id, status: v.status },
        },
        effects::log_view(
            "verdict"@,
            match v.reason {
                Some(reason) => head + ": "@ + reason,
                None => head,
            },
            None,
            Some(v.id),
        ),
    ]
}

pub fn verdict_effects(v: &VerdictRequest, fingerprint: &str) -> (r: Vec<Effect>)
    ensures
        effects::effects(r@) == verdict_writes(v@, fingerprint@),
{
    let head = "finding ".to_owned().concat(text::int_to_text(v.id).as_str()).concat(" [").concat(
        fingerprint,
    ).concat("] -> ").concat(v.status.as_str());
    let mut out = effects::no_effects();
    let message: String = match &v.reason {
        Some(reason) => {
            effects::add_effect(
                &mut out,
                Effect::SetVerdict { finding: v.id, status: v.status, reason: reason.clone() },
            );
            head.concat(": ").concat(reason)
        },
        None => {
            effects::add_effect(&mut out, Effect::SetStatus { finding: v.id, status: v.status });
            head
        },
    };
    effects::add_effect(&mut out, effects::log("verdict", message, None, Some(v.id)));
    assert(effects::effects(out@) =~= verdict_writes(v@, fingerprint@));
    out
}

/// A finding has to be in one status to be moved to the next.
pub open spec fn wrong_status(f: Finding, wanted: FindingStatus) -> ApiErrorView {
    bad(
        "finding #"@ + text::int_text(f.id as int) + " is '"@ + f.status.text() + "', not '"@
            + wanted.text() + "'"@,
    )
}

fn not_in_status(f: &Finding, wanted: FindingStatus) -> (r: ApiError)
    ensures
        r@ == wrong_status(*f, wanted),
{
    let message = "finding #".to_owned().concat(text::int_to_text(f.id).as_str()).concat(
        " is '",
    ).concat(f.status.as_str()).concat("', not '").concat(wanted.as_str()).concat("'");
    ApiError::BadRequest { message }
}

/// A new finding is looked at again.
pub fn recheck_effects(f: &Finding) -> (r: Result<Vec<Effect>, ApiError>)
    ensures
        match r {
            Ok(v) => f.status == FindingStatus::New && effects::effects(v@) == seq![
                EffectView::SetStatus { finding: f.id, status: FindingStatus::Rechecking },
                effects::log_view(
                    "recheck"@,
                    "#"@ + text::int_text(f.id as int) + " queued for recheck"@,
                    None,
                    Some(f.id),
                ),
            ],
            Err(e) => f.status != FindingStatus::New && e@ == wrong_status(*f, FindingStatus::New),
        },
{
    if f.status != FindingStatus::New {
        return Err(not_in_status(f, FindingStatus::New));
    }
    let message = "#".to_owned().concat(text::int_to_text(f.id).as_str()).concat(
        " queued for recheck",
    );
    let mut out = effects::no_effects();
    effects::add_effect(
        &mut out,
        Effect::SetStatus { finding: f.id, status: FindingStatus::Rechecking },
    );
    effects::add_effect(&mut out, effects::log("recheck", message, None, Some(f.id)));
    Ok(out)
}

/// A queued finding is taken out of the queue.
pub fn unqueue_effects(f: &Finding) -> (r: Result<Vec<Effect>, ApiError>)
    ensures
        match r {
            Ok(v) => f.status == FindingStatus::Queued && effects::effects(v@) == seq![
                EffectView::SetStatus { finding: f.id, status: FindingStatus::New },
                effects::log_view(
                    "unqueue"@,
                    "#"@ + text::int_text(f.id as int) + " removed from fix queue"@,
                    None,
                    Some(f.id),
                ),
            ],
            Err(e) => f.status != FindingStatus::Queued && e@ == wrong_status(
                *f,
                FindingStatus::Queued,
            ),
        },
{
    if f.status != FindingStatus::Queued {
        return Err(not_in_status(f, FindingStatus::Queued));
    }
    let message = "#".to_owned().concat(text::int_to_text(f.id).as_str()).concat(
        " removed from fix queue",
    );
    let mut out = effects::no_effects();
    effects::add_effect(&mut out, Effect::SetStatus { finding: f.id, status: FindingStatus::New });
    effects::add_effect(&mut out, effects::log("unqueue", message, None, Some(f.id)));
    Ok(out)
}

// ---------------------------------------------------------------------
// Overrides
// ---------------------------------------------------------------------

/// What is asked of the budget overrides.
#[derive(Debug, Clone)]
pub enum OverrideRequest {
    ClearAll,
    Change { id: i64, mode: Option<String> },
}

pub enum OverrideRequestView {
    ClearAll,
    Change { id: i64, mode: Option<Seq<char>> },
}

impl View for OverrideRequest {
    type V = OverrideRequestView;

    open spec fn view(&self) -> OverrideRequestView {
        match *self {
            OverrideRequest::ClearAll => OverrideRequestView::ClearAll,
            OverrideRequest::Change { id, mode } => OverrideRequestView::Change {
                id,
                mode: text::opt_text(mode),
            },
        }
    }
}

/// The mode in a body: once, exempt, or none.
pub open spec fn mode_in(body: JsonView) -> Option<Option<Seq<char>>> {
    match body.field("mode"@) {
        None => Some(None),
        Some(JsonView::Null) => Some(None),
        Some(JsonView::Text { value, .. }) => if value == "once"@ || value == "exempt"@ {
            Some(Some(value))
        } else {
            None
        },
        Some(_) => None,
    }
}

pub open spec fn mode_is_null(body: JsonView) -> bool {
    body.field("mode"@) is None || body.field("mode"@) == Some(JsonView::Null)
}

/// What a body asks of the budget overrides.
pub open spec fn asked_override(body: JsonView) -> Result<OverrideRequestView, ApiErrorView> {
    if body.text_field("id"@) == Some("all"@) && mode_is_null(body) {
        Ok(OverrideRequestView::ClearAll)
    } else {
        match body.int_field("id"@) {
            None => Err(bad("id must be an integer (or 'all' with mode=null)"@)),
            Some(id) => match mode_in(body) {
                Some(mode) => Ok(OverrideRequestView::Change { id, mode }),
                None => Err(bad("mode must be 'once', 'exempt', or null"@)),
            },
        }
    }
}

pub fn override_request(body: &Json) -> (r: Result<OverrideRequest, ApiError>)
    ensures
        match r {
            Ok(v) => asked_override(body@) == Ok::<OverrideRequestView, ApiErrorView>(v@),
            Err(e) => asked_override(body@) == Err::<OverrideRequestView, ApiErrorView>(e@),
        },
{
    let null: bool = match body.get("mode") {
        None => true,
        Some(Json::Null) => true,
        Some(_) => false,
    };
    if text::opt_is(&body.get_str("id"), "all") && null {
        return Ok(OverrideRequest::ClearAll);
    }
    let id: i64 = match require_int(body, "id", "id must be an integer (or 'all' with mode=null)") {
        Ok(n) => n,
        Err(e) => {
            return Err(e);
        },
    };
    match body.get("mode") {
        None => Ok(OverrideRequest::Change { id, mode: None }),
        Some(v) => match v {
            Json::Null => Ok(OverrideRequest::Change { id, mode: None }),
            Json::Text { value, .. } => if text::same(value, "once") || text::same(value, "exempt") {
                Ok(OverrideRequest::Change { id, mode: Some(value.clone()) })
            } else {
                Err(bad_request("mode must be 'once', 'exempt', or null"))
            },
            _ => Err(bad_request("mode must be 'once', 'exempt', or null")),
        },
    }
}

/// What the log says of a changed override.
pub fn override_note(id: i64, mode: &Option<String>) -> (r: String)
    ensures
        r@ == "#"@ + text::int_text(id as int) + " budget override: "@ + (match *mode {
            Some(m) => m@,
            None => "cleared"@,
        }),
{
    let label: &str = match mode {
        Some(m) => m.as_str(),
        None => "cleared",
    };
    "#".to_owned().concat(text::int_to_text(id).as_str()).concat(" budget override: ").concat(label)
}

/// What the log says where all overrides were cleared.
pub fn cleared_note(n: i64) -> (r: String)
    ensures
        r@ == "cleared all budget overrides ("@ + text::int_text(n as int) + " findings)"@,
{
    "cleared all budget overrides (".to_owned().concat(text::int_to_text(n).as_str()).concat(
        " findings)",
    )
}

// ---------------------------------------------------------------------
// Repositories
// ---------------------------------------------------------------------

/// A character of a scheme.
pub open spec fn scheme_char(c: char) -> bool {
    text::is_alnum(c) || c == '+' || c == '-' || c == '.'
}

pub open spec fn letter(c: char) -> bool {
    'a' <= c <= 'z' || 'A' <= c <= 'Z'
}

/// Whether a text has the form of a scheme.
pub open spec fn is_scheme(s: Seq<char>) -> bool {
    s.len() > 0 && letter(s[0]) && forall|i: int| 0 <= i < s.len() ==> scheme_char(#[trigger] s[i])
}

/// Whether an address may be stored: where it has a scheme, it is one that a
/// browser does not execute.
pub open spec fn url_allowed(url: Seq<char>) -> bool {
    match text::split_once(url, ":"@) {
        None => true,
        Some((scheme, _)) => is_scheme(scheme) ==> text::lower(scheme) == "http"@ || text::lower(scheme)
            == "https"@ || text::lower(scheme) == "ssh"@,
    }
}

fn looks_like_scheme(s: &str) -> (r: bool)
    ensures
        r == is_scheme(s@),
{
    let v = text::chars_of(s);
    if v.len() == 0 {
        return false;
    }
    let first: char = v[0];
    if !(('a' <= first && first <= 'z') || ('A' <= first && first <= 'Z')) {
        return false;
    }
    let mut i: usize = 0;
    while i < v.len()
        invariant
            v@ == s@,
            i <= v@.len(),
            forall|k: int| 0 <= k < i ==> scheme_char(#[trigger] s@[k]),
        decreases v@.len() - i,
    {
        let c: char = v[i];
        if !(text::alnum(c) || c == '+' || c == '-' || c == '.') {
            assert(!scheme_char(s@[i as int]));
            return false;
        }
        i = i + 1;
    }
    true
}

pub fn valid_repo_url(url: &str) -> (r: bool)
    ensures
        r == url_allowed(url@),
{
    match text::cut_once(url, ":") {
        None => true,
        Some((scheme, _)) => {
            if !looks_like_scheme(&scheme) {
                return true;
            }
            let s = text::to_lower(&scheme);
            text::same(&s, "http") || text::same(&s, "https") || text::same(&s, "ssh")
        },
    }
}

/// A character that a name may begin with.
pub open spec fn name_start(c: char) -> bool {
    text::is_alnum(c) || c == '_'
}

/// Whether a text is the name of a repository: letters, digits, underscores,
/// and after the first character also dots and hyphens.
pub open spec fn is_repo_name(s: Seq<char>) -> bool {
    s.len() > 0 && name_start(s[0]) && forall|i: int|
        1 <= i < s.len() ==> name_start(#[trigger] s[i]) || s[i] == '.' || s[i] == '-'
}

pub fn valid_repo_name(name: &str) -> (r: bool)
    ensures
        r == is_repo_name(name@),
{
    let v = text::chars_of(name);
    if v.len() == 0 {
        return false;
    }
    let first: char = v[0];
    if !(text::alnum(first) || first == '_') {
        return false;
    }
    let mut i: usize = 1;
    while i < v.len()
        invariant
            v@ == name@,
            1 <= i <= v@.len(),
            forall|k: int| 1 <= k < i ==> name_start(#[trigger] name@[k]) || name@[k] == '.' || name@[k] == '-',
        decreases v@.len() - i,
    {
        let c: char = v[i];
        if !(text::alnum(c) || c == '_' || c == '.' || c == '-') {
            assert(!(name_start(name@[i as int]) || name@[i as int] == '.' || name@[i as int] == '-'));
            return false;
        }
        i = i + 1;
    }
    true
}

/// A repository that is to be added.
#[derive(Debug, Clone)]
pub struct NewRepo {
    pub name: String,
    pub url: String,
    pub branch: String,
    pub forge: ForgeName,
}

pub struct NewRepoView {
    pub name: Seq<char>,
    pub url: Seq<char>,
    pub branch: Seq<char>,
    pub forge: ForgeName,
}

impl View for NewRepo {
    type V = NewRepoView;

    open spec fn view(&self) -> NewRepoView {
        NewRepoView { name: self.name@, url: self.url@, branch: self.branch@, forge: self.forge }
    }
}

/// The text of a field without the white space around it; empty where it is
/// no text.
pub open spec fn trimmed(body: JsonView, key: Seq<char>) -> Seq<char> {
    text::trim(body.text_field_or(key, ""@), Cut::White)
}

fn trimmed_field(body: &Json, key: &str) -> (r: String)
    ensures
        r@ == trimmed(body@, key@),
{
    text::trim_text(&body.get_str_or(key, ""), Cut::White)
}

/// The forge in a body; without one it is the one that the address tells.
pub open spec fn forge_in(body: JsonView, url: Seq<char>) -> Result<ForgeName, ApiErrorView> {
    match body.field("forge"@) {
        Some(v) => if is_set(v) {
            match v.as_text() {
                Some(f) => match ForgeName::of_text(f) {
                    Some(x) => Ok(x),
                    None => Err(
                        bad("unknown forge '"@ + f + "' (choose from github, gitlab)"@),
                    ),
                },
                None => Err(
                    bad("unknown forge '"@ + v.compact() + "' (choose from github, gitlab)"@),
                ),
            }
        } else {
            Ok(forge::forge_of(url))
        },
        None => Ok(forge::forge_of(url)),
    }
}

/// The repository that a body asks to add.
pub open spec fn asked_repo(body: JsonView) -> Result<NewRepoView, ApiErrorView> {
    let name = trimmed(body, "name"@);
    let url = trimmed(body, "url"@);
    let branch = trimmed(body, "branch"@);
    if !is_repo_name(name) {
        Err(bad("invalid repo name"@))
    } else if url.len() == 0 {
        Err(bad("name and url are required"@))
    } else if !url_allowed(url) {
        Err(bad("url must be http(s) or an ssh clone URL"@))
    } else {
        match forge_in(body, url) {
            Ok(forge) => Ok(
                NewRepoView { name, url, branch: if branch.len() > 0 { branch } else { "main"@ }, forge },
            ),
            Err(e) => Err(e),
        }
    }
}

fn unknown_forge(f: &str) -> (r: ApiError)
    ensures
        r@ == bad("unknown forge '"@ + f@ + "' (choose from github, gitlab)"@),
{
    ApiError::BadRequest {
        message: "unknown forge '".to_owned().concat(f).concat("' (choose from github, gitlab)"),
    }
}

fn read_forge(body: &Json, url: &str) -> (r: Result<ForgeName, ApiError>)
    ensures
        match r {
            Ok(x) => forge_in(body@, url@) == Ok::<ForgeName, ApiErrorView>(x),
            Err(e) => forge_in(body@, url@) == Err::<ForgeName, ApiErrorView>(e@),
        },
{
    match body.get("forge") {
        Some(v) => if truthy(v) {
            match v.string() {
                Some(f) => match ForgeName::from_str(f) {
                    Ok(x) => Ok(x),
                    Err(_) => Err(unknown_forge(f)),
                },
                None => Err(unknown_forge(&v.compact_text())),
            }
        } else {
            Ok(forge::detect_forge(url))
        },
        None => Ok(forge::detect_forge(url)),
    }
}

pub fn new_repo(body: &Json) -> (r: Result<NewRepo, ApiError>)
    ensures
        match r {
            Ok(v) => asked_repo(body@) == Ok::<NewRepoView, ApiErrorView>(v@),
            Err(e) => asked_repo(body@) == Err::<NewRepoView, ApiErrorView>(e@),
        },
{
    let name = trimmed_field(body, "name");
    if !valid_repo_name(&name) {
        return Err(bad_request("invalid repo name"));
    }
    let url = trimmed_field(body, "url");
    if url.as_str().is_empty() {
        return Err(bad_request("name and url are required"));
    }
    if !valid_repo_url(&url) {
        return Err(bad_request("url must be http(s) or an ssh clone URL"));
    }
    let given = trimmed_field(body, "branch");
    let branch: String = if given.as_str().is_empty() {
        "main".to_owned()
    } else {
        given
    };
    match read_forge(body, &url) {
        Ok(forge) => Ok(NewRepo { name, url, branch, forge }),
        Err(e) => Err(e),
    }
}

/// There is such a repository already.
pub fn repo_exists(name: &str) -> (r: ApiError)
    ensures
        r@ == (ApiErrorView::Conflict { message: "repo '"@ + name@ + "' already exists"@ }),
{
    ApiError::Conflict { message: "repo '".to_owned().concat(name).concat("' already exists") }
}

/// What the log says of an added repository.
pub fn added_note(r: &NewRepo, path: &str) -> (t: String)
    ensures
        t@ == "added "@ + r.name@ + " ("@ + r.forge.text() + ") -> "@ + path@,
{
    "added ".to_owned().concat(&r.name).concat(" (").concat(r.forge.as_str()).concat(") -> ").concat(
        path,
    )
}

/// What the log says of a deleted repository.
pub fn deleted_note(name: &str, id: i64) -> (t: String)
    ensures
        t@ == "deleted "@ + name@ + " (#"@ + text::int_text(id as int) + ")"@,
{
    "deleted ".to_owned().concat(name).concat(" (#").concat(text::int_to_text(id).as_str()).concat(
        ")",
    )
}

/// What is changed of a repository, and how the log puts it.
#[derive(Debug, Clone)]
pub struct RepoChange {
    pub fields: RepoUpdate,
    pub action: Vec<String>,
}

pub open spec fn enabled_in(body: JsonView) -> Option<i64> {
    match body.field("enabled"@) {
        Some(v) => Some(if is_set(v) { 1i64 } else { 0 }),
        None => None,
    }
}

/// A text that is set to something, without the white space around it.
pub open spec fn given(body: JsonView, key: Seq<char>) -> Option<Seq<char>> {
    if trimmed(body, key).len() > 0 { Some(trimmed(body, key)) } else { None }
}

pub open spec fn change(name: Seq<char>, value: Option<Seq<char>>) -> Seq<Seq<char>> {
    match value {
        Some(v) => seq![name + "="@ + v],
        None => Seq::empty(),
    }
}

pub open spec fn forge_given(body: JsonView) -> Option<ForgeName> {
    match body.text_field("forge"@) {
        Some(f) => ForgeName::of_text(text::trim(f, Cut::White)),
        None => None,
    }
}

/// How the log puts what a body changes.
pub open spec fn actions(body: JsonView) -> Seq<Seq<char>> {
    change(
        "enabled"@,
        match enabled_in(body) {
            Some(n) => Some(text::int_text(n as int)),
            None => None,
        },
    ) + change("url"@, given(body, "url"@)) + change(
        "default_branch"@,
        given(body, "default_branch"@),
    ) + change(
        "forge"@,
        match forge_given(body) {
            Some(f) => Some(f.text()),
            None => None,
        },
    )
}

/// Whether a change is the one that a body asks for: what cannot be used is
/// left out.
pub open spec fn is_asked_change(body: JsonView, c: RepoChange) -> bool {
    &&& c.fields.enabled == enabled_in(body)
    &&& text::opt_text(c.fields.url) == given(body, "url"@)
    &&& text::opt_text(c.fields.default_branch) == given(body, "default_branch"@)
    &&& c.fields.forge == forge_given(body)
    &&& c.fields.name is None
    &&& text::texts(c.action@) == actions(body)
}

/// Why a body changes nothing of a repository.
pub open spec fn change_refused(body: JsonView) -> Option<ApiErrorView> {
    if given(body, "url"@) matches Some(u) && !url_allowed(u) {
        Some(bad("url must be http(s) or an ssh clone URL"@))
    } else if actions(body).len() == 0 {
        Some(bad("no valid fields to update"@))
    } else {
        None
    }
}

fn given_field(body: &Json, key: &str) -> (r: Option<String>)
    ensures
        text::opt_text(r) == given(body@, key@),
{
    let s = trimmed_field(body, key);
    if s.as_str().is_empty() {
        None
    } else {
        Some(s)
    }
}

fn add_change(v: &mut Vec<String>, name: &str, value: &Option<String>)
    ensures
        text::texts(final(v)@) == text::texts(old(v)@) + change(name@, text::opt_text(*value)),
{
    if let Some(s) = value {
        let c = name.to_owned().concat("=").concat(s);
        text::add_text(v, &c);
    }
    assert(text::texts(v@) =~= text::texts(old(v)@) + change(name@, text::opt_text(*value)));
}

/// What a body changes of a repository.
pub fn repo_change(body: &Json) -> (r: Result<RepoChange, ApiError>)
    ensures
        match r {
            Ok(c) => change_refused(body@) is None && is_asked_change(body@, c),
            Err(e) => change_refused(body@) == Some(e@),
        },
{
    let enabled: Option<i64> = match body.get("enabled") {
        Some(v) => Some(
            if truthy(v) {
                1
            } else {
                0
            },
        ),
        None => None,
    };
    let url = given_field(body, "url");
    if let Some(u) = &url {
        if !valid_repo_url(u) {
            return Err(bad_request("url must be http(s) or an ssh clone URL"));
        }
    }
    let default_branch = given_field(body, "default_branch");
    let forge: Option<ForgeName> = match body.get_str("forge") {
        Some(f) => match ForgeName::from_str(&text::trim_text(&f, Cut::White)) {
            Ok(x) => Some(x),
            Err(_) => None,
        },
        None => None,
    };
    let on: Option<String> = match enabled {
        Some(n) => Some(text::int_to_text(n)),
        None => None,
    };
    let shown: Option<String> = match forge {
        Some(f) => Some(f.as_str().to_owned()),
        None => None,
    };
    let mut action = text::no_texts();
    add_change(&mut action, "enabled", &on);
    add_change(&mut action, "url", &url);
    add_change(&mut action, "default_branch", &default_branch);
    add_change(&mut action, "forge", &shown);
    assert(text::texts(action@) =~= actions(body@));
    if action.len() == 0 {
        return Err(bad_request("no valid fields to update"));
    }
    Ok(
        RepoChange {
            fields: RepoUpdate { enabled, url, default_branch, forge, name: None },
            action,
        },
    )
}

/// What the log says of a changed repository.
pub fn updated_note(name: &str, action: &Vec<String>) -> (r: String)
    ensures
        r@ == "updated "@ + name@ + ": "@ + text::join(text::texts(action@), ", "@),
{
    "updated ".to_owned().concat(name).concat(": ").concat(text::join_texts(action, ", ").as_str())
}

// ---------------------------------------------------------------------
// Notes
// ---------------------------------------------------------------------

/// A note on a repository.
#[derive(Debug, Clone)]
pub struct NoteRequest {
    pub id: i64,
    pub note: String,
    pub category: Option<String>,
}

pub struct NoteRequestView {
    pub id: i64,
    pub note: Seq<char>,
    pub category: Option<Seq<char>>,
}

impl View for NoteRequest {
    type V = NoteRequestView;

    open spec fn view(&self) -> NoteRequestView {
        NoteRequestView { id: self.id, note: self.note@, category: text::opt_text(self.category) }
    }
}

/// The note that a body asks to add.
pub open spec fn asked_note(body: JsonView) -> Result<NoteRequestView, ApiErrorView> {
    match body.int_field("id"@) {
        None => Err(bad("id must be an integer"@)),
        Some(id) => match given(body, "note"@) {
            None => Err(bad("note must be a non-empty string"@)),
            Some(note) => match body.field("category"@) {
                None => Ok(NoteRequestView { id, note, category: None }),
                Some(JsonView::Null) => Ok(NoteRequestView { id, note, category: None }),
                Some(JsonView::Text { .. }) => Ok(
                    NoteRequestView { id, note, category: given(body, "category"@) },
                ),
                Some(_) => Err(bad("category must be a string"@)),
            },
        },
    }
}

pub fn note_request(body: &Json) -> (r: Result<NoteRequest, ApiError>)
    ensures
        match r {
            Ok(v) => asked_note(body@) == Ok::<NoteRequestView, ApiErrorView>(v@),
            Err(e) => asked_note(body@) == Err::<NoteRequestView, ApiErrorView>(e@),
        },
{
    let id: i64 = match require_int(body, "id", "id must be an integer") {
        Ok(n) => n,
        Err(e) => {
            return Err(e);
        },
    };
    let note: String = match given_field(body, "note") {
        Some(s) => s,
        None => {
            return Err(bad_request("note must be a non-empty string"));
        },
    };
    let category: Option<String> = match body.get("category") {
        None => None,
        Some(v) => match v {
            Json::Null => None,
            Json::Text { .. } => given_field(body, "category"),
            _ => {
                return Err(bad_request("category must be a string"));
            },
        },
    };
    Ok(NoteRequest { id, note, category })
}

/// What the log says of an added note.
pub fn noted(repo: &str, category: &Option<String>) -> (r: String)
    ensures
        r@ == "note added to "@ + repo@ + (match *category {
            Some(c) => " ["@ + c@ + "]"@,
            None => ""@,
        }),
{
    let mark: String = match category {
        Some(c) => " [".to_owned().concat(c).concat("]"),
        None => "".to_owned(),
    };
    "note added to ".to_owned().concat(repo).concat(&mark)
}

// ---------------------------------------------------------------------
// The summary
// ---------------------------------------------------------------------

/// What the scheduler is doing.
#[derive(Debug, Clone, Copy, PartialEq, Eq, Structural)]
pub enum Activity {
    Running,
    Working,
    Error,
    Paused,
    Ready,
    Idle,
    WarmingUp,
}

/// What the scheduler is doing: a job, a cycle before its job, an error, the
/// next candidate held back or ready, nothing, or not yet anything.
pub open spec fn activity(
    job: bool,
    cycle: bool,
    state: Option<SchedulerState>,
    next: Option<BudgetState>,
) -> Activity {
    if job {
        Activity::Running
    } else if cycle {
        Activity::Working
    } else if state matches Some(s) && s.state@ == "error"@ {
        Activity::Error
    } else {
        match next {
            Some(BudgetState::Denied) => Activity::Paused,
            Some(BudgetState::Allowed) => Activity::Ready,
            None => if state is Some { Activity::Idle } else { Activity::WarmingUp },
        }
    }
}

pub fn activity_status(
    job: bool,
    cycle: bool,
    state: &Option<SchedulerState>,
    next: Option<BudgetState>,
) -> (r: Activity)
    ensures
        r == activity(job, cycle, *state, next),
{
    if job {
        return Activity::Running;
    }
    if cycle {
        return Activity::Working;
    }
    if let Some(s) = state {
        if text::same(&s.state, "error") {
            return Activity::Error;
        }
    }
    match next {
        Some(BudgetState::Denied) => Activity::Paused,
        Some(BudgetState::Allowed) => Activity::Ready,
        None => match state {
            Some(_) => Activity::Idle,
            None => Activity::WarmingUp,
        },
    }
}

/// What the summary says of the budget for the next candidate.
pub open spec fn budget_of(v: VerdictView) -> (BudgetState, Seq<char>, Option<i64>) {
    match v {
        VerdictView::Denied { reason, retry_at } => (BudgetState::Denied, reason, retry_at),
        VerdictView::Granted { reason, .. } => (BudgetState::Allowed, reason, None),
    }
}

pub fn candidate_budget(v: &Verdict) -> (r: (BudgetState, String, Option<i64>))
    ensures
        (r.0, r.1@, r.2) == budget_of(v@),
{
    match v {
        Verdict::Denied { reason, retry_at } => (BudgetState::Denied, reason.clone(), *retry_at),
        Verdict::Granted { reason, .. } => (BudgetState::Allowed, reason.clone(), None),
    }
}

// ---------------------------------------------------------------------
// Laws
// ---------------------------------------------------------------------

/// A request that names a host is let in under a loopback name only.
pub proof fn law_other_hosts_are_refused(host: Seq<char>)
    requires
        host.len() > 0,
        is_local(host),
    ensures
        name_in_host(host) == "localhost"@ || name_in_host(host) == "127.0.0.1"@ || name_in_host(host)
            == "::1"@,
{
}

/// No stored address begins with a scheme that runs when it is clicked.
pub proof fn law_executable_addresses_are_refused(url: Seq<char>, scheme: Seq<char>)
    requires
        is_scheme(scheme),
        text::lower(scheme) != "http"@,
        text::lower(scheme) != "https"@,
        text::lower(scheme) != "ssh"@,
        (scheme + ":"@).is_prefix_of(url),
    ensures
        !url_allowed(url),
{
    reveal_strlit(":");
    assert(":"@ =~= seq![':']);
    let rest = url.skip(scheme.len() as int + 1);
    assert(url =~= scheme + seq![':'] + rest);
    assert(!text::holds_char(scheme, ':')) by {
        if text::holds_char(scheme, ':') {
            let i = choose|i: int| 0 <= i < scheme.len() && scheme[i] == ':';
            assert(scheme_char(scheme[i]));
        }
    }
    text::lemma_split_once_at(scheme, ':', rest);
}

/// The name of a repository leaves no directory: it holds no slash, and is
/// neither of the dots.
pub proof fn law_repo_names_hold_no_slash(name: Seq<char>)
    requires
        is_repo_name(name),
    ensures
        !text::holds_char(name, '/'),
        name != "."@,
        name != ".."@,
{
    reveal_strlit(".");
    reveal_strlit("..");
    if text::holds_char(name, '/') {
        let i = choose|i: int| 0 <= i < name.len() && name[i] == '/';
        assert(!name_start(name[i]));
    }
}

/// A rejection comes with its reason.
pub proof fn law_rejections_have_reasons(body: JsonView)
    ensures
        asked_verdict(body) matches Ok(v) ==> (v.status is Rejected || v.status is Wontfix ==> v.reason is Some),
{
}

/// A filter never becomes no filter: what is listed is filtered by every
/// status, repository and severity that is asked for, and by the type where
/// all types come in one form. A status that does not exist lists nothing.
pub proof fn law_unknown_filters_match_nothing(params: Seq<(String, String)>, repo: Option<i64>)
    ensures
        plan_findings(params, repo) matches FindingsPlanView::List { filter, unified } ==> {
            &&& filter.status is Some <==> param_in(params, "status"@) is Some
            &&& filter.repo_id is Some <==> param_in(params, "repo"@) is Some
            &&& filter.min_severity_rank is Some <==> param_in(params, "severity"@) is Some
            &&& filter.kind is Some <==> unified && param_in(params, "type"@) is Some
        },
        (param_in(params, "status"@) matches Some(s) && FindingStatus::of_text(s) is None)
            ==> plan_findings(params, repo) is Empty,
{
}

/// Only scripts, style sheets and their maps are served as files, and nothing
/// under the interface's own paths.
pub proof fn law_served_files_are_of_known_types(path: Seq<char>)
    requires
        plan_file(path) is Asset,
    ensures
        !"/api/"@.is_prefix_of(path),
        content_type(path) is Some,
{
}

/// A verdict sets the finding that it names to the status that it gives, with
/// its reason where there is one, and touches no other finding.
pub proof fn law_verdict_sets_its_finding(
    v: VerdictRequestView,
    fingerprint: Seq<char>,
    id: i64,
    was: FindingStatus,
)
    ensures
        effects::status_after(verdict_writes(v, fingerprint), id, was) == (if id == v.id { v.status } else { was }),
        effects::reason_after(verdict_writes(v, fingerprint), v.id) == v.reason,
        forall|i: int|
            0 <= i < verdict_writes(v, fingerprint).len() ==> effects::finding_of(
                #[trigger] verdict_writes(v, fingerprint)[i],
            ) == Some(v.id),
{
    let w = verdict_writes(v, fingerprint);
    effects::lemma_short_lists(w, id, was);
    effects::lemma_first_reason(w, v.id);
}

/// A verdict is what its body says: the finding of its id, the status of its
/// word, and the reason without white space around it. Five statuses can be
/// given; what is under way cannot be set by hand.
pub proof fn law_verdict_is_what_the_body_says(body: JsonView)
    ensures
        asked_verdict(body) matches Ok(v) ==> {
            &&& body.int_field("id"@) == Some(v.id)
            &&& body.text_field("status"@) == Some(v.status.text())
            &&& v.status == FindingStatus::Queued || v.status == FindingStatus::Rejected || v.status
                == FindingStatus::Wontfix || v.status == FindingStatus::Note || v.status == FindingStatus::Merged
            &&& v.reason matches Some(s) ==> (body.text_field("reason"@) matches Some(raw) && s == text::trim(
                raw,
                Cut::White,
            ) && s.len() > 0)
        },
        body.int_field("id"@) is None ==> asked_verdict(body) is Err,
        body.text_field("status"@) matches Some(s) ==> s == "new"@ || s == "fixing"@ || s == "pr_open"@ || s
            == "rechecking"@ ==> asked_verdict(body) is Err,
{
    reveal_strlit("");
    reveal_strlit("new");
    reveal_strlit("rechecking");
    reveal_strlit("queued");
    reveal_strlit("fixing");
    reveal_strlit("pr_open");
    reveal_strlit("merged");
    reveal_strlit("rejected");
    reveal_strlit("wontfix");
    reveal_strlit("note");
    assert("new"@.len() == 3);
    assert("rechecking"@.len() == 10);
    assert("queued"@.len() == 6 && "queued"@[0] == 'q');
    assert("fixing"@.len() == 6 && "fixing"@[0] == 'f');
    assert("pr_open"@.len() == 7 && "pr_open"@[0] == 'p');
    assert("merged"@.len() == 6 && "merged"@[0] == 'm');
    assert("rejected"@.len() == 8);
    assert("wontfix"@.len() == 7 && "wontfix"@[0] == 'w');
    assert("note"@.len() == 4);
}

/// An override is set to once or exempt, or cleared, for the finding of the
/// body's id; only the word for all together with no mode clears every one.
pub proof fn law_override_is_what_the_body_says(body: JsonView)
    ensures
        asked_override(body) matches Ok(OverrideRequestView::Change { id, mode }) ==> {
            &&& body.int_field("id"@) == Some(id)
            &&& mode matches Some(m) ==> body.text_field("mode"@) == Some(m) && (m == "once"@ || m == "exempt"@)
            &&& mode is None ==> body.field("mode"@) is None || body.field("mode"@) == Some(JsonView::Null)
        },
        asked_override(body) matches Ok(OverrideRequestView::ClearAll) ==> body.text_field("id"@) == Some("all"@)
            && (body.field("mode"@) is None || body.field("mode"@) == Some(JsonView::Null)),
{
}

/// A repository is added under the name, address and branch of its body; the
/// branch is main where none is given, and the forge the one that is named, or
/// the one that the address tells.
pub proof fn law_repo_is_added_as_asked(body: JsonView)
    ensures
        asked_repo(body) matches Ok(r) ==> {
            &&& r.name == text::trim(body.text_field_or("name"@, ""@), Cut::White) && is_repo_name(r.name)
            &&& r.url == text::trim(body.text_field_or("url"@, ""@), Cut::White) && r.url.len() > 0 && url_allowed(
                r.url,
            )
            &&& body.field("branch"@) is None ==> r.branch == "main"@
            &&& text::trim(body.text_field_or("branch"@, ""@), Cut::White).len() > 0 ==> r.branch == text::trim(
                body.text_field_or("branch"@, ""@),
                Cut::White,
            )
            &&& body.field("forge"@) is None ==> r.forge == forge::forge_of(r.url)
            &&& body.field("forge"@) matches Some(JsonView::Text { value, .. }) ==> value.len() > 0 ==> value
                == r.forge.text()
        },
{
    reveal_strlit("");
    reveal_strlit("main");
    reveal_strlit("github");
    reveal_strlit("gitlab");
    assert(text::trim(""@, Cut::White).len() == 0) by {
        reveal_with_fuel(text::trim_end, 2);
        reveal_with_fuel(text::trim_start, 2);
    }
}

/// What a body does not name of a repository is not changed, and what it does
/// is changed to what it says: a repository takes part in the rotation, or
/// does not, by whether the value counts as set.
pub proof fn law_repo_is_changed_as_asked(body: JsonView, c: RepoChange)
    requires
        is_asked_change(body, c),
    ensures
        body.field("enabled"@) is None ==> c.fields.enabled is None,
        body.field("enabled"@) matches Some(JsonView::Bool(b)) ==> c.fields.enabled == Some(
            if b { 1i64 } else { 0 },
        ),
        body.field("url"@) is None ==> c.fields.url is None,
        body.field("default_branch"@) is None ==> c.fields.default_branch is None,
        body.field("forge"@) is None ==> c.fields.forge is None,
        c.fields.name is None,
        c.fields.url matches Some(s) ==> (body.text_field("url"@) matches Some(raw) && s@ == text::trim(
            raw,
            Cut::White,
        )),
        c.fields.default_branch matches Some(s) ==> (body.text_field("default_branch"@) matches Some(raw) && s@
            == text::trim(raw, Cut::White)),
{
    reveal_strlit("");
    assert(text::trim(""@, Cut::White).len() == 0) by {
        reveal_with_fuel(text::trim_end, 2);
        reveal_with_fuel(text::trim_start, 2);
    }
}

/// A note is added to the repository of the body's id, with its text and
/// category.
pub proof fn law_note_is_what_the_body_says(body: JsonView)
    ensures
        asked_note(body) matches Ok(n) ==> {
            &&& body.int_field("id"@) == Some(n.id)
            &&& n.note.len() > 0 && n.note == text::trim(body.text_field_or("note"@, ""@), Cut::White)
            &&& n.category matches Some(c) ==> c == text::trim(body.text_field_or("category"@, ""@), Cut::White)
            &&& body.field("category"@) is None ==> n.category is None
        },
{
}

/// Of several values of a parameter the last counts; an empty one counts as
/// none.
pub proof fn law_last_parameter_counts(params: Seq<(String, String)>, name: String, value: String, key: Seq<char>)
    ensures
        name@ == key && value@.len() > 0 ==> param_in(params.push((name, value)), key) == Some(value@),
        name@ == key && value@.len() == 0 ==> param_in(params.push((name, value)), key) is None,
        name@ != key ==> param_in(params.push((name, value)), key) == param_in(params, key),
        param_in(Seq::empty(), key) is None,
{
    assert(params.push((name, value)).drop_last() =~= params);
}

/// A text of digits looks a repository up by its id, any other by its name.
pub proof fn law_repo_is_looked_up_by_id_or_name(s: Seq<char>, id: i64)
    requires
        id >= 0,
    ensures
        key_of(text::int_text(id as int)) == (RepoKeyView::Id { id }),
        (exists|i: int| 0 <= i < s.len() && !text::is_digit(#[trigger] s[i])) ==> key_of(s) == (
        RepoKeyView::Name { name: s }),
{
    text::lemma_int_text_chars(id);
    text::law_decimal_round_trip(id);
    let t = text::int_text(id as int);
    assert(text::all_digits(t)) by {
        lemma_digits(id as nat);
    }
}

proof fn lemma_digits(n: nat)
    ensures
        text::all_digits(text::nat_text(n)),
    decreases n,
{
    if n >= 10 {
        let most = text::nat_text(n / 10);
        lemma_digits(n / 10);
        assert forall|k: int| 0 <= k < text::nat_text(n).len() implies text::is_digit(
            #[trigger] text::nat_text(n)[k],
        ) by {
            if k < most.len() {
                assert(text::nat_text(n)[k] == most[k]);
            }
        }
    }
}

/// Findings are listed by what was asked for: the status and the type of the
/// named words, the repository that was found, and the named severity or
/// worse.
pub proof fn law_findings_are_listed_as_asked(params: Seq<(String, String)>, repo: Option<i64>)
    ensures
        plan_findings(params, repo) matches FindingsPlanView::List { filter, unified } ==> {
            &&& filter.status matches Some(s) ==> param_in(params, "status"@) == Some(s.text())
            &&& filter.kind matches Some(k) ==> param_in(params, "type"@) == Some(k.text())
            &&& filter.repo_id is Some ==> filter.repo_id == repo
            &&& filter.min_severity_rank matches Some(n) ==> (param_in(params, "severity"@) matches Some(s) && (
            text::lower(s) == "low"@ && n == 1 || text::lower(s) == "medium"@ && n == 2 || text::lower(s) == "high"@
                && n == 3))
            &&& unified <==> param_in(params, "unified"@) is None || param_in(params, "unified"@) == Some("1"@)
        },
        param_in(params, "repo"@) is Some && repo is None ==> !(plan_findings(params, repo) is List),
{
}

/// A page is served as what its ending says: scripts, style sheets and maps,
/// by the path without the slashes before it.
pub proof fn law_pages_are_served_by_their_ending(stem: Seq<char>)
    requires
        !"/api/"@.is_prefix_of(stem + "."@ + "js"@),
        !"/api/"@.is_prefix_of(stem + "."@ + "css"@),
    ensures
        plan_file(stem + "."@ + "js"@) matches FilePlanView::Asset { content_type, .. } && content_type
            == "application/javascript; charset=utf-8"@,
        plan_file(stem + "."@ + "css"@) matches FilePlanView::Asset { content_type, .. } && content_type
            == "text/css; charset=utf-8"@,
{
    reveal_strlit(".");
    reveal_strlit("js");
    reveal_strlit("css");
    reveal_strlit("map");
    reveal_strlit("/");
    reveal_strlit("/index.html");
    assert("."@ =~= seq!['.']);
    assert("js"@.len() == 2 && "js"@[0] == 'j' && "js"@[1] == 's');
    assert("css"@.len() == 3 && "css"@[0] == 'c' && "css"@[1] == 's' && "css"@[2] == 's');
    assert("map"@.len() == 3 && "map"@[0] == 'm');
    text::lemma_rsplit_once_at(stem, '.', "js"@);
    text::lemma_rsplit_once_at(stem, '.', "css"@);
    let a = stem + "."@ + "js"@;
    let b = stem + "."@ + "css"@;
    assert(a.last() == 's' && b.last() == 's');
    assert("/"@.last() == '/' && "/index.html"@.last() == 'l');
}

/// The name of a host is what stands before its port, and what stands between
/// the brackets of an address of the sixth version.
pub proof fn law_host_is_named_without_its_port(name: Seq<char>, port: Seq<char>)
    requires
        name.len() > 0,
        name[0] != '[',
        !text::holds_char(name, ':'),
        text::all_digits(port),
    ensures
        name_in_host(name + ":"@ + port) == name,
        name_in_host(name) == name,
{
    reveal_strlit(":");
    assert(":"@ =~= seq![':']);
    assert(!text::holds_char(port, ':')) by {
        if text::holds_char(port, ':') {
            let i = choose|i: int| 0 <= i < port.len() && port[i] == ':';
            assert(text::is_digit(port[i]));
        }
    }
    text::lemma_rsplit_once_at(name, ':', port);
    text::lemma_split_once_none(name, ':');
    assert((name + ":"@ + port)[0] == name[0]);
}

/// What the scheduler is shown to be doing: a job that runs before all else,
/// then a cycle, then an error, then what the budget says of the next
/// candidate.
pub proof fn law_shown_activity_is_the_foremost(
    job: bool,
    cycle: bool,
    state: Option<SchedulerState>,
    next: Option<BudgetState>,
)
    ensures
        ({
            let failed = state matches Some(s) && s.state@ == "error"@;
            let quiet = !job && !cycle && !failed;
            &&& activity(job, cycle, state, next) == Activity::Running <==> job
            &&& activity(job, cycle, state, next) == Activity::Working <==> !job && cycle
            &&& activity(job, cycle, state, next) == Activity::Error <==> !job && !cycle && failed
            &&& activity(job, cycle, state, next) == Activity::Paused <==> quiet && next == Some(
                BudgetState::Denied,
            )
            &&& activity(job, cycle, state, next) == Activity::Ready <==> quiet && next == Some(
                BudgetState::Allowed,
            )
            &&& activity(job, cycle, state, next) == Activity::Idle <==> quiet && next is None && state is Some
            &&& activity(job, cycle, state, next) == Activity::WarmingUp <==> quiet && next is None && state is None
        }),
{
}

/// The budget is shown as denied exactly where the verdict denies, with its
/// reason and the time at which to ask again.
pub proof fn law_shown_budget_is_the_verdict(v: VerdictView)
    ensures
        budget_of(v).0 == BudgetState::Denied <==> v is Denied,
        v matches VerdictView::Denied { reason, retry_at } ==> budget_of(v).1 == reason && budget_of(v).2
            == retry_at,
        v matches VerdictView::Granted { reason, .. } ==> budget_of(v).1 == reason && budget_of(v).2 is None,
{
}

} // verus!
