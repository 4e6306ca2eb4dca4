//! Updates of dependencies, read from the log of a scanner.

use vstd::prelude::*;
use crate::json;
use crate::json::{Json, JsonView};
use crate::text;

verus! {

/// One update that could be made.
#[derive(Debug, Clone)]
pub struct DepCandidate {
    pub fingerprint: String,
    pub file: String,
    pub ecosystem: String,
    pub package: String,
    pub current_version: String,
    pub latest_version: String,
    pub update_type: String,
    pub severity: String,
    /// In hundredths.
    pub confidence_pct: i64,
    pub summary: String,
    pub detail: String,
}

pub struct DepCandidateView {
    pub fingerprint: Seq<char>,
    pub file: Seq<char>,
    pub ecosystem: Seq<char>,
    pub package: Seq<char>,
    pub current_version: Seq<char>,
    pub latest_version: Seq<char>,
    pub update_type: Seq<char>,
    pub severity: Seq<char>,
    pub confidence_pct: i64,
    pub summary: Seq<char>,
    pub detail: Seq<char>,
}

impl View for DepCandidate {
    type V = DepCandidateView;

    open spec fn view(&self) -> DepCandidateView {
        DepCandidateView {
            fingerprint: self.fingerprint@,
            file: self.file@,
            ecosystem: self.ecosystem@,
            package: self.package@,
            current_version: self.current_version@,
            latest_version: self.latest_version@,
            update_type: self.update_type@,
            severity: self.severity@,
            confidence_pct: self.confidence_pct,
            summary: self.summary@,
            detail: self.detail@,
        }
    }
}

pub open spec fn candidates(v: Seq<DepCandidate>) -> Seq<DepCandidateView> {
    v.map_values(|c: DepCandidate| c@)
}

/// The command of the scanner.
pub fn scan_args() -> (r: Vec<String>)
    ensures
        text::texts(r@) == seq!["npx"@, "renovate"@, "--platform=local"@, "--dry-run=lookup"@],
{
    let mut v = text::no_texts();
    text::add_text(&mut v, "npx");
    text::add_text(&mut v, "renovate");
    text::add_text(&mut v, "--platform=local");
    text::add_text(&mut v, "--dry-run=lookup");
    v
}

// ---------------------------------------------------------------------
// One update
// ---------------------------------------------------------------------

/// The types of update that are mere housekeeping count as patches.
pub open spec fn normal_type(t: Seq<char>) -> Seq<char> {
    if t == "pin"@ || t == "pinDigest"@ || t == "digest"@ || t == "lockFileMaintenance"@ || t
        == "lockfileUpdate"@ {
        "patch"@
    } else {
        t
    }
}

pub fn normalize_update_type(ut: &str) -> (r: &str)
    ensures
        r@ == normal_type(ut@),
{
    if text::same(ut, "pin") || text::same(ut, "pinDigest") || text::same(ut, "digest") || text::same(
        ut,
        "lockFileMaintenance",
    ) || text::same(ut, "lockfileUpdate") {
        "patch"
    } else {
        ut
    }
}

/// The text of the first of two fields that is there.
pub open spec fn either(v: JsonView, a: Seq<char>, b: Seq<char>) -> Option<Seq<char>> {
    if v.field(a) is Some { v.text_field(a) } else { v.text_field(b) }
}

fn either_field(v: &Json, a: &str, b: &str) -> (r: Option<String>)
    ensures
        text::opt_text(r) == either(v@, a@, b@),
{
    match v.get(a) {
        Some(_) => v.get_str(a),
        None => v.get_str(b),
    }
}

pub open spec fn or_mark(o: Option<Seq<char>>) -> Seq<char> {
    match o {
        Some(s) => s,
        None => "?"@,
    }
}

/// How serious an update is: by its type, and a known weakness makes any
/// serious.
pub open spec fn severity_of(update_type: Seq<char>, alert: bool) -> Seq<char> {
    if update_type == "major"@ {
        "high"@
    } else if update_type == "minor"@ {
        "medium"@
    } else if alert {
        "high"@
    } else {
        "low"@
    }
}

/// How sure it is that an update goes well.
pub open spec fn confidence_of(update_type: Seq<char>) -> i64 {
    if update_type == "patch"@ {
        95
    } else if update_type == "minor"@ {
        85
    } else {
        70
    }
}

/// A version without the signs of a range before it.
pub open spec fn bare_version(v: Seq<char>) -> Seq<char>
    decreases v.len(),
{
    if v.len() > 0 && (v[0] == '^' || v[0] == '~' || v[0] == '>' || v[0] == '=' || v[0] == '<') {
        bare_version(v.skip(1))
    } else {
        v
    }
}

fn bare(v: &str) -> (r: String)
    ensures
        r@ == bare_version(v@),
{
    let c = text::chars_of(v);
    let mut i: usize = 0;
    assert(v@.skip(0) =~= v@);
    while i < c.len() && (c[i] == '^' || c[i] == '~' || c[i] == '>' || c[i] == '=' || c[i] == '<')
        invariant
            c@ == v@,
            i <= c@.len(),
            bare_version(v@) == bare_version(v@.skip(i as int)),
        decreases c@.len() - i,
    {
        assert(v@.skip(i as int).skip(1) =~= v@.skip(i + 1));
        i = i + 1;
    }
    text::skip_chars(v, i)
}

pub open spec fn is_alert(u: JsonView) -> bool {
    u.field("isVulnerabilityAlert"@) == Some(JsonView::Bool(true))
}

fn alerts(u: &Json) -> (r: bool)
    ensures
        r == is_alert(u@),
{
    match u.get("isVulnerabilityAlert") {
        Some(v) => match v {
            Json::Bool(b) => *b,
            _ => false,
        },
        None => false,
    }
}

/// What is known of a dependency.
pub struct Dep {
    pub repo: String,
    pub manager: String,
    pub file: String,
    pub name: String,
    pub current: String,
    pub source: String,
}

pub struct DepView {
    pub repo: Seq<char>,
    pub manager: Seq<char>,
    pub file: Seq<char>,
    pub name: Seq<char>,
    pub current: Seq<char>,
    pub source: Seq<char>,
}

impl View for Dep {
    type V = DepView;

    open spec fn view(&self) -> DepView {
        DepView {
            repo: self.repo@,
            manager: self.manager@,
            file: self.file@,
            name: self.name@,
            current: self.current@,
            source: self.source@,
        }
    }
}

/// The candidate of one update of a dependency.
pub open spec fn candidate(d: DepView, u: JsonView) -> DepCandidateView {
    let new = or_mark(either(u, "newVersion"@, "newValue"@));
    let kind = normal_type(u.text_field_or("updateType"@, "unknown"@));
    DepCandidateView {
        fingerprint: d.repo + ":"@ + d.source + ":"@ + d.name + ":"@ + d.current + "\u{2192}"@ + new,
        file: d.file,
        ecosystem: d.source,
        package: d.name,
        current_version: bare_version(d.current),
        latest_version: new,
        update_type: kind,
        severity: severity_of(kind, is_alert(u)),
        confidence_pct: confidence_of(kind),
        summary: d.name + ": "@ + kind + " update "@ + d.current + " \u{2192} "@ + new,
        detail: d.name + " ("@ + d.source + "/"@ + d.manager + ")\nCurrent: "@ + d.current
            + "\nAvailable: "@ + new + "\nType: "@ + kind,
    }
}

fn build(d: &Dep, u: &Json) -> (r: DepCandidate)
    ensures
        r@ == candidate(d@, u@),
{
    let new: String = match either_field(u, "newVersion", "newValue") {
        Some(s) => s,
        None => "?".to_owned(),
    };
    let raw = u.get_str_or("updateType", "unknown");
    let kind: String = normalize_update_type(&raw).to_owned();
    let severity: &str = if text::same(&kind, "major") {
        "high"
    } else if text::same(&kind, "minor") {
        "medium"
    } else if alerts(u) {
        "high"
    } else {
        "low"
    };
    let confidence_pct: i64 = if text::same(&kind, "patch") {
        95
    } else if text::same(&kind, "minor") {
        85
    } else {
        70
    };
    DepCandidate {
        fingerprint: d.repo.clone().concat(":").concat(&d.source).concat(":").concat(&d.name).concat(
            ":",
        ).concat(&d.current).concat("\u{2192}").concat(&new),
        file: d.file.clone(),
        ecosystem: d.source.clone(),
        package: d.name.clone(),
        current_version: bare(&d.current),
        latest_version: new.clone(),
        update_type: kind.clone(),
        severity: severity.to_owned(),
        confidence_pct,
        summary: d.name.clone().concat(": ").concat(&kind).concat(" update ").concat(
            &d.current,
        ).concat(" \u{2192} ").concat(&new),
        detail: d.name.clone().concat(" (").concat(&d.source).concat("/").concat(&d.manager).concat(
            ")\nCurrent: ",
        ).concat(&d.current).concat("\nAvailable: ").concat(&new).concat("\nType: ").concat(&kind),
    }
}

// ---------------------------------------------------------------------
// The log
// ---------------------------------------------------------------------

/// The updates of a dependency in a list.
pub open spec fn of_updates(d: DepView, v: Seq<JsonView>) -> Seq<DepCandidateView> {
    v.map_values(|u: JsonView| candidate(d, u))
}

pub open spec fn dep_view(repo: Seq<char>, manager: Seq<char>, file: Seq<char>, name: Seq<char>, dep: JsonView) -> DepView {
    DepView {
        repo,
        manager,
        file,
        name,
        current: or_mark(either(dep, "currentValue"@, "currentVersion"@)),
        source: dep.text_field_or("datasource"@, manager),
    }
}

/// The updates of a dependency: one without a name has none.
pub open spec fn of_dep(repo: Seq<char>, manager: Seq<char>, file: Seq<char>, dep: JsonView) -> Seq<
    DepCandidateView,
> {
    match (either(dep, "depName"@, "packageName"@), dep.field("updates"@)) {
        (Some(name), Some(JsonView::List { items, .. })) => of_updates(
            dep_view(repo, manager, file, name, dep),
            items,
        ),
        _ => Seq::empty(),
    }
}

pub open spec fn of_deps(repo: Seq<char>, manager: Seq<char>, file: Seq<char>, v: Seq<JsonView>) -> Seq<
    DepCandidateView,
>
    decreases v.len(),
{
    if v.len() == 0 {
        Seq::empty()
    } else {
        of_deps(repo, manager, file, v.drop_last()) + of_dep(repo, manager, file, v.last())
    }
}

/// The updates in a package file.
pub open spec fn of_file(repo: Seq<char>, manager: Seq<char>, pf: JsonView) -> Seq<DepCandidateView> {
    match pf.field("deps"@) {
        Some(JsonView::List { items, .. }) => of_deps(
            repo,
            manager,
            pf.text_field_or("packageFile"@, ""@),
            items,
        ),
        _ => Seq::empty(),
    }
}

pub open spec fn of_files(repo: Seq<char>, manager: Seq<char>, v: Seq<JsonView>) -> Seq<DepCandidateView>
    decreases v.len(),
{
    if v.len() == 0 {
        Seq::empty()
    } else {
        of_files(repo, manager, v.drop_last()) + of_file(repo, manager, v.last())
    }
}

/// The updates of a package manager.
pub open spec fn of_manager(repo: Seq<char>, manager: Seq<char>, files: JsonView) -> Seq<DepCandidateView> {
    match files {
        JsonView::List { items, .. } => of_files(repo, manager, items),
        _ => Seq::empty(),
    }
}

pub open spec fn of_managers(repo: Seq<char>, names: Seq<Seq<char>>, values: Seq<JsonView>, n: int) -> Seq<
    DepCandidateView,
>
    decreases n,
{
    if n <= 0 || n > names.len() || n > values.len() {
        Seq::empty()
    } else {
        of_managers(repo, names, values, n - 1) + of_manager(repo, names[n - 1], values[n - 1])
    }
}

/// The updates in one record of the log: those of each manager in its
/// configuration.
pub open spec fn of_record(repo: Seq<char>, doc: JsonView) -> Seq<DepCandidateView> {
    match doc.field("config"@) {
        Some(JsonView::Record { names, values, .. }) => of_managers(
            repo,
            names,
            values,
            if names.len() < values.len() { names.len() as int } else { values.len() as int },
        ),
        _ => Seq::empty(),
    }
}

/// The updates in the lines of the log; a line that is no record has none.
pub open spec fn of_lines(repo: Seq<char>, lines: Seq<Seq<char>>) -> Seq<DepCandidateView>
    decreases lines.len(),
{
    if lines.len() == 0 {
        Seq::empty()
    } else {
        of_lines(repo, lines.drop_last()) + match json::json_of(lines.last()) {
            Ok(doc) => of_record(repo, doc),
            Err(_) => Seq::empty(),
        }
    }
}

/// Whether a fingerprint occurs.
pub open spec fn holds(v: Seq<DepCandidateView>, fingerprint: Seq<char>) -> bool {
    exists|i: int| 0 <= i < v.len() && (#[trigger] v[i]).fingerprint == fingerprint
}

/// Each update once, as it first occurs.
pub open spec fn once(v: Seq<DepCandidateView>) -> Seq<DepCandidateView>
    decreases v.len(),
{
    if v.len() == 0 {
        Seq::empty()
    } else {
        let before = once(v.drop_last());
        if holds(before, v.last().fingerprint) { before } else { before.push(v.last()) }
    }
}

fn push_candidate(out: &mut Vec<DepCandidate>, c: DepCandidate)
    ensures
        candidates(final(out)@) == candidates(old(out)@).push(c@),
{
    out.push(c);
    assert(candidates(out@) =~= candidates(old(out)@).push(c@));
}

fn read_dep(out: &mut Vec<DepCandidate>, repo: &str, manager: &str, file: &str, dep: &Json)
    ensures
        candidates(final(out)@) == candidates(old(out)@) + of_dep(repo@, manager@, file@, dep@),
{
    let ghost first = candidates(out@);
    assert(first + Seq::<DepCandidateView>::empty() =~= first);
    let name: String = match either_field(dep, "depName", "packageName") {
        Some(s) => s,
        None => {
            return;
        },
    };
    let updates = match dep.get("updates") {
        Some(u) => u,
        None => {
            return;
        },
    };
    if let Json::List { items, .. } = updates {
        let current: String = match either_field(dep, "currentValue", "currentVersion") {
            Some(s) => s,
            None => "?".to_owned(),
        };
        let d = Dep {
            repo: repo.to_owned(),
            manager: manager.to_owned(),
            file: file.to_owned(),
            name,
            current,
            source: dep.get_str_or("datasource", manager),
        };
        let ghost views = json::json_views(items@);
        proof {
            json::lemma_json_views(items@);
        }
        let mut i: usize = 0;
        assert(first + of_updates(d@, views.take(0)) =~= first);
        while i < items.len()
            invariant
                i <= items@.len(),
                views == json::json_views(items@),
                views.len() == items@.len(),
                forall|k: int| 0 <= k < items@.len() ==> #[trigger] views[k] == items@[k]@,
                candidates(out@) == first + of_updates(d@, views.take(i as int)),
            decreases items@.len() - i,
        {
            assert(views[i as int] == items@[i as int]@);
            push_candidate(out, build(&d, &items[i]));
            assert(candidates(out@) =~= first + of_updates(d@, views.take(i + 1)));
            i = i + 1;
        }
        assert(views.take(views.len() as int) =~= views);
    }
}

fn read_file(out: &mut Vec<DepCandidate>, repo: &str, manager: &str, pf: &Json)
    ensures
        candidates(final(out)@) == candidates(old(out)@) + of_file(repo@, manager@, pf@),
{
    let ghost first = candidates(out@);
    assert(first + Seq::<DepCandidateView>::empty() =~= first);
    let deps = match pf.get("deps") {
        Some(d) => d,
        None => {
            return;
        },
    };
    if let Json::List { items, .. } = deps {
        let file = pf.get_str_or("packageFile", "");
        let ghost views = json::json_views(items@);
        proof {
            json::lemma_json_views(items@);
        }
        let mut i: usize = 0;
        assert(first + of_deps(repo@, manager@, file@, views.take(0)) =~= first);
        while i < items.len()
            invariant
                i <= items@.len(),
                views == json::json_views(items@),
                views.len() == items@.len(),
                forall|k: int| 0 <= k < items@.len() ==> #[trigger] views[k] == items@[k]@,
                candidates(out@) == first + of_deps(repo@, manager@, file@, views.take(i as int)),
            decreases items@.len() - i,
        {
            assert(views[i as int] == items@[i as int]@);
            proof {
                assert(views.take(i + 1).drop_last() =~= views.take(i as int));
            }
            read_dep(out, repo, manager, &file, &items[i]);
            assert(candidates(out@) =~= first + of_deps(repo@, manager@, file@, views.take(i + 1)));
            i = i + 1;
        }
        assert(views.take(views.len() as int) =~= views);
    }
}

fn read_manager(out: &mut Vec<DepCandidate>, repo: &str, manager: &str, files: &Json)
    ensures
        candidates(final(out)@) == candidates(old(out)@) + of_manager(repo@, manager@, files@),
{
    let ghost first = candidates(out@);
    assert(first + Seq::<DepCandidateView>::empty() =~= first);
    if let Json::List { items, .. } = files {
        let ghost views = json::json_views(items@);
        proof {
            json::lemma_json_views(items@);
        }
        let mut i: usize = 0;
        assert(first + of_files(repo@, manager@, views.take(0)) =~= first);
        while i < items.len()
            invariant
                i <= items@.len(),
                views == json::json_views(items@),
                views.len() == items@.len(),
                forall|k: int| 0 <= k < items@.len() ==> #[trigger] views[k] == items@[k]@,
                candidates(out@) == first + of_files(repo@, manager@, views.take(i as int)),
            decreases items@.len() - i,
        {
            assert(views[i as int] == items@[i as int]@);
            proof {
                assert(views.take(i + 1).drop_last() =~= views.take(i as int));
            }
            read_file(out, repo, manager, &items[i]);
            assert(candidates(out@) =~= first + of_files(repo@, manager@, views.take(i + 1)));
            i = i + 1;
        }
        assert(views.take(views.len() as int) =~= views);
    }
}

/// Add the updates in one record of the log.
fn read_record(out: &mut Vec<DepCandidate>, repo: &str, doc: &Json)
    ensures
        candidates(final(out)@) == candidates(old(out)@) + of_record(repo@, doc@),
{
    let ghost first = candidates(out@);
    assert(first + Seq::<DepCandidateView>::empty() =~= first);
    let config = match doc.get("config") {
        Some(c) => c,
        None => {
            return;
        },
    };
    if let Json::Record { names, values, .. } = config {
        let ghost ns = text::texts(names@);
        let ghost vs = json::json_views(values@);
        proof {
            json::lemma_json_views(values@);
        }
        let mut i: usize = 0;
        assert(first + of_managers(repo@, ns, vs, 0) =~= first);
        while i < names.len() && i < values.len()
            invariant
                i <= names@.len(),
                i <= values@.len(),
                ns == text::texts(names@),
                vs == json::json_views(values@),
                vs.len() == values@.len(),
                forall|k: int| 0 <= k < values@.len() ==> #[trigger] vs[k] == values@[k]@,
                candidates(out@) == first + of_managers(repo@, ns, vs, i as int),
            decreases names@.len() - i,
        {
            assert(ns[i as int] == names@[i as int]@);
            assert(vs[i as int] == values@[i as int]@);
            read_manager(out, repo, &names[i], &values[i]);
            assert(candidates(out@) =~= first + of_managers(repo@, ns, vs, i + 1));
            i = i + 1;
        }
    }
}

fn is_new(v: &Vec<DepCandidate>, fingerprint: &str) -> (r: bool)
    ensures
        r == !holds(candidates(v@), fingerprint@),
{
    let ghost all = candidates(v@);
    let mut i: usize = 0;
    while i < v.len()
        invariant
            i <= v@.len(),
            all == candidates(v@),
            forall|k: int| 0 <= k < i ==> (#[trigger] all[k]).fingerprint != fingerprint@,
        decreases v@.len() - i,
    {
        assert(all[i as int] == v@[i as int]@);
        if text::same(&v[i].fingerprint, fingerprint) {
            return false;
        }
        i = i + 1;
    }
    true
}

/// The updates in one parsed record of the log.
pub fn parse_record(doc: &Json, repo_name: &str) -> (r: Vec<DepCandidate>)
    ensures
        candidates(r@) == of_record(repo_name@, doc@),
{
    let mut out: Vec<DepCandidate> = Vec::new();
    assert(candidates(out@) =~= Seq::<DepCandidateView>::empty());
    read_record(&mut out, repo_name, doc);
    assert(candidates(out@) =~= of_record(repo_name@, doc@));
    out
}

/// Each update once, as it first occurs.
pub fn first_of_each(found: Vec<DepCandidate>) -> (r: Vec<DepCandidate>)
    ensures
        candidates(r@) == once(candidates(found@)),
{
    let ghost all = candidates(found@);
    let mut left = found;
    let mut out: Vec<DepCandidate> = Vec::new();
    let n: usize = left.len();
    let mut i: usize = 0;
    assert(candidates(out@) =~= once(all.take(0)));
    while i < n
        invariant
            i <= n,
            n == all.len(),
            candidates(left@) == all.skip(i as int),
            candidates(out@) == once(all.take(i as int)),
        decreases n - i,
    {
        let ghost rest = candidates(left@);
        proof {
            assert(rest.len() == left@.len());
            assert(rest[0] == left@[0]@);
            assert(rest[0] == all[i as int]);
            assert(all.take(i + 1).drop_last() =~= all.take(i as int));
        }
        let c = left.remove(0);
        assert(candidates(left@) =~= all.skip(i + 1)) by {
            assert(rest.skip(1) =~= all.skip(i + 1));
            assert(candidates(left@) =~= rest.skip(1));
        }
        if is_new(&out, &c.fingerprint) {
            push_candidate(&mut out, c);
        }
        i = i + 1;
    }
    assert(all.take(all.len() as int) =~= all);
    out
}

/// The updates in the output of the scanner, each once.
pub fn parse_renovate_output(output: &str, repo_name: &str) -> (r: Vec<DepCandidate>)
    ensures
        candidates(r@) == once(of_lines(repo_name@, text::lines(output@))),
{
    let lines = text::lines_of(output);
    let ghost all = text::texts(lines@);
    let mut found: Vec<DepCandidate> = Vec::new();
    let mut i: usize = 0;
    assert(candidates(found@) =~= of_lines(repo_name@, all.take(0)));
    while i < lines.len()
        invariant
            i <= lines@.len(),
            all == text::texts(lines@),
            candidates(found@) == of_lines(repo_name@, all.take(i as int)),
        decreases lines@.len() - i,
    {
        let ghost before = candidates(found@);
        proof {
            assert(all.take(i + 1).drop_last() =~= all.take(i as int));
            assert(all.take(i + 1).last() == lines@[i as int]@);
            assert(before + Seq::<DepCandidateView>::empty() =~= before);
        }
        if let Ok(doc) = json::parse_json(&lines[i]) {
            read_record(&mut found, repo_name, &doc);
        }
        i = i + 1;
    }
    assert(all.take(all.len() as int) =~= all);
    first_of_each(found)
}

// ---------------------------------------------------------------------
// Laws
// ---------------------------------------------------------------------

/// No update is listed twice.
pub proof fn law_updates_are_listed_once(v: Seq<DepCandidateView>)
    ensures
        forall|i: int, j: int|
            0 <= i < j < once(v).len() ==> (#[trigger] once(v)[i]).fingerprint != (#[trigger] once(v)[j]).fingerprint,
    decreases v.len(),
{
    if v.len() > 0 {
        law_updates_are_listed_once(v.drop_last());
        let before = once(v.drop_last());
        assert forall|i: int, j: int| 0 <= i < j < once(v).len() implies (#[trigger] once(v)[i]).fingerprint
            != (#[trigger] once(v)[j]).fingerprint by {
            if j < before.len() {
                assert(before[i].fingerprint != before[j].fingerprint);
            } else {
                assert(before[i] == once(v)[i]);
            }
        }
    }
}

/// No update is lost: each has one with its fingerprint in the list.
pub proof fn law_no_update_is_lost(v: Seq<DepCandidateView>, i: int)
    requires
        0 <= i < v.len(),
    ensures
        holds(once(v), v[i].fingerprint),
    decreases v.len(),
{
    let before = once(v.drop_last());
    if i < v.len() - 1 {
        law_no_update_is_lost(v.drop_last(), i);
        let k = choose|k: int| 0 <= k < before.len() && (#[trigger] before[k]).fingerprint == v[i].fingerprint;
        assert(once(v)[k] == before[k]);
    } else if !holds(before, v[i].fingerprint) {
        assert(once(v)[before.len() as int] == v[i]);
    }
}

/// Updates of one type are graded alike, whatever the scanner calls them.
pub proof fn law_housekeeping_counts_as_patch(t: Seq<char>)
    requires
        normal_type(t) == "patch"@,
    ensures
        confidence_of(normal_type(t)) == 95,
        severity_of(normal_type(t), false) == "low"@,
{
    reveal_strlit("patch");
    reveal_strlit("major");
    reveal_strlit("minor");
    assert("patch"@[0] != "major"@[0]);
    assert("patch"@[0] != "minor"@[0]);
}

/// A version keeps its end; only signs of a range are taken off its front.
proof fn lemma_bare_version(v: Seq<char>)
    ensures
        bare_version(v).is_suffix_of(v),
        bare_version(v).len() > 0 ==> !seq!['^', '~', '>', '=', '<'].contains(bare_version(v)[0]),
        v.len() > 0 && !seq!['^', '~', '>', '=', '<'].contains(v[0]) ==> bare_version(v) == v,
    decreases v.len(),
{
    let signs = seq!['^', '~', '>', '=', '<'];
    assert(signs[0] == '^' && signs[1] == '~' && signs[2] == '>' && signs[3] == '=' && signs[4] == '<');
    let b = bare_version(v);
    if v.len() > 0 && (v[0] == '^' || v[0] == '~' || v[0] == '>' || v[0] == '=' || v[0] == '<') {
        lemma_bare_version(v.skip(1));
        assert(b =~= v.skip(1).subrange(v.len() - 1 - b.len(), v.len() - 1));
        assert(v.subrange(v.len() - b.len(), v.len() as int) =~= b);
    } else {
        assert(v.subrange(0, v.len() as int) =~= v);
    }
}

/// An update is filed under its own dependency: its file, source and name,
/// the version that is in use, without the signs of a range, and the version
/// that the scanner offers.
pub proof fn law_update_is_filed_under_its_dependency(d: DepView, u: JsonView)
    ensures
        ({
            let c = candidate(d, u);
            &&& c.file == d.file
            &&& c.package == d.name
            &&& c.ecosystem == d.source
            &&& c.current_version.is_suffix_of(d.current)
            &&& c.current_version.len() > 0 ==> !seq!['^', '~', '>', '=', '<'].contains(c.current_version[0])
            &&& d.current.len() > 0 && !seq!['^', '~', '>', '=', '<'].contains(d.current[0]) ==> c.current_version
                == d.current
            &&& u.field("newVersion"@) matches Some(JsonView::Text { value, .. }) ==> c.latest_version == value
            &&& u.field("newVersion"@) is None ==> (u.field("newValue"@) matches Some(JsonView::Text { value, .. })
                ==> c.latest_version == value)
            &&& c.fingerprint == d.repo + ":"@ + d.source + ":"@ + d.name + ":"@ + d.current + "\u{2192}"@
                + c.latest_version
        }),
{
    lemma_bare_version(d.current);
}

/// How an update is graded. A major one is serious and least sure, a minor
/// one is of medium severity; any other is of low severity, unless it mends a
/// known weakness. A patch is the surest.
pub proof fn law_updates_are_graded_by_type(d: DepView, u: JsonView)
    ensures
        ({
            let c = candidate(d, u);
            let alert = u.field("isVulnerabilityAlert"@) == Some(JsonView::Bool(true));
            &&& c.update_type == "major"@ ==> c.severity == "high"@ && c.confidence_pct == 70
            &&& c.update_type == "minor"@ ==> c.severity == "medium"@ && c.confidence_pct == 85
            &&& c.update_type == "patch"@ ==> c.severity == (if alert { "high"@ } else { "low"@ })
                && c.confidence_pct == 95
            &&& u.field("updateType"@) matches Some(JsonView::Text { value, .. }) ==> {
                &&& value == "pin"@ || value == "pinDigest"@ || value == "digest"@ || value
                    == "lockFileMaintenance"@ || value == "lockfileUpdate"@ ==> c.update_type == "patch"@
                &&& value == "major"@ || value == "minor"@ || value == "patch"@ ==> c.update_type == value
            }
        }),
{
    reveal_strlit("patch");
    reveal_strlit("major");
    reveal_strlit("minor");
    reveal_strlit("pin");
    reveal_strlit("pinDigest");
    reveal_strlit("digest");
    reveal_strlit("lockFileMaintenance");
    reveal_strlit("lockfileUpdate");
    assert("patch"@.len() == 5 && "patch"@[0] == 'p');
    assert("major"@.len() == 5 && "major"@[0] == 'm' && "major"@[1] == 'a');
    assert("minor"@.len() == 5 && "minor"@[0] == 'm' && "minor"@[1] == 'i');
    assert("pin"@.len() == 3);
    assert("pinDigest"@.len() == 9);
    assert("digest"@.len() == 6);
    assert("lockFileMaintenance"@.len() == 19);
    assert("lockfileUpdate"@.len() == 14);
}

/// What is known of a dependency is read by name: the value in use before the
/// version, and the source, or the manager where there is none.
pub proof fn law_dependency_is_read_by_name(
    repo: Seq<char>,
    manager: Seq<char>,
    file: Seq<char>,
    name: Seq<char>,
    dep: JsonView,
)
    ensures
        ({
            let d = dep_view(repo, manager, file, name, dep);
            &&& d.repo == repo && d.manager == manager && d.file == file && d.name == name
            &&& dep.field("currentValue"@) matches Some(JsonView::Text { value, .. }) ==> d.current == value
            &&& dep.field("currentValue"@) is None ==> (dep.field("currentVersion"@) matches Some(
                JsonView::Text { value, .. },
            ) ==> d.current == value)
            &&& dep.field("datasource"@) matches Some(JsonView::Text { value, .. }) ==> d.source == value
            &&& dep.field("datasource"@) is None ==> d.source == manager
        }),
{
}

/// A dependency with a name has one candidate for each of its updates, in
/// their order; one without a name has none.
pub proof fn law_every_update_is_a_candidate(
    repo: Seq<char>,
    manager: Seq<char>,
    file: Seq<char>,
    dep: JsonView,
    items: Seq<JsonView>,
    shown: Seq<char>,
    i: int,
)
    requires
        dep.field("updates"@) == Some(JsonView::List { items, text: shown }),
        0 <= i < items.len(),
    ensures
        dep.field("depName"@) matches Some(JsonView::Text { value, .. }) ==> {
            &&& of_dep(repo, manager, file, dep).len() == items.len()
            &&& of_dep(repo, manager, file, dep)[i] == candidate(
                dep_view(repo, manager, file, value, dep),
                items[i],
            )
        },
        dep.field("depName"@) is None && dep.field("packageName"@) is None ==> of_dep(
            repo,
            manager,
            file,
            dep,
        ).len() == 0,
{
}

/// The updates of a log are those of its lines, one after the other; a line
/// that is no record has none.
pub proof fn law_log_is_read_line_by_line(repo: Seq<char>, lines: Seq<Seq<char>>, line: Seq<char>)
    ensures
        json::json_of(line) matches Ok(doc) ==> of_lines(repo, lines.push(line)) == of_lines(repo, lines)
            + of_record(repo, doc),
        json::json_of(line) is Err ==> of_lines(repo, lines.push(line)) == of_lines(repo, lines),
{
    assert(lines.push(line).drop_last() =~= lines);
    assert(of_lines(repo, lines) + Seq::<DepCandidateView>::empty() =~= of_lines(repo, lines));
}

} // verus!
