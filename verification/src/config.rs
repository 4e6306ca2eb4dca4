//! The configuration: what is in the file, what is assumed where it is
//! silent, and what is refused.

use vstd::prelude::*;
use crate::text;
use crate::util;

verus! {

/// The most days that an interval can have and still be counted in
/// milliseconds.
pub const MAX_DAYS: i64 = 106_751_991_167;

/// What the file says, as far as it is texts and whole numbers.
#[derive(Debug)]
pub struct RawConfig {
    pub work_root: Option<String>,
    pub db_path: Option<String>,
    pub omp_bin: Option<String>,
    pub session_grace_s: Option<u64>,
    pub serve_port: Option<u16>,
    pub model_default: Option<String>,
    pub model_smol: Option<String>,
    pub model_hunt: Option<String>,
    pub model_fix: Option<String>,
    pub backend_type: Option<String>,
    pub hunt_max_wall_s: Option<i64>,
    pub hunt_max_findings: Option<i64>,
    pub hunt_rehunt_days: Option<i64>,
    pub fix_max_wall_s: Option<i64>,
}

/// What the file says in fractions: whether each is in its range, how it is
/// shown, and the whole number that it comes to.
#[derive(Debug)]
pub struct Fractions {
    /// Whether the time between readings is finite and positive.
    pub poll_ok: bool,
    pub poll_shown: String,
    /// Whether the age of a stale reading is finite and not negative.
    pub stale_ok: bool,
    pub stale_shown: String,
    /// The rest between hunts in whole milliseconds, rounded down, where it
    /// is finite and at most `MAX_DAYS`.
    pub scan_ms: Option<i64>,
    pub scan_shown: String,
    /// The days between modernizations, where they are a whole number.
    pub modernization_days: Option<i64>,
    pub modernization_shown: String,
    /// The days between audits, where they are a whole number.
    pub standards_days: Option<i64>,
    pub standards_shown: String,
}

#[derive(Debug, Clone)]
pub struct Config {
    /// The directory of the project.
    pub root: String,
    pub work_root: String,
    pub db_path: String,
    pub serve_port: u16,
    /// Where the pages are.
    pub ui_dir: String,
    pub omp_bin: String,
    /// How long a worker may run before its ledger has to be there.
    pub session_grace_s: u64,
    pub model_default: Option<String>,
    pub model_smol: Option<String>,
    pub model_hunt: Option<String>,
    pub model_fix: Option<String>,
    pub backend_type: String,
    pub hunt_max_wall_s: i64,
    pub hunt_max_findings: i64,
    pub hunt_rehunt_days: i64,
    pub fix_max_wall_s: i64,
    /// How long a repository rests between hunts.
    pub scan_interval_ms: i64,
    pub modernization_interval_days: i64,
    pub standards_interval_days: i64,
}

pub struct ConfigView {
    pub root: Seq<char>,
    pub work_root: Seq<char>,
    pub db_path: Seq<char>,
    pub serve_port: u16,
    pub ui_dir: Seq<char>,
    pub omp_bin: Seq<char>,
    pub session_grace_s: u64,
    pub model_default: Option<Seq<char>>,
    pub model_smol: Option<Seq<char>>,
    pub model_hunt: Option<Seq<char>>,
    pub model_fix: Option<Seq<char>>,
    pub backend_type: Seq<char>,
    pub hunt_max_wall_s: i64,
    pub hunt_max_findings: i64,
    pub hunt_rehunt_days: i64,
    pub fix_max_wall_s: i64,
    pub scan_interval_ms: i64,
    pub modernization_interval_days: i64,
    pub standards_interval_days: i64,
}

impl View for Config {
    type V = ConfigView;

    open spec fn view(&self) -> ConfigView {
        ConfigView {
            root: self.root@,
            work_root: self.work_root@,
            db_path: self.db_path@,
            ui_dir: self.ui_dir@,
            omp_bin: self.omp_bin@,
            backend_type: self.backend_type@,
            model_default: text::opt_text(self.model_default),
            model_smol: text::opt_text(self.model_smol),
            model_hunt: text::opt_text(self.model_hunt),
            model_fix: text::opt_text(self.model_fix),
            serve_port: self.serve_port,
            session_grace_s: self.session_grace_s,
            hunt_max_wall_s: self.hunt_max_wall_s,
            hunt_max_findings: self.hunt_max_findings,
            hunt_rehunt_days: self.hunt_rehunt_days,
            fix_max_wall_s: self.fix_max_wall_s,
            scan_interval_ms: self.scan_interval_ms,
            modernization_interval_days: self.modernization_interval_days,
            standards_interval_days: self.standards_interval_days,
        }
    }
}

/// A path of the configuration: an absolute one as it is, another below the
/// root.
pub open spec fn resolved(root: Seq<char>, p: Seq<char>) -> Seq<char> {
    if p.len() > 0 && p[0] == '/' { p } else { util::path_join(root, p) }
}

pub fn resolve_path(root: &str, p: &str) -> (r: String)
    ensures
        r@ == resolved(root@, p@),
{
    let n: usize = p.unicode_len();
    if n > 0 && p.get_char(0) == '/' {
        p.to_owned()
    } else {
        util::join_path(root, p)
    }
}

// ---------------------------------------------------------------------
// What is refused
// ---------------------------------------------------------------------

/// How a value out of its range is refused.
pub open spec fn out_of_range(path: Seq<char>, field: Seq<char>, range: Seq<char>, shown: Seq<char>) -> Seq<char> {
    path + ": "@ + field + range + " (got "@ + shown + ")"@
}

fn refuse(path: &str, field: &str, range: &str, shown: &str) -> (r: String)
    ensures
        r@ == out_of_range(path@, field@, range@, shown@),
{
    path.to_owned().concat(": ").concat(field).concat(range).concat(" (got ").concat(shown).concat(")")
}

/// Why a limit is refused: it has to be positive, and zero is not how it is
/// switched off.
pub open spec fn limit_refusal(path: Seq<char>, field: Seq<char>, value: i64) -> Option<Seq<char>> {
    if value > 0 {
        None
    } else {
        Some(out_of_range(path, field, " must be greater than 0"@, text::int_text(value as int)))
    }
}

fn check_limit(path: &str, field: &str, value: i64) -> (r: Option<String>)
    ensures
        text::opt_text(r) == limit_refusal(path@, field@, value),
{
    if value > 0 {
        None
    } else {
        Some(refuse(path, field, " must be greater than 0", text::int_to_text(value).as_str()))
    }
}

/// Why an interval in whole days is refused.
pub open spec fn days_refusal(path: Seq<char>, field: Seq<char>, days: Option<i64>, shown: Seq<char>) -> Option<
    Seq<char>,
> {
    if days is Some && 1 <= days->0 <= MAX_DAYS {
        None
    } else {
        Some(
            out_of_range(
                path,
                field,
                " must be a whole number of days, at least 1 and at most "@ + text::int_text(
                    MAX_DAYS as int,
                ),
                shown,
            ),
        )
    }
}

fn check_days(path: &str, field: &str, days: Option<i64>, shown: &str) -> (r: Result<i64, String>)
    ensures
        match r {
            Ok(n) => days == Some(n) && days_refusal(path@, field@, days, shown@) is None,
            Err(e) => days_refusal(path@, field@, days, shown@) == Some(e@),
        },
{
    if let Some(n) = days {
        if 1 <= n && n <= MAX_DAYS {
            return Ok(n);
        }
    }
    let range = " must be a whole number of days, at least 1 and at most ".to_owned().concat(
        text::int_to_text(MAX_DAYS).as_str(),
    );
    Err(refuse(path, field, &range, shown))
}

/// The limits that hold where the file is silent.
pub open spec fn or_int(o: Option<i64>, d: i64) -> i64 {
    match o {
        Some(n) => n,
        None => d,
    }
}

fn int_or(o: Option<i64>, d: i64) -> (r: i64)
    ensures
        r == or_int(o, d),
{
    match o {
        Some(n) => n,
        None => d,
    }
}

pub open spec fn or_text(o: Option<String>, d: Seq<char>) -> Seq<char> {
    match o {
        Some(s) => s@,
        None => d,
    }
}

fn text_or(o: Option<String>, d: &str) -> (r: String)
    ensures
        r@ == or_text(o, d@),
{
    match o {
        Some(s) => s,
        None => d.to_owned(),
    }
}

/// The first thing that is wrong with a configuration.
pub open spec fn refusal(root: Seq<char>, raw: RawConfig, f: Fractions) -> Option<Seq<char>> {
    let path = util::path_join(root, "config.json"@);
    let hunt = limit_refusal(path, "hunt.maxWallS"@, or_int(raw.hunt_max_wall_s, 1_800));
    let fix = limit_refusal(path, "fix.maxWallS"@, or_int(raw.fix_max_wall_s, 2_700));
    let modernization = days_refusal(
        path,
        "modernization.intervalDays"@,
        f.modernization_days,
        f.modernization_shown@,
    );
    let standards = days_refusal(path, "standards.intervalDays"@, f.standards_days, f.standards_shown@);
    if !f.poll_ok {
        Some(out_of_range(path, "pollS"@, " must be a finite number greater than 0"@, f.poll_shown@))
    } else if raw.session_grace_s == Some(0u64) {
        Some(path + ": sessionGraceS must be greater than 0"@)
    } else if hunt is Some {
        hunt
    } else if fix is Some {
        fix
    } else if !f.stale_ok {
        Some(
            out_of_range(
                path,
                "budget.staleAfterS"@,
                " must be a finite number greater than or equal to 0"@,
                f.stale_shown@,
            ),
        )
    } else if !(f.scan_ms is Some && f.scan_ms->0 >= 1) {
        Some(
            out_of_range(
                path,
                "scan.intervalDays"@,
                " must be a finite number greater than 0 and at most "@ + text::int_text(
                    MAX_DAYS as int,
                ),
                f.scan_shown@,
            ),
        )
    } else if modernization is Some {
        modernization
    } else {
        standards
    }
}

/// The configuration that a file comes to where nothing in it is refused.
pub open spec fn settled(root: Seq<char>, raw: RawConfig, f: Fractions) -> ConfigView {
    ConfigView {
        root,
        work_root: resolved(root, or_text(raw.work_root, "data"@)),
        db_path: resolved(root, or_text(raw.db_path, "data/hunter.db"@)),
        serve_port: match raw.serve_port {
            Some(p) => p,
            None => 8377u16,
        },
        ui_dir: util::path_join(root, "ui"@),
        omp_bin: or_text(raw.omp_bin, "omp"@),
        session_grace_s: match raw.session_grace_s {
            Some(s) => s,
            None => 120u64,
        },
        model_default: text::opt_text(raw.model_default),
        model_smol: text::opt_text(raw.model_smol),
        model_hunt: text::opt_text(raw.model_hunt),
        model_fix: text::opt_text(raw.model_fix),
        backend_type: or_text(raw.backend_type, "omp-scavenge"@),
        hunt_max_wall_s: or_int(raw.hunt_max_wall_s, 1_800),
        hunt_max_findings: or_int(raw.hunt_max_findings, 8),
        hunt_rehunt_days: or_int(raw.hunt_rehunt_days, 90),
        fix_max_wall_s: or_int(raw.fix_max_wall_s, 2_700),
        scan_interval_ms: f.scan_ms->0,
        modernization_interval_days: f.modernization_days->0,
        standards_interval_days: f.standards_days->0,
    }
}

impl ConfigView {
    /// The model of a class of jobs: its own, else the one for all.
    pub open spec fn model_of(self, class: Seq<char>) -> Option<Seq<char>> {
        let own = if class == "hunt"@ { self.model_hunt } else { self.model_fix };
        if own is Some { own } else { self.model_default }
    }
}

impl Config {
    pub fn model_for(&self, kind: &str) -> (r: Option<&str>)
        ensures
            match r {
                Some(m) => self@.model_of(kind@) == Some(m@),
                None => self@.model_of(kind@) is None,
            },
    {
        let own: &Option<String> = if text::same(kind, "hunt") {
            &self.model_hunt
        } else {
            &self.model_fix
        };
        match own {
            Some(m) => Some(m.as_str()),
            None => match &self.model_default {
                Some(m) => Some(m.as_str()),
                None => None,
            },
        }
    }

    /// The configuration of the project in a directory, from what its file
    /// says.
    pub fn load(root: &str, raw: RawConfig, f: Fractions) -> (r: Result<Config, String>)
        ensures
            match r {
                Ok(c) => refusal(root@, raw, f) is None && c@ == settled(root@, raw, f),
                Err(e) => refusal(root@, raw, f) == Some(e@),
            },
    {
        let path = util::join_path(root, "config.json");
        if !f.poll_ok {
            return Err(
                refuse(&path, "pollS", " must be a finite number greater than 0", &f.poll_shown),
            );
        }
        let session_grace_s: u64 = match raw.session_grace_s {
            Some(s) => s,
            None => 120,
        };
        if session_grace_s == 0 {
            return Err(path.concat(": sessionGraceS must be greater than 0"));
        }
        let hunt_max_wall_s: i64 = int_or(raw.hunt_max_wall_s, 1_800);
        let fix_max_wall_s: i64 = int_or(raw.fix_max_wall_s, 2_700);
        if let Some(e) = check_limit(&path, "hunt.maxWallS", hunt_max_wall_s) {
            return Err(e);
        }
        if let Some(e) = check_limit(&path, "fix.maxWallS", fix_max_wall_s) {
            return Err(e);
        }
        if !f.stale_ok {
            return Err(
                refuse(
                    &path,
                    "budget.staleAfterS",
                    " must be a finite number greater than or equal to 0",
                    &f.stale_shown,
                ),
            );
        }
        let scan_interval_ms: i64 = match f.scan_ms {
            Some(ms) => ms,
            None => 0,
        };
        if scan_interval_ms < 1 {
            let range = " must be a finite number greater than 0 and at most ".to_owned().concat(
                text::int_to_text(MAX_DAYS).as_str(),
            );
            return Err(refuse(&path, "scan.intervalDays", &range, &f.scan_shown));
        }
        let modernization_interval_days: i64 = match check_days(
            &path,
            "modernization.intervalDays",
            f.modernization_days,
            &f.modernization_shown,
        ) {
            Ok(n) => n,
            Err(e) => {
                return Err(e);
            },
        };
        let standards_interval_days: i64 = match check_days(
            &path,
            "standards.intervalDays",
            f.standards_days,
            &f.standards_shown,
        ) {
            Ok(n) => n,
            Err(e) => {
                return Err(e);
            },
        };
        let work_root = text_or(raw.work_root, "data");
        let db_path = text_or(raw.db_path, "data/hunter.db");
        Ok(
            Config {
                root: root.to_owned(),
                work_root: resolve_path(root, &work_root),
                db_path: resolve_path(root, &db_path),
                serve_port: match raw.serve_port {
                    Some(p) => p,
                    None => 8377,
                },
                ui_dir: util::join_path(root, "ui"),
                omp_bin: text_or(raw.omp_bin, "omp"),
                session_grace_s,
                model_default: raw.model_default,
                model_smol: raw.model_smol,
                model_hunt: raw.model_hunt,
                model_fix: raw.model_fix,
                backend_type: text_or(raw.backend_type, "omp-scavenge"),
                hunt_max_wall_s,
                hunt_max_findings: int_or(raw.hunt_max_findings, 8),
                hunt_rehunt_days: int_or(raw.hunt_rehunt_days, 90),
                fix_max_wall_s,
                scan_interval_ms,
                modernization_interval_days,
                standards_interval_days,
            },
        )
    }
}

/// Only one kind of backend is known.
pub fn backend_refusal(kind: &str) -> (r: Option<String>)
    ensures
        text::opt_text(r) == (if kind@ == "omp-scavenge"@ {
            None
        } else {
            Some("unknown backend_type: "@ + text::debug_text(kind@))
        }),
{
    if text::same(kind, "omp-scavenge") {
        None
    } else {
        Some("unknown backend_type: ".to_owned().concat(text::quoted(kind).as_str()))
    }
}

// ---------------------------------------------------------------------
// Laws
// ---------------------------------------------------------------------

/// Every limit and interval of a configuration that is not refused is
/// positive, and its intervals in days can be counted in milliseconds.
pub proof fn law_limits_are_positive(root: Seq<char>, raw: RawConfig, f: Fractions)
    requires
        refusal(root, raw, f) is None,
    ensures
        settled(root, raw, f).session_grace_s > 0,
        settled(root, raw, f).hunt_max_wall_s > 0,
        settled(root, raw, f).fix_max_wall_s > 0,
        settled(root, raw, f).scan_interval_ms > 0,
        0 < settled(root, raw, f).modernization_interval_days * 86_400_000 <= i64::MAX,
        0 < settled(root, raw, f).standards_interval_days * 86_400_000 <= i64::MAX,
{
}

/// An absolute path does not depend on the root.
pub proof fn law_absolute_paths_stay(a: Seq<char>, b: Seq<char>, p: Seq<char>)
    requires
        p.len() > 0,
        p[0] == '/',
    ensures
        resolved(a, p) == resolved(b, p),
{
}

/// What the file says is kept under its own name, and where it is silent these
/// hold: the data directory and the database below the root, the port 8377,
/// the worker `omp`, two minutes of grace, half an hour for a hunt, three
/// quarters of an hour for a fix, eight findings a hunt, and ninety days
/// between full hunts.
pub proof fn law_file_is_kept_or_completed(root: Seq<char>, raw: RawConfig, f: Fractions)
    ensures
        ({
            let c = settled(root, raw, f);
            &&& c.root == root
            &&& raw.serve_port matches Some(n) ==> c.serve_port == n
            &&& raw.serve_port is None ==> c.serve_port == 8377
            &&& raw.session_grace_s matches Some(n) ==> c.session_grace_s == n
            &&& raw.session_grace_s is None ==> c.session_grace_s == 120
            &&& raw.hunt_max_wall_s matches Some(n) ==> c.hunt_max_wall_s == n
            &&& raw.hunt_max_wall_s is None ==> c.hunt_max_wall_s == 30 * 60
            &&& raw.fix_max_wall_s matches Some(n) ==> c.fix_max_wall_s == n
            &&& raw.fix_max_wall_s is None ==> c.fix_max_wall_s == 45 * 60
            &&& raw.hunt_max_findings matches Some(n) ==> c.hunt_max_findings == n
            &&& raw.hunt_max_findings is None ==> c.hunt_max_findings == 8
            &&& raw.hunt_rehunt_days matches Some(n) ==> c.hunt_rehunt_days == n
            &&& raw.hunt_rehunt_days is None ==> c.hunt_rehunt_days == 90
            &&& raw.omp_bin matches Some(s) ==> c.omp_bin == s@
            &&& raw.omp_bin is None ==> c.omp_bin == "omp"@
            &&& raw.backend_type matches Some(s) ==> c.backend_type == s@
            &&& raw.backend_type is None ==> c.backend_type == "omp-scavenge"@
            &&& f.scan_ms matches Some(n) ==> c.scan_interval_ms == n
            &&& f.modernization_days matches Some(n) ==> c.modernization_interval_days == n
            &&& f.standards_days matches Some(n) ==> c.standards_interval_days == n
            &&& c.model_default == text::opt_text(raw.model_default)
            &&& c.model_smol == text::opt_text(raw.model_smol)
            &&& c.model_hunt == text::opt_text(raw.model_hunt)
            &&& c.model_fix == text::opt_text(raw.model_fix)
        }),
{
}

/// Relative paths of the configuration lie below the root; absolute ones stay
/// as they are.
pub proof fn law_paths_lie_below_the_root(root: Seq<char>, raw: RawConfig, f: Fractions)
    requires
        root.len() > 0,
        root.last() != '/',
    ensures
        raw.work_root is None ==> settled(root, raw, f).work_root == root + "/data"@,
        raw.db_path is None ==> settled(root, raw, f).db_path == root + "/data/hunter.db"@,
        settled(root, raw, f).ui_dir == root + "/ui"@,
        raw.work_root matches Some(p) ==> p@.len() > 0 && p@[0] == '/' ==> settled(root, raw, f).work_root == p@,
        raw.db_path matches Some(p) ==> p@.len() > 0 && p@[0] == '/' ==> settled(root, raw, f).db_path == p@,
        raw.work_root matches Some(p) ==> p@.len() > 0 && p@[0] != '/' ==> settled(root, raw, f).work_root == root
            + seq!['/'] + p@,
{
    reveal_strlit("data");
    reveal_strlit("/data");
    reveal_strlit("data/hunter.db");
    reveal_strlit("/data/hunter.db");
    reveal_strlit("ui");
    reveal_strlit("/ui");
    assert(root + seq!['/'] + "data"@ =~= root + "/data"@);
    assert(root + seq!['/'] + "data/hunter.db"@ =~= root + "/data/hunter.db"@);
    assert(root + seq!['/'] + "ui"@ =~= root + "/ui"@);
}

/// A job runs with the model of its own class, and with the default one where
/// its class has none; never with that of the other class.
pub proof fn law_model_is_the_classes_own(c: ConfigView)
    ensures
        c.model_hunt is Some ==> c.model_of("hunt"@) == c.model_hunt,
        c.model_hunt is None ==> c.model_of("hunt"@) == c.model_default,
        c.model_fix is Some ==> c.model_of("fix"@) == c.model_fix,
        c.model_fix is None ==> c.model_of("fix"@) == c.model_default,
{
    reveal_strlit("hunt");
    reveal_strlit("fix");
    assert("hunt"@.len() == 4 && "fix"@.len() == 3);
}

/// A configuration is refused exactly where one of its values is out of its
/// range.
pub proof fn law_only_bad_values_are_refused(root: Seq<char>, raw: RawConfig, f: Fractions)
    ensures
        refusal(root, raw, f) is None <==> {
            &&& f.poll_ok
            &&& raw.session_grace_s != Some(0u64)
            &&& raw.hunt_max_wall_s matches Some(n) ==> n > 0
            &&& raw.fix_max_wall_s matches Some(n) ==> n > 0
            &&& f.stale_ok
            &&& f.scan_ms matches Some(n) && n >= 1
            &&& f.modernization_days matches Some(n) && 1 <= n <= 106_751_991_167
            &&& f.standards_days matches Some(n) && 1 <= n <= 106_751_991_167
        },
{
}

} // verus!
