//! Health checks of the local setup, as verdicts on facts that the caller gathered
//! (file metadata, lock state, recipe counts, API replies).
use crate::config::{strings_view, AppConfig, StrategyConfig};
use crate::integrator::{join_path, join_path_exec};
use crate::lock::LockState;
use crate::state::{lookup, AppStateView, State};
use crate::text::{cat, cat3, join_strings, joined, chars_of, chars_of_string, decimal, decimal_exec, eq, is_prefix, lit, starts_with, string_of, trim_end_char, trim_end_char_exec};
use vstd::prelude::*;

pub use crate::output::types::{DoctorCheck, DoctorStatus};

verus! {

/// A path as shown to the user: the home directory as `~` (paths compared as text,
/// trailing `/` of the home directory aside).
pub open spec fn display_path_spec(path: Seq<char>, home: Option<Seq<char>>) -> Seq<char> {
    match home {
        None => path,
        Some(h) => {
            let base = trim_end_char(h, '/');
            if path == h || path == base {
                "~"@
            } else if is_prefix(base + "/"@, path) {
                let rest = path.skip(base.len() as int + 1);
                if rest.len() == 0 { "~"@ } else { "~/"@ + rest }
            } else {
                path
            }
        },
    }
}

/// Shows `path` with the home directory `home` (the `HOME` variable) as `~`.
pub fn display_path(path: &str, home: Option<&str>) -> (r: String)
    ensures
        r@ == display_path_spec(path@, crate::resolvers::opt_str(home)),
{
    let p = chars_of(path);
    match home {
        None => String::from_str(path),
        Some(h) => {
            let hc = chars_of(h);
            let base = trim_end_char_exec(&hc, '/');
            if eq(&p, &hc) || eq(&p, &base) {
                return String::from_str("~");
            }
            let prefix = cat(&base, &lit("/"));
            proof { reveal_strlit("/"); }
            if starts_with(&p, &prefix) {
                let rest = crate::text::slice_copy(&p, prefix.len(), p.len());
                assert(rest@ == p@.skip(base@.len() as int + 1));
                if rest.len() == 0 {
                    String::from_str("~")
                } else {
                    string_of(&cat(&lit("~/"), &rest))
                }
            } else {
                String::from_str(path)
            }
        },
    }
}

fn check(name: &str, status: DoctorStatus, detail: Vec<char>) -> (r: DoctorCheck)
    ensures
        r.name@ == name@,
        r.status == status,
        r.detail@ == detail@,
{
    DoctorCheck { name: String::from_str(name), status, detail: string_of(&detail) }
}

/// The verdict on a directory shown as `shown`: missing (`None`), or present and
/// writable or not.
pub fn dir_access_check(name: &str, shown: &str, writable: Option<bool>) -> (r: DoctorCheck)
    ensures
        r.name@ == name@,
        r.status == if writable == Some(true) { DoctorStatus::Pass } else { DoctorStatus::Warn },
        r.detail@ == match writable {
            Some(true) => "exists and writable: "@ + shown@,
            Some(false) => "exists but not writable: "@ + shown@,
            None => "missing: "@ + shown@,
        },
{
    match writable {
        Some(true) => check(name, DoctorStatus::Pass, cat(&lit("exists and writable: "), &chars_of(shown))),
        Some(false) => check(name, DoctorStatus::Warn, cat(&lit("exists but not writable: "), &chars_of(shown))),
        None => check(name, DoctorStatus::Warn, cat(&lit("missing: "), &chars_of(shown))),
    }
}

/// What was found of the state cache file.
pub enum CacheFileFinding {
    /// The file exists and holds a valid state.
    Valid,
    /// The file exists but is not valid JSON state; the parser's message.
    InvalidJson(String),
    /// The file exists but cannot be read; the error.
    Unreadable(String),
    /// The file is missing; whether its directory is writable, if it has one.
    Missing(Option<bool>),
}

/// The verdict on the state cache file shown as `shown`.
pub fn cache_file_access_check(shown: &str, finding: &CacheFileFinding) -> (r: DoctorCheck)
    ensures
        r.name@ == "cache_file_access"@,
        r.status == match finding { CacheFileFinding::Valid => DoctorStatus::Pass, CacheFileFinding::Missing(Some(true)) => DoctorStatus::Pass, _ => DoctorStatus::Warn },
        r.detail@ == match finding {
            CacheFileFinding::Valid => "exists, readable, and valid JSON: "@ + shown@,
            CacheFileFinding::InvalidJson(e) => "invalid JSON at "@ + shown@ + " ("@ + e@ + ")"@,
            CacheFileFinding::Unreadable(e) => "not readable: "@ + shown@ + " ("@ + e@ + ")"@,
            CacheFileFinding::Missing(Some(true)) => "missing, parent is writable: "@ + shown@,
            CacheFileFinding::Missing(Some(false)) => "missing, parent is not writable: "@ + shown@,
            CacheFileFinding::Missing(None) => "missing and parent could not be determined: "@ + shown@,
        },
{
    let s = chars_of(shown);
    let name = "cache_file_access";
    match finding {
        CacheFileFinding::Valid => check(name, DoctorStatus::Pass, cat(&lit("exists, readable, and valid JSON: "), &s)),
        CacheFileFinding::InvalidJson(e) => check(name, DoctorStatus::Warn, cat(&cat3(&lit("invalid JSON at "), &s, &lit(" (")), &cat(&chars_of_string(e), &lit(")")))),
        CacheFileFinding::Unreadable(e) => check(name, DoctorStatus::Warn, cat(&cat3(&lit("not readable: "), &s, &lit(" (")), &cat(&chars_of_string(e), &lit(")")))),
        CacheFileFinding::Missing(Some(true)) => check(name, DoctorStatus::Pass, cat(&lit("missing, parent is writable: "), &s)),
        CacheFileFinding::Missing(Some(false)) => check(name, DoctorStatus::Warn, cat(&lit("missing, parent is not writable: "), &s)),
        CacheFileFinding::Missing(None) => check(name, DoctorStatus::Warn, cat(&lit("missing and parent could not be determined: "), &s)),
    }
}

/// The verdict on loading the configuration from the directory shown as `shown`.
pub fn config_parse_check(shown: &str, load: Result<(), &str>) -> (r: DoctorCheck)
    ensures
        r.name@ == "config_parse"@,
        r.status == if load is Ok { DoctorStatus::Pass } else { DoctorStatus::Warn },
        r.detail@ == match load {
            Ok(_) => "config and secrets parsed successfully from "@ + shown@,
            Err(e) => "failed to load config from "@ + shown@ + " ("@ + e@ + ")"@,
        },
{
    match load {
        Ok(_) => check("config_parse", DoctorStatus::Pass, cat(&lit("config and secrets parsed successfully from "), &chars_of(shown))),
        Err(e) => check("config_parse", DoctorStatus::Warn, cat(&cat3(&lit("failed to load config from "), &chars_of(shown), &lit(" (")), &cat(&chars_of(e), &lit(")")))),
    }
}

/// The verdict on scanning the recipes: how many loaded and how many did not, or why
/// the scan failed. Passing needs at least one recipe and no failures.
pub fn app_recipes_scan_check(scan: Result<(u64, u64), &str>) -> (r: DoctorCheck)
    ensures
        r.name@ == "app_recipes_scan"@,
        r.status == match scan { Ok((v, i)) => if v > 0 && i == 0 { DoctorStatus::Pass } else { DoctorStatus::Warn }, Err(_) => DoctorStatus::Warn },
        r.detail@ == match scan {
            Ok((v, i)) => decimal(v as nat) + " valid recipe(s), "@ + decimal(i as nat) + " invalid recipe(s)"@,
            Err(e) => "failed to scan app recipes ("@ + e@ + ")"@,
        },
{
    match scan {
        Ok((valid, invalid)) => {
            let status = if valid > 0 && invalid == 0 { DoctorStatus::Pass } else { DoctorStatus::Warn };
            let d = cat3(&decimal_exec(valid), &lit(" valid recipe(s), "), &cat(&decimal_exec(invalid), &lit(" invalid recipe(s)")));
            check("app_recipes_scan", status, d)
        },
        Err(e) => check("app_recipes_scan", DoctorStatus::Warn, cat3(&lit("failed to scan app recipes ("), &chars_of(e), &lit(")"))),
    }
}

/// The verdict on the process lock at the path shown as `shown`.
pub fn lock_check(shown: &str, state: Result<&LockState, &str>) -> (r: DoctorCheck)
    ensures
        r.name@ == "process_lock"@,
        r.status == match state { Ok(LockState::Missing) => DoctorStatus::Pass, Ok(LockState::Active { .. }) => DoctorStatus::Pass, _ => DoctorStatus::Warn },
        r.detail@ == match state {
            Ok(LockState::Missing) => "missing: "@ + shown@,
            Ok(LockState::Active { pid }) => "active lock held by pid "@ + decimal(pid as nat) + " at "@ + shown@,
            Ok(LockState::Stale { reason }) => "stale lock at "@ + shown@ + " ("@ + reason@ + ")"@,
            Err(e) => "failed to inspect "@ + shown@ + " ("@ + e@ + ")"@,
        },
{
    let s = chars_of(shown);
    match state {
        Ok(LockState::Missing) => check("process_lock", DoctorStatus::Pass, cat(&lit("missing: "), &s)),
        Ok(LockState::Active { pid }) => check("process_lock", DoctorStatus::Pass, cat(&cat3(&lit("active lock held by pid "), &decimal_exec(*pid as u64), &lit(" at ")), &s)),
        Ok(LockState::Stale { reason }) => check("process_lock", DoctorStatus::Warn, cat(&cat3(&lit("stale lock at "), &s, &lit(" (")), &cat(&chars_of_string(reason), &lit(")")))),
        Err(e) => check("process_lock", DoctorStatus::Warn, cat(&cat3(&lit("failed to inspect "), &s, &lit(" (")), &cat(&chars_of(e), &lit(")")))),
    }
}

/// `with` or `without`, as a token is configured or not.
pub open spec fn with_token(has_token: bool) -> Seq<char> {
    if has_token { "with"@ } else { "without"@ }
}

/// The verdict on a request to the GitHub API: the limit and remaining headers
/// (`unknown` when absent), or the error.
pub fn github_api_check(has_token: bool, reply: Result<(Option<&str>, Option<&str>), &str>) -> (r: DoctorCheck)
    ensures
        r.name@ == "github_api"@,
        r.status == if reply is Ok { DoctorStatus::Pass } else { DoctorStatus::Warn },
        r.detail@ == match reply {
            Ok((l, m)) => "working "@ + with_token(has_token) + " token (limit: "@
                + (match l { Some(x) => x@, None => "unknown"@ }) + ", remaining: "@
                + (match m { Some(x) => x@, None => "unknown"@ }) + ")"@,
            Err(e) => "failed "@ + with_token(has_token) + " token ("@ + e@ + ")"@,
        },
{
    let w = if has_token { lit("with") } else { lit("without") };
    match reply {
        Ok((limit, remaining)) => {
            let l = match limit { Some(x) => chars_of(x), None => lit("unknown") };
            let m = match remaining { Some(x) => chars_of(x), None => lit("unknown") };
            let d = cat(&cat3(&lit("working "), &w, &lit(" token (limit: ")), &cat3(&l, &lit(", remaining: "), &cat(&m, &lit(")"))));
            check("github_api", DoctorStatus::Pass, d)
        },
        Err(e) => check("github_api", DoctorStatus::Warn, cat(&cat3(&lit("failed "), &w, &lit(" token (")), &cat(&chars_of(e), &lit(")")))),
    }
}

/// Each recipe as its name and its own desktop-integration setting.
pub open spec fn integration_settings(apps: Seq<AppConfig>) -> Seq<(Seq<char>, Option<bool>)> {
    Seq::new(apps.len(), |i: int| (apps[i].name@, apps[i].integration))
}

/// The installed AppImages whose desktop integration is checked: for each recipe in
/// order that integrates with the desktop (its own setting, else `manage`), the file
/// the state records for it, when it records one.
pub open spec fn desktop_check_paths_spec(apps: Seq<(Seq<char>, Option<bool>)>, manage: bool, state: Seq<(Seq<char>, AppStateView)>) -> Seq<Seq<char>>
    decreases apps.len(),
{
    if apps.len() == 0 {
        seq![]
    } else {
        let rest = desktop_check_paths_spec(apps.drop_last(), manage, state);
        let should = match apps.last().1 { Some(b) => b, None => manage };
        match lookup(state, apps.last().0) {
            Some(st) => match st.file_path {
                Some(p) => if should { rest.push(p) } else { rest },
                None => rest,
            },
            None => rest,
        }
    }
}

/// The installed AppImages to check for desktop integration.
pub fn desktop_check_paths(apps: &[AppConfig], manage_desktop_files: bool, state: &State) -> (r: Vec<String>)
    requires
        state.wf(),
    ensures
        strings_view(r@) == desktop_check_paths_spec(integration_settings(apps@), manage_desktop_files, state@),
{
    let ghost all = integration_settings(apps@);
    let mut out: Vec<String> = Vec::new();
    let mut i: usize = 0;
    while i < apps.len()
        invariant
            i <= apps.len(),
            state.wf(),
            all == integration_settings(apps@),
            strings_view(out@) == desktop_check_paths_spec(all.take(i as int), manage_desktop_files, state@),
        decreases apps.len() - i,
    {
        proof {
            assert(all.take(i + 1).drop_last() =~= all.take(i as int));
            assert(all.take(i + 1).last() == all[i as int]);
        }
        let app = &apps[i];
        let should = match app.integration { Some(b) => b, None => manage_desktop_files };
        match state.get(app.name.as_str()) {
            Some(st) => match &st.file_path {
                Some(p) => if should {
                    out.push(p.clone());
                    assert(strings_view(out@) =~= desktop_check_paths_spec(all.take(i as int), manage_desktop_files, state@).push(p@));
                },
                None => {},
            },
            None => {},
        }
        i = i + 1;
    }
    assert(all.take(apps.len() as int) =~= all);
    out
}

/// What was found of one installed AppImage: whether it is executable, or `None`
/// when it is missing.
pub struct DesktopAppFinding {
    pub shown: String,
    pub executable: Option<bool>,
}

pub open spec fn desktop_findings_view(f: Seq<DesktopAppFinding>) -> Seq<(Seq<char>, Option<bool>)> {
    Seq::new(f.len(), |i: int| (f[i].shown@, f[i].executable))
}

/// The problems found with the installed AppImages, in order.
pub open spec fn desktop_problems(f: Seq<(Seq<char>, Option<bool>)>) -> Seq<Seq<char>>
    decreases f.len(),
{
    if f.len() == 0 {
        seq![]
    } else {
        let rest = desktop_problems(f.drop_last());
        match f.last().1 {
            Some(true) => rest,
            Some(false) => rest.push("installed desktop AppImage not executable: "@ + f.last().0),
            None => rest.push("installed desktop AppImage missing: "@ + f.last().0),
        }
    }
}

/// How many of the installed AppImages are executable.
pub open spec fn desktop_ok_count(f: Seq<(Seq<char>, Option<bool>)>) -> nat
    decreases f.len(),
{
    if f.len() == 0 {
        0
    } else {
        desktop_ok_count(f.drop_last()) + if f.last().1 == Some(true) { 1nat } else { 0nat }
    }
}

/// All problems of the general check: the home directory, the temporary directory,
/// then the installed AppImages.
pub open spec fn general_problems(home_set: bool, temp_dir_writable: bool, temp_dir_shown: Seq<char>, f: Seq<(Seq<char>, Option<bool>)>) -> Seq<Seq<char>> {
    (if home_set { seq![] } else { seq!["HOME missing"@] })
        + (if temp_dir_writable { seq![] } else { seq!["temp dir unavailable: "@ + temp_dir_shown] })
        + desktop_problems(f)
}

/// The general verdict on the environment: whether `HOME` is set, whether the
/// temporary directory passes the directory check, and what was found of each
/// installed AppImage that integrates with the desktop.
pub fn general_check(home_set: bool, temp_dir_writable: bool, temp_dir_shown: &str, findings: &[DesktopAppFinding]) -> (r: DoctorCheck)
    requires
        findings.len() < u64::MAX,
    ensures
        r.name@ == "general_check"@,
        ({
            let f = desktop_findings_view(findings@);
            let problems = general_problems(home_set, temp_dir_writable, temp_dir_shown@, f);
            &&& r.status == if problems.len() == 0 { DoctorStatus::Pass } else { DoctorStatus::Warn }
            &&& r.detail@ == if problems.len() == 0 {
                "HOME set, temp dir writable, desktop integrations checked: "@ + decimal(desktop_ok_count(f))
                    + "/"@ + decimal(f.len())
            } else {
                joined(problems, "; "@)
            }
        }),
{
    let ghost f = desktop_findings_view(findings@);
    let mut problems: Vec<String> = Vec::new();
    if !home_set {
        problems.push(String::from_str("HOME missing"));
    }
    if !temp_dir_writable {
        problems.push(string_of(&cat(&lit("temp dir unavailable: "), &chars_of(temp_dir_shown))));
    }
    let ghost head = strings_view(problems@);
    assert(head =~= (if home_set { seq![] } else { seq!["HOME missing"@] })
        + (if temp_dir_writable { seq![] } else { seq!["temp dir unavailable: "@ + temp_dir_shown@] }));
    let mut ok: u64 = 0;
    let mut i: usize = 0;
    while i < findings.len()
        invariant
            i <= findings.len(),
            findings.len() < u64::MAX,
            f == desktop_findings_view(findings@),
            strings_view(problems@) == head + desktop_problems(f.take(i as int)),
            ok as nat == desktop_ok_count(f.take(i as int)),
            ok <= i,
        decreases findings.len() - i,
    {
        proof {
            assert(f.take(i + 1).drop_last() =~= f.take(i as int));
            assert(f.take(i + 1).last() == f[i as int]);
        }
        let shown = chars_of_string(&findings[i].shown);
        let ghost before = strings_view(problems@);
        let ghost dp = desktop_problems(f.take(i as int));
        match findings[i].executable {
            Some(true) => {
                ok = ok + 1;
            },
            Some(false) => {
                let m = string_of(&cat(&lit("installed desktop AppImage not executable: "), &shown));
                problems.push(m);
                assert(strings_view(problems@) =~= before.push(m@));
                assert((head + dp).push(m@) =~= head + dp.push(m@));
            },
            None => {
                let m = string_of(&cat(&lit("installed desktop AppImage missing: "), &shown));
                problems.push(m);
                assert(strings_view(problems@) =~= before.push(m@));
                assert((head + dp).push(m@) =~= head + dp.push(m@));
            },
        }
        i = i + 1;
    }
    assert(f.take(findings.len() as int) =~= f);
    if problems.len() == 0 {
        let d = cat3(&lit("HOME set, temp dir writable, desktop integrations checked: "), &decimal_exec(ok), &cat(&lit("/"), &decimal_exec(findings.len() as u64)));
        check("general_check", DoctorStatus::Pass, d)
    } else {
        check("general_check", DoctorStatus::Warn, join_strings(&problems, &lit("; ")))
    }
}

/// The script of each script-resolved recipe, in order: the recipe's name and the
/// script's path joined onto the recipe's directory.
pub open spec fn script_targets_spec(apps: Seq<AppConfig>) -> Seq<(Seq<char>, Seq<char>)>
    decreases apps.len(),
{
    if apps.len() == 0 {
        seq![]
    } else {
        let rest = script_targets_spec(apps.drop_last());
        match apps.last().strategy {
            StrategyConfig::Script { script_path } => rest.push((apps.last().name@, join_path(apps.last().config_dir@, script_path@))),
            _ => rest,
        }
    }
}

/// The scripts to inspect: recipe name and script path.
pub fn script_resolver_targets(apps: &[AppConfig]) -> (r: Vec<(String, String)>)
    ensures
        r@.len() == script_targets_spec(apps@).len(),
        forall|i: int| 0 <= i < r@.len() ==> (#[trigger] r@[i].0@, r@[i].1@) == script_targets_spec(apps@)[i],
{
    let mut out: Vec<(String, String)> = Vec::new();
    let mut i: usize = 0;
    while i < apps.len()
        invariant
            i <= apps.len(),
            out@.len() == script_targets_spec(apps@.take(i as int)).len(),
            forall|j: int| 0 <= j < out@.len() ==> (#[trigger] out@[j].0@, out@[j].1@) == script_targets_spec(apps@.take(i as int))[j],
        decreases apps.len() - i,
    {
        proof {
            assert(apps@.take(i + 1).drop_last() =~= apps@.take(i as int));
            assert(apps@.take(i + 1).last() == apps@[i as int]);
        }
        match &apps[i].strategy {
            StrategyConfig::Script { script_path } => {
                let path = join_path_exec(apps[i].config_dir.as_str(), script_path.as_str());
                out.push((apps[i].name.clone(), path));
            },
            _ => {},
        }
        i = i + 1;
    }
    assert(apps@.take(apps.len() as int) =~= apps@);
    out
}

/// What was found of one resolver script.
pub enum ScriptAccess {
    /// An executable file.
    Ready,
    /// Something other than a file.
    NotFile,
    /// A file that nobody may execute.
    NotExecutable,
    /// It cannot be inspected; the error.
    Inaccessible(String),
}

/// One resolver script: its recipe, its path as shown, what was found.
pub struct ScriptFinding {
    pub app_name: String,
    pub shown: String,
    pub access: ScriptAccess,
}

/// The message for a script with a problem, `None` for a ready one.
pub open spec fn script_problem(f: ScriptFinding) -> Option<Seq<char>> {
    match f.access {
        ScriptAccess::Ready => None,
        ScriptAccess::NotFile => Some("script resolver for "@ + f.app_name@ + " is not a file: "@ + f.shown@),
        ScriptAccess::NotExecutable => Some("script resolver for "@ + f.app_name@ + " is not executable: "@ + f.shown@),
        ScriptAccess::Inaccessible(e) => Some("script resolver for "@ + f.app_name@ + " is not accessible: "@ + f.shown@ + " ("@ + e@ + ")"@),
    }
}

/// The verdict on the resolver scripts, given what was found of each in recipe order,
/// or `None` when the recipes could not be loaded. The first problem is reported.
pub fn script_resolvers_access_check(findings: Option<&[ScriptFinding]>) -> (r: DoctorCheck)
    ensures
        r.name@ == "script_resolvers_access"@,
        match findings {
            None => r.status == DoctorStatus::Warn && r.detail@ == "skipped because app recipes could not be loaded"@,
            Some(fs) => match first_script_problem(fs@) {
                Some(i) => r.status == DoctorStatus::Warn && Some(r.detail@) == script_problem(fs@[i]),
                None => r.status == DoctorStatus::Pass && r.detail@ == decimal(fs@.len()) + " script resolver(s) accessible"@,
            },
        },
{
    match findings {
        None => check("script_resolvers_access", DoctorStatus::Warn, lit("skipped because app recipes could not be loaded")),
        Some(fs) => {
            let mut i: usize = 0;
            while i < fs.len()
                invariant
                    i <= fs.len(),
                    findings == Some(fs),
                    forall|j: int| 0 <= j < i ==> script_problem(#[trigger] fs@[j]) is None,
                decreases fs.len() - i,
            {
                let f = &fs[i];
                let head = cat3(&lit("script resolver for "), &chars_of_string(&f.app_name), &lit(" is not "));
                proof {
                    reveal_strlit("script resolver for ");
                    reveal_strlit(" is not ");
                    reveal_strlit(" is not a file: ");
                    reveal_strlit(" is not executable: ");
                    reveal_strlit(" is not accessible: ");
                    reveal_strlit("a file: ");
                    reveal_strlit("executable: ");
                    reveal_strlit("accessible: ");
                }
                let shown = chars_of_string(&f.shown);
                match &f.access {
                    ScriptAccess::Ready => {},
                    ScriptAccess::NotFile => {
                        let d = cat3(&head, &lit("a file: "), &shown);
                        assert(d@ =~= "script resolver for "@ + f.app_name@ + " is not a file: "@ + f.shown@);
                        proof { lemma_first_script_problem(fs@, i as int); }
                        return check("script_resolvers_access", DoctorStatus::Warn, d);
                    },
                    ScriptAccess::NotExecutable => {
                        let d = cat3(&head, &lit("executable: "), &shown);
                        assert(d@ =~= "script resolver for "@ + f.app_name@ + " is not executable: "@ + f.shown@);
                        proof { lemma_first_script_problem(fs@, i as int); }
                        return check("script_resolvers_access", DoctorStatus::Warn, d);
                    },
                    ScriptAccess::Inaccessible(e) => {
                        let d = cat(&cat3(&head, &lit("accessible: "), &shown), &cat3(&lit(" ("), &chars_of_string(e), &lit(")")));
                        assert(d@ =~= "script resolver for "@ + f.app_name@ + " is not accessible: "@ + f.shown@ + " ("@ + e@ + ")"@);
                        proof { lemma_first_script_problem(fs@, i as int); }
                        return check("script_resolvers_access", DoctorStatus::Warn, d);
                    },
                }
                i = i + 1;
            }
            assert(first_script_problem(fs@) is None);
            check("script_resolvers_access", DoctorStatus::Pass, cat(&decimal_exec(fs.len() as u64), &lit(" script resolver(s) accessible")))
        },
    }
}

/// The first script with a problem.
pub open spec fn first_script_problem(fs: Seq<ScriptFinding>) -> Option<int> {
    if exists|i: int| 0 <= i < fs.len() && script_problem(#[trigger] fs[i]) is Some {
        Some(choose|i: int| 0 <= i < fs.len() && script_problem(#[trigger] fs[i]) is Some
            && forall|j: int| 0 <= j < i ==> script_problem(#[trigger] fs[j]) is None)
    } else {
        None
    }
}

proof fn lemma_first_script_problem(fs: Seq<ScriptFinding>, i: int)
    requires
        0 <= i < fs.len(),
        script_problem(fs[i]) is Some,
        forall|j: int| 0 <= j < i ==> script_problem(#[trigger] fs[j]) is None,
    ensures
        first_script_problem(fs) == Some(i),
{
    let k = choose|k: int| 0 <= k < fs.len() && script_problem(#[trigger] fs[k]) is Some
        && forall|j: int| 0 <= j < k ==> script_problem(#[trigger] fs[j]) is None;
    assert(0 <= k < fs.len() && script_problem(fs[k]) is Some
        && forall|j: int| 0 <= j < k ==> script_problem(#[trigger] fs[j]) is None);
    if k < i {
        assert(script_problem(fs[k]) is None);
    }
    if k > i {
        assert(script_problem(fs[i]) is None);
    }
}

} // verus!
