//! The `remove` command: which applications it removes, what it forgets of them, and
//! how it sums up.
use crate::config::strings_view;
use crate::output::types::{RemoveApp, RemoveStatus};
use crate::integrator::{join_path, join_path_exec};
use crate::state::{lookup, removed, written, AppState, AppStateView, State, StateManager};
use crate::text::{cat, cat3, chars_of, chars_of_string, decimal, decimal_exec, ends_with, eq, is_suffix, lit, string_of};
use vstd::prelude::*;

verus! {

/// Forgets what is installed of an application, keeping what was learned about its
/// downloads (size, capabilities, segmented support, forge).
pub fn clear_installed_state(state: &mut AppState)
    ensures
        final(state)@ == (AppStateView {
            local_version: None,
            etag: None,
            last_modified: None,
            file_path: None,
            sanitized_name: None,
            rate_limited_until: None,
            ..old(state)@
        }),
{
    state.local_version = None;
    state.etag = None;
    state.last_modified = None;
    state.file_path = None;
    state.sanitized_name = None;
    state.rate_limited_until = None;
}

/// The names in `state` that no configuration has, in order.
pub open spec fn orphans_of(config: Seq<Seq<char>>, state: Seq<Seq<char>>) -> Seq<Seq<char>>
    decreases state.len(),
{
    if state.len() == 0 {
        seq![]
    } else {
        let rest = orphans_of(config, state.drop_last());
        if config.contains(state.last()) { rest } else { rest.push(state.last()) }
    }
}

/// Each name paired with the orphan flag.
pub open spec fn flagged(names: Seq<Seq<char>>, orphan: bool) -> Seq<(Seq<char>, bool)> {
    names.map_values(|n: Seq<char>| (n, orphan))
}

/// The applications `remove` acts on (name and whether it is an orphan), or the
/// message for a request that names none.
pub open spec fn removal_targets_spec(
    config: Seq<Seq<char>>,
    state: Seq<Seq<char>>,
    app_name: Option<Seq<char>>,
    all: bool,
    orphan: bool,
) -> Result<Seq<(Seq<char>, bool)>, Seq<char>> {
    if orphan {
        let orphans = orphans_of(config, state);
        match app_name {
            Some(t) => if orphans.contains(t) {
                Ok(seq![(t, true)])
            } else {
                Err("App '"@ + t + "' is not an orphaned application in state cache."@)
            },
            None => if orphans.len() == 0 {
                Err("No orphaned applications found to remove."@)
            } else {
                Ok(flagged(orphans, true))
            },
        }
    } else if all {
        Ok(flagged(config, false))
    } else {
        match app_name {
            Some(t) => Ok(seq![(t, false)]),
            None => Err("Please provide an application name to remove, or use --all or --orphan."@),
        }
    }
}

fn contains_name(names: &[String], n: &[char]) -> (r: bool)
    ensures
        r == strings_view(names@).contains(n@),
{
    let mut i: usize = 0;
    while i < names.len()
        invariant
            i <= names.len(),
            forall|j: int| 0 <= j < i ==> names@[j]@ != n@,
        decreases names.len() - i,
    {
        if eq(&chars_of_string(&names[i]), n) {
            assert(strings_view(names@)[i as int] == n@);
            return true;
        }
        i = i + 1;
    }
    proof {
        if strings_view(names@).contains(n@) {
            let k = choose|k: int| 0 <= k < strings_view(names@).len() && strings_view(names@)[k] == n@;
            assert(names@[k]@ == n@);
        }
    }
    false
}

fn flag_all(names: &[String], orphan: bool) -> (r: Vec<(String, bool)>)
    ensures
        r@.map_values(|p: (String, bool)| (p.0@, p.1)) == flagged(strings_view(names@), orphan),
{
    let mut out: Vec<(String, bool)> = Vec::new();
    let mut i: usize = 0;
    while i < names.len()
        invariant
            i <= names.len(),
            out@.map_values(|p: (String, bool)| (p.0@, p.1)) == flagged(strings_view(names@).take(i as int), orphan),
        decreases names.len() - i,
    {
        let ghost prev = out@;
        let name = names[i].clone();
        out.push((name, orphan));
        proof {
            let f = |p: (String, bool)| (p.0@, p.1);
            assert(out@ =~= prev.push((name, orphan)));
            assert(out@.map_values(f) =~= prev.map_values(f).push((names@[i as int]@, orphan)));
            assert(strings_view(names@).take(i + 1) =~= strings_view(names@).take(i as int).push(names@[i as int]@));
            assert(out@.map_values(f) =~= flagged(strings_view(names@).take(i + 1), orphan));
        }
        i = i + 1;
    }
    assert(strings_view(names@).take(names.len() as int) =~= strings_view(names@));
    out
}

fn orphans_exec(config_names: &[String], state_names: &[String]) -> (r: Vec<String>)
    ensures
        strings_view(r@) == orphans_of(strings_view(config_names@), strings_view(state_names@)),
{
    let ghost cfg = strings_view(config_names@);
    let ghost st = strings_view(state_names@);
    let mut out: Vec<String> = Vec::new();
    let mut i: usize = 0;
    while i < state_names.len()
        invariant
            i <= state_names.len(),
            cfg == strings_view(config_names@),
            st == strings_view(state_names@),
            strings_view(out@) == orphans_of(cfg, st.take(i as int)),
        decreases state_names.len() - i,
    {
        proof {
            assert(st.take(i + 1).drop_last() =~= st.take(i as int));
            assert(st.take(i + 1).last() == state_names@[i as int]@);
        }
        if !contains_name(config_names, &chars_of_string(&state_names[i])) {
            let ghost before = strings_view(out@);
            out.push(state_names[i].clone());
            assert(strings_view(out@) =~= before.push(state_names@[i as int]@));
        }
        i = i + 1;
    }
    assert(st.take(state_names.len() as int) =~= st);
    out
}

/// Which applications `remove` acts on: the orphans of the state cache (all, or the one
/// named), every configured application, or the one named.
pub fn removal_targets(
    config_names: &[String],
    state_names: &[String],
    app_name: Option<&str>,
    all: bool,
    orphan: bool,
) -> (r: Result<Vec<(String, bool)>, String>)
    ensures
        match removal_targets_spec(
            strings_view(config_names@),
            strings_view(state_names@),
            crate::resolvers::opt_str(app_name),
            all,
            orphan,
        ) {
            Ok(v) => r matches Ok(x) && x@.map_values(|p: (String, bool)| (p.0@, p.1)) == v,
            Err(e) => r matches Err(m) && m@ == e,
        },
{
    if orphan {
        let orphans = orphans_exec(config_names, state_names);
        match app_name {
            Some(t) => {
                if contains_name(&orphans, &chars_of(t)) {
                    let mut v: Vec<(String, bool)> = Vec::new();
                    v.push((String::from_str(t), true));
                    assert(v@.map_values(|p: (String, bool)| (p.0@, p.1)) =~= seq![(t@, true)]);
                    Ok(v)
                } else {
                    Err(string_of(&cat3(&lit("App '"), &chars_of(t), &lit("' is not an orphaned application in state cache."))))
                }
            },
            None => {
                if orphans.len() == 0 {
                    Err(String::from_str("No orphaned applications found to remove."))
                } else {
                    Ok(flag_all(&orphans, true))
                }
            },
        }
    } else if all {
        Ok(flag_all(config_names, false))
    } else {
        match app_name {
            Some(t) => {
                let mut v: Vec<(String, bool)> = Vec::new();
                v.push((String::from_str(t), false));
                assert(v@.map_values(|p: (String, bool)| (p.0@, p.1)) =~= seq![(t@, false)]);
                Ok(v)
            },
            None => Err(String::from_str("Please provide an application name to remove, or use --all or --orphan.")),
        }
    }
}

/// How many results have status `st`.
pub open spec fn count_status(results: Seq<RemoveApp>, st: RemoveStatus) -> nat
    decreases results.len(),
{
    if results.len() == 0 {
        0
    } else {
        count_status(results.drop_last(), st) + if results.last().status == st { 1nat } else { 0nat }
    }
}

/// The closing line of a `remove` run.
pub open spec fn removal_summary_spec(results: Seq<RemoveApp>) -> Seq<char> {
    "summary: "@ + decimal(count_status(results, RemoveStatus::Removed)) + " removed, "@
        + decimal(count_status(results, RemoveStatus::NotFound)) + " missing, "@
        + decimal(count_status(results, RemoveStatus::Error)) + " failed"@
}

proof fn lemma_count_bound(results: Seq<RemoveApp>, st: RemoveStatus)
    ensures
        count_status(results, st) <= results.len(),
    decreases results.len(),
{
    if results.len() > 0 {
        lemma_count_bound(results.drop_last(), st);
    }
}

fn count_exec(results: &[RemoveApp], st: RemoveStatus) -> (r: u64)
    requires
        results.len() <= u64::MAX,
    ensures
        r == count_status(results@, st),
{
    let mut n: u64 = 0;
    let mut i: usize = 0;
    while i < results.len()
        invariant
            i <= results.len() <= u64::MAX,
            n == count_status(results@.take(i as int), st),
        decreases results.len() - i,
    {
        proof {
            assert(results@.take(i + 1).drop_last() =~= results@.take(i as int));
            lemma_count_bound(results@.take(i as int), st);
        }
        if results[i].status == st {
            n = n + 1;
        }
        i = i + 1;
    }
    assert(results@.take(results.len() as int) =~= results@);
    n
}

/// `summary: R removed, M missing, F failed`.
pub fn removal_summary(results: &[RemoveApp]) -> (r: String)
    requires
        results.len() <= u64::MAX,
    ensures
        r@ == removal_summary_spec(results@),
{
    let removed = decimal_exec(count_exec(results, RemoveStatus::Removed));
    let missing = decimal_exec(count_exec(results, RemoveStatus::NotFound));
    let failed = decimal_exec(count_exec(results, RemoveStatus::Error));
    let a = cat3(&lit("summary: "), &removed, &lit(" removed, "));
    let b = cat3(&missing, &lit(" missing, "), &cat(&failed, &lit(" failed")));
    let s = cat(&a, &b);
    assert(s@ =~= removal_summary_spec(results@));
    string_of(&s)
}

/// Whether some application's cached state records `path` as its installed file.
pub open spec fn path_referenced(state: State, path: Seq<char>) -> bool {
    exists|i: int| 0 <= i < state.apps@.len() && crate::config::opt_view(#[trigger] state.apps@[i].state.file_path) == Some(path)
}

/// The AppImage files in the storage directory that no application's state refers
/// to, in the order they were listed.
pub open spec fn orphan_files_spec(storage_dir: Seq<char>, names: Seq<Seq<char>>, state: State) -> Seq<Seq<char>>
    decreases names.len(),
{
    if names.len() == 0 {
        seq![]
    } else {
        let rest = orphan_files_spec(storage_dir, names.drop_last(), state);
        let n = names.last();
        if is_suffix(".AppImage"@, n) && !path_referenced(state, join_path(storage_dir, n)) { rest.push(n) } else { rest }
    }
}

fn referenced_exec(state: &State, path: &[char]) -> (r: bool)
    ensures
        r == path_referenced(*state, path@),
{
    let mut i: usize = 0;
    while i < state.apps.len()
        invariant
            i <= state.apps@.len(),
            forall|j: int| 0 <= j < i ==> crate::config::opt_view(#[trigger] state.apps@[j].state.file_path) != Some(path@),
        decreases state.apps@.len() - i,
    {
        match &state.apps[i].state.file_path {
            Some(p) => {
                if eq(&chars_of_string(p), path) {
                    return true;
                }
            },
            None => {},
        }
        i = i + 1;
    }
    false
}

/// The files (names in `storage_dir`, as listed) to delete when cleaning up: AppImages
/// that no cached state refers to.
pub fn orphan_appimage_files(storage_dir: &str, file_names: &[String], state: &State) -> (r: Vec<String>)
    ensures
        strings_view(r@) == orphan_files_spec(storage_dir@, strings_view(file_names@), *state),
{
    let ghost names = strings_view(file_names@);
    let mut out: Vec<String> = Vec::new();
    let mut i: usize = 0;
    while i < file_names.len()
        invariant
            i <= file_names.len(),
            names == strings_view(file_names@),
            strings_view(out@) == orphan_files_spec(storage_dir@, names.take(i as int), *state),
        decreases file_names.len() - i,
    {
        proof {
            assert(names.take(i + 1).drop_last() =~= names.take(i as int));
            assert(names.take(i + 1).last() == file_names@[i as int]@);
        }
        let name = chars_of_string(&file_names[i]);
        if ends_with(&name, &lit(".AppImage")) {
            let full = join_path_exec(storage_dir, file_names[i].as_str());
            if !referenced_exec(state, &chars_of_string(&full)) {
                let ghost before = strings_view(out@);
                out.push(file_names[i].clone());
                assert(strings_view(out@) =~= before.push(file_names@[i as int]@));
            }
        }
        i = i + 1;
    }
    assert(names.take(file_names.len() as int) =~= names);
    out
}


/// The installed state cleared, what was learned about downloads kept.
pub open spec fn cleared_state(st: AppStateView) -> AppStateView {
    AppStateView {
        local_version: None,
        etag: None,
        last_modified: None,
        file_path: None,
        sanitized_name: None,
        rate_limited_until: None,
        ..st
    }
}

/// Records a removed application: an orphan, or one without a recipe, is forgotten;
/// a configured one keeps its entry with the installed state cleared.
pub fn record_removal(states: &mut StateManager, name: &str, is_orphan: bool, configured: bool)
    requires
        old(states).cached().wf(),
    ensures
        final(states).cached().wf(),
        final(states).cache_path() == old(states).cache_path(),
        final(states).cached()@ == if is_orphan || !configured {
            removed(old(states).cached()@, name@)
        } else {
            match lookup(old(states).cached()@, name@) {
                Some(st) => written(old(states).cached()@, name@, cleared_state(st)),
                None => old(states).cached()@,
            }
        },
{
    if is_orphan || !configured {
        states.remove_app(name);
    } else if states.get_app(name).is_some() {
        let state = states.get_app_mut(name);
        clear_installed_state(state);
    }
}

} // verus!
