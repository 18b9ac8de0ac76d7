//! The `check` command's decisions: which applications are skipped for a rate limit,
//! what each check reports, and what is cached from it.
use crate::commands::helpers::{cache_app_metadata, rate_limit_enabled};
use crate::config::{copy_opt_string, opt_view, strings_view, AppConfig, GlobalConfig, ZsyncConfig};
use crate::output::types::{CheckApp, CheckStatus};
use crate::parser::AppConfigLoadError;
use crate::resolvers::{dedupe_capabilities, CheckResult};
use crate::state::{law_read_after_write, lookup, unique_names, written, AppState, AppStateView, StateManager};
use crate::update::report::{cached_or_empty, metadata_cached};
use crate::text::{cat, cat3, chars_of_string, lit, string_of, strictly_sorted};
use vstd::prelude::*;

verus! {

/// What one check worker reports; `elapsed` is in nanoseconds.
pub enum CheckWorkResult {
    Checked { app: CheckApp, elapsed: u128, cache_capabilities: Vec<String>, segmented_downloads: Option<bool> },
    RateLimited { app: CheckApp, elapsed: u128, rate_limited_until: Option<u64> },
    Failed { app: CheckApp, elapsed: u128 },
}

/// An application is skipped while its rate limit lasts, if rate limits are respected
/// for it: its own setting, else the global one.
pub open spec fn skip_for_rate_limit_spec(app: AppConfig, global: GlobalConfig, until: Option<u64>, now: u64) -> bool {
    let respect = match app.respect_rate_limits { Some(b) => b, None => global.respect_rate_limits };
    &&& respect
    &&& (until matches Some(u) && u > now)
}

/// Whether `app` is skipped for now because of a rate limit recorded until `until`.
pub fn skip_for_rate_limit(app: &AppConfig, global: &GlobalConfig, until: Option<u64>, now: u64) -> (r: bool)
    ensures
        r == skip_for_rate_limit_spec(*app, *global, until, now),
{
    let active = match until {
        Some(u) => u > now,
        None => false,
    };
    rate_limit_enabled(app, global) && active
}

/// Skipping never outlasts the limit: once `now` has reached the recorded time, or
/// when rate limits are not respected, the application is checked.
pub proof fn law_rate_limit_skip_ends(app: AppConfig, global: GlobalConfig, until: u64, now: u64)
    requires
        now >= until,
    ensures
        !skip_for_rate_limit_spec(app, global, Some(until), now),
        !skip_for_rate_limit_spec(app, global, None, now),
{
}

/// A rate limit recorded in the cache (as a rate-limited check or update records it)
/// keeps the application from being checked until the deadline, when rate limits are
/// respected for it.
pub proof fn law_rate_limit_skips_until_deadline(
    app: AppConfig,
    global: GlobalConfig,
    cache: Seq<(Seq<char>, AppStateView)>,
    until: u64,
    now: u64,
)
    requires
        unique_names(cache),
        now < until,
        match app.respect_rate_limits {
            Some(b) => b,
            None => global.respect_rate_limits,
        },
    ensures
        ({
            let recorded = written(
                cache,
                app.name@,
                AppStateView { rate_limited_until: Some(until), ..cached_or_empty(cache, app.name@) },
            );
            lookup(recorded, app.name@) matches Some(st) && skip_for_rate_limit_spec(app, global, st.rate_limited_until, now)
        }),
{
    let st = AppStateView { rate_limited_until: Some(until), ..cached_or_empty(cache, app.name@) };
    law_read_after_write(cache, app.name@, st, app.name@);
}

/// The row of an application skipped for a rate limit.
pub fn rate_limited_check_app(name: &str, state: &AppState) -> (r: CheckApp)
    ensures
        r.name@ == name@,
        r.status == CheckStatus::RateLimited,
        opt_view(r.local_version) == state@.local_version,
        r.remote_version is None && r.download_url is None && r.error is None,
        r.rate_limited_until == state.rate_limited_until,
        strings_view(r.capabilities@) == state@.capabilities,
{
    CheckApp {
        name: String::from_str(name),
        status: CheckStatus::RateLimited,
        local_version: crate::config::copy_opt_string(&state.local_version),
        remote_version: None,
        download_url: None,
        rate_limited_until: state.rate_limited_until,
        capabilities: crate::config::copy_strings(&state.capabilities),
        error: None,
    }
}

/// Whether delta updates are configured.
pub open spec fn zsync_configured(z: Option<ZsyncConfig>) -> bool {
    match z {
        Some(ZsyncConfig::Enabled(b)) => b,
        Some(ZsyncConfig::Url(_)) => true,
        None => false,
    }
}

/// What a finished check reports. `failure` is the error message and the time a rate
/// limit lasts until, when the lookup failed.
pub fn check_work_result(
    app: &AppConfig,
    local_version: Option<String>,
    outcome: Result<CheckResult, (String, Option<u64>)>,
    elapsed: u128,
) -> (r: CheckWorkResult)
    ensures
        match outcome {
            Ok(c) => r matches CheckWorkResult::Checked { app: row, elapsed: e, cache_capabilities, segmented_downloads } && {
                &&& e == elapsed
                &&& cache_capabilities == c.capabilities
                &&& segmented_downloads == c.segmented_downloads
                &&& row.name@ == app.name@
                &&& row.local_version == local_version
                &&& row.rate_limited_until is None && row.error is None
                &&& strictly_sorted(strings_view(row.capabilities@))
                &&& (forall|x: Seq<char>| strings_view(row.capabilities@).contains(x) <==> (strings_view(c.capabilities@).contains(x)
                    || (zsync_configured(app.zsync) && x == "zsync"@)))
                &&& match c.update {
                    Some(u) => row.status == CheckStatus::UpdateAvailable && row.remote_version == Some(u.version)
                        && row.download_url == Some(u.download_url),
                    None => row.status == CheckStatus::UpToDate && row.remote_version is None && row.download_url is None,
                }
            },
            Err((msg, until)) => match until {
                Some(u) => r matches CheckWorkResult::RateLimited { app: row, elapsed: e, rate_limited_until } && {
                    &&& e == elapsed && rate_limited_until == Some(u)
                    &&& row.name@ == app.name@ && row.status == CheckStatus::RateLimited
                    &&& row.local_version == local_version && row.rate_limited_until == Some(u)
                    &&& row.remote_version is None && row.download_url is None && row.error is None
                    &&& row.capabilities@.len() == 0
                },
                None => r matches CheckWorkResult::Failed { app: row, elapsed: e } && {
                    &&& e == elapsed
                    &&& row.name@ == app.name@ && row.status == CheckStatus::Error
                    &&& row.local_version == local_version && row.error == Some(msg)
                    &&& row.remote_version is None && row.download_url is None && row.rate_limited_until is None
                    &&& row.capabilities@.len() == 0
                },
            },
        },
{
    match outcome {
        Ok(c) => {
            let mut capabilities = crate::config::copy_strings(&c.capabilities);
            let zsync = match &app.zsync {
                Some(ZsyncConfig::Enabled(b)) => *b,
                Some(ZsyncConfig::Url(_)) => true,
                None => false,
            };
            let ghost before = strings_view(capabilities@);
            if zsync {
                capabilities.push(String::from_str("zsync"));
                proof {
                    crate::text::lemma_push_contains(before, "zsync"@);
                    assert(strings_view(capabilities@) =~= before.push("zsync"@));
                }
            }
            dedupe_capabilities(&mut capabilities);
            let CheckResult { update, capabilities: cache_capabilities, segmented_downloads, .. } = c;
            let row = match update {
                Some(info) => CheckApp {
                    name: app.name.clone(),
                    status: CheckStatus::UpdateAvailable,
                    local_version,
                    remote_version: Some(info.version),
                    download_url: Some(info.download_url),
                    rate_limited_until: None,
                    capabilities,
                    error: None,
                },
                None => CheckApp {
                    name: app.name.clone(),
                    status: CheckStatus::UpToDate,
                    local_version,
                    remote_version: None,
                    download_url: None,
                    rate_limited_until: None,
                    capabilities,
                    error: None,
                },
            };
            CheckWorkResult::Checked { app: row, elapsed, cache_capabilities, segmented_downloads }
        },
        Err((msg, until)) => match until {
            Some(u) => CheckWorkResult::RateLimited {
                app: CheckApp {
                    name: app.name.clone(),
                    status: CheckStatus::RateLimited,
                    local_version,
                    remote_version: None,
                    download_url: None,
                    rate_limited_until: Some(u),
                    capabilities: Vec::new(),
                    error: None,
                },
                elapsed,
                rate_limited_until: Some(u),
            },
            None => CheckWorkResult::Failed {
                app: CheckApp {
                    name: app.name.clone(),
                    status: CheckStatus::Error,
                    local_version,
                    remote_version: None,
                    download_url: None,
                    rate_limited_until: None,
                    capabilities: Vec::new(),
                    error: Some(msg),
                },
                elapsed,
            },
        },
    }
}

/// The message for a recipe that could not be loaded.
pub open spec fn config_error_message(path: Seq<char>, message: Seq<char>) -> Seq<char> {
    "Failed to parse app config at "@ + path + ": "@ + message
}

/// The row for a recipe that could not be loaded: named by the recipe's name when it
/// could be read, else by its path.
pub fn config_error_check_app(err: &AppConfigLoadError) -> (r: CheckApp)
    ensures
        r.name@ == match err.app_name { Some(n) => n@, None => err.path@ },
        r.status == CheckStatus::Error,
        r.error matches Some(m) && m@ == config_error_message(err.path@, err.message@),
        r.local_version is None && r.remote_version is None && r.download_url is None,
        r.rate_limited_until is None && r.capabilities@.len() == 0,
{
    let name = match &err.app_name {
        Some(n) => n.clone(),
        None => err.path.clone(),
    };
    let msg = cat3(&lit("Failed to parse app config at "), &chars_of_string(&err.path), &cat(&lit(": "), &chars_of_string(&err.message)));
    CheckApp {
        name,
        status: CheckStatus::Error,
        local_version: None,
        remote_version: None,
        download_url: None,
        rate_limited_until: None,
        capabilities: Vec::new(),
        error: Some(string_of(&msg)),
    }
}


/// Records a finished check in the state cache: a check that got through caches the
/// capabilities and segmented-download support it learnt (the forge stays as cached);
/// a rate limit records its deadline when it named one; a failure records nothing.
/// Gives back the report row, the time the check took, and whether it was a rate limit.
pub fn record_check_work(states: &mut StateManager, result: CheckWorkResult) -> (r: (CheckApp, u128, bool))
    requires
        old(states).cached().wf(),
    ensures
        final(states).cached().wf(),
        final(states).cache_path() == old(states).cache_path(),
        match result {
            CheckWorkResult::Checked { app, elapsed, cache_capabilities, segmented_downloads } => {
                let before = cached_or_empty(old(states).cached()@, app.name@);
                &&& r == (app, elapsed, false)
                &&& exists|after: AppStateView|
                    metadata_cached(
                        before,
                        after,
                        strings_view(cache_capabilities@),
                        segmented_downloads,
                        before.forge_repository,
                        before.forge_platform,
                    ) && after.rate_limited_until == before.rate_limited_until && final(states).cached()@
                        == written(old(states).cached()@, app.name@, after)
            },
            CheckWorkResult::RateLimited { app, elapsed, rate_limited_until } => {
                let before = cached_or_empty(old(states).cached()@, app.name@);
                &&& r == (app, elapsed, true)
                &&& final(states).cached()@ == written(
                    old(states).cached()@,
                    app.name@,
                    match rate_limited_until {
                        Some(u) => AppStateView { rate_limited_until: Some(u), ..before },
                        None => before,
                    },
                )
            },
            CheckWorkResult::Failed { app, elapsed } => r == (app, elapsed, false) && final(states).cached()
                == old(states).cached(),
        },
{
    match result {
        CheckWorkResult::Checked { app, elapsed, cache_capabilities, segmented_downloads } => {
            let ghost caps = strings_view(cache_capabilities@);
            let state = states.get_app_mut(app.name.as_str());
            let repository = copy_opt_string(&state.forge_repository);
            let platform = state.forge_platform;
            let ghost before = state@;
            cache_app_metadata(state, cache_capabilities, segmented_downloads, repository, platform);
            let ghost after = state@;
            proof {
                assert(metadata_cached(before, after, caps, segmented_downloads, before.forge_repository, before.forge_platform));
            }
            (app, elapsed, false)
        },
        CheckWorkResult::RateLimited { app, elapsed, rate_limited_until } => {
            let state = states.get_app_mut(app.name.as_str());
            match rate_limited_until {
                Some(u) => {
                    state.rate_limited_until = Some(u);
                },
                None => {},
            }
            (app, elapsed, true)
        },
        CheckWorkResult::Failed { app, elapsed } => (app, elapsed, false),
    }
}

} // verus!
