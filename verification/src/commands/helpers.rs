//! Per-application settings resolved against the global configuration, and the
//! bookkeeping shared by `check` and `update`.
use crate::config::{opt_view, strings_view, AppConfig, GithubProxyPrefixes, GlobalConfig, StrategyConfig};
use crate::resolvers::{dedupe_capabilities, opt_str};
use crate::state::{empty_app_state, lookup, written, AppState, AppStateView, StateManager};
use crate::text::{
    chars_of, chars_of_string, eq_ignore_ascii_case, is_prefix, is_ws, lit, lower, starts_with, string_of, strictly_sorted,
    trim, trim_end, trim_exec, trim_start,
};
use vstd::prelude::*;

verus! {

/// At most this many checks run at once.
pub const MAX_CONCURRENT_CHECK_JOBS: usize = 3;

/// At most this many downloads run at once.
pub const MAX_CONCURRENT_DOWNLOADS: usize = 6;

/// A check that takes at most this long (in nanoseconds) is fast.
pub const FAST_JOB_NANOS: u128 = 2000000000;

/// A check that takes at least this long (in nanoseconds) is slow.
pub const SLOW_JOB_NANOS: u128 = 15000000000;

/// Seconds since the Unix epoch by the system clock, zero if the clock is before it.
/// Nothing is claimed of the value: it is the time.
#[verifier::external_body]
pub fn now_epoch_seconds() -> u64 {
    std::time::SystemTime::now().duration_since(std::time::UNIX_EPOCH).map(|d| d.as_secs()).unwrap_or(0)
}

/// Whether rate limits are respected for `app`: its own setting, else the global one.
pub fn rate_limit_enabled(app: &AppConfig, global: &GlobalConfig) -> (r: bool)
    ensures
        r == match app.respect_rate_limits {
            Some(b) => b,
            None => global.respect_rate_limits,
        },
{
    match app.respect_rate_limits {
        Some(b) => b,
        None => global.respect_rate_limits,
    }
}

/// Whether the GitHub proxy is used for `app`: its own setting, else the global one.
pub fn github_proxy_enabled(app: &AppConfig, global: &GlobalConfig) -> (r: bool)
    ensures
        r == match app.github_proxy {
            Some(b) => b,
            None => global.github_proxy,
        },
{
    match app.github_proxy {
        Some(b) => b,
        None => global.github_proxy,
    }
}

/// The proxy prefixes that `all` stands for.
pub open spec fn all_proxy_prefixes() -> Seq<Seq<char>> {
    seq!["https://gh-proxy.com/"@, "https://corsproxy.io/?"@, "https://api.allorigins.win/raw?url="@]
}

/// A configured prefix that means every supported proxy.
pub open spec fn means_all(p: Seq<char>) -> bool {
    lower(trim(p)) == lower("all"@)
}

/// The configured prefixes trimmed, without empty ones, in order.
pub open spec fn trimmed_prefixes(ps: Seq<Seq<char>>) -> Seq<Seq<char>>
    decreases ps.len(),
{
    if ps.len() == 0 {
        seq![]
    } else {
        let rest = trimmed_prefixes(ps.drop_last());
        if trim(ps.last()).len() > 0 { rest.push(trim(ps.last())) } else { rest }
    }
}

/// The proxy prefixes for an application: every supported one when any configured
/// prefix says `all`, else the configured ones trimmed, empty ones left out.
pub open spec fn proxy_prefixes_spec(configured: Seq<Seq<char>>) -> Seq<Seq<char>> {
    if exists|i: int| 0 <= i < configured.len() && means_all(#[trigger] configured[i]) {
        all_proxy_prefixes()
    } else {
        trimmed_prefixes(configured)
    }
}

/// The proxy prefixes configured for `app` (its own, else the global ones).
pub open spec fn configured_prefixes(app: AppConfig, global: GlobalConfig) -> Seq<Seq<char>> {
    match app.github_proxy_prefix {
        Some(p) => p.prefixes(),
        None => global.github_proxy_prefix.prefixes(),
    }
}

/// The GitHub proxy prefixes to try for `app`, in order.
pub fn github_proxy_prefixes(app: &AppConfig, global: &GlobalConfig) -> (r: Vec<String>)
    ensures
        strings_view(r@) == proxy_prefixes_spec(configured_prefixes(*app, *global)),
{
    let prefixes = match &app.github_proxy_prefix {
        Some(p) => p.duplicate().into_vec(),
        None => global.github_proxy_prefix.duplicate().into_vec(),
    };
    let ghost cfg = strings_view(prefixes@);
    let mut out: Vec<String> = Vec::new();
    let mut i: usize = 0;
    while i < prefixes.len()
        invariant
            i <= prefixes.len(),
            cfg == strings_view(prefixes@),
            cfg == configured_prefixes(*app, *global),
            strings_view(out@) == trimmed_prefixes(cfg.take(i as int)),
            forall|j: int| 0 <= j < i ==> !means_all(#[trigger] cfg[j]),
        decreases prefixes.len() - i,
    {
        let t = trim_exec(&chars_of(prefixes[i].as_str()));
        proof {
            assert(cfg[i as int] == prefixes@[i as int]@);
            assert(cfg.take(i + 1).drop_last() =~= cfg.take(i as int));
            assert(cfg.take(i + 1).last() == cfg[i as int]);
        }
        if eq_ignore_ascii_case(&t, &lit("all")) {
            proof {
                assert(means_all(cfg[i as int]));
                reveal_strlit("https://gh-proxy.com/");
            }
            let mut all: Vec<String> = Vec::new();
            all.push(String::from_str("https://gh-proxy.com/"));
            all.push(String::from_str("https://corsproxy.io/?"));
            all.push(String::from_str("https://api.allorigins.win/raw?url="));
            assert(strings_view(all@) =~= all_proxy_prefixes());
            return all;
        }
        if t.len() > 0 {
            let ghost before = strings_view(out@);
            out.push(string_of(&t));
            assert(strings_view(out@) =~= before.push(t@));
        }
        i = i + 1;
    }
    assert(cfg.take(prefixes.len() as int) =~= cfg);
    proof {
        assert(!exists|k: int| 0 <= k < cfg.len() && means_all(#[trigger] cfg[k]));
    }
    out
}

/// Unless a prefix is configured, the GitHub metadata goes through
/// `https://gh-proxy.com/` alone: the application has none of its own and the global
/// setting is the default one.
pub proof fn law_default_proxy_prefix(app: AppConfig, global: GlobalConfig)
    requires
        app.github_proxy_prefix is None,
        global.github_proxy_prefix.prefixes() == seq!["https://gh-proxy.com/"@],
    ensures
        proxy_prefixes_spec(configured_prefixes(app, global)) == seq!["https://gh-proxy.com/"@],
{
    let p = "https://gh-proxy.com/"@;
    reveal_strlit("https://gh-proxy.com/");
    reveal_strlit("all");
    let cfg = configured_prefixes(app, global);
    assert(cfg == seq![p]);
    assert(!is_ws(p[0]) && !is_ws(p.last()));
    assert(trim_start(p) == p);
    assert(trim_end(p) == p);
    assert(trim(p) == p);
    assert(lower(trim(p)).len() == 21);
    assert(lower("all"@).len() == 3);
    assert(!means_all(cfg[0]));
    assert(cfg.drop_last() =~= Seq::<Seq<char>>::empty());
    assert(trimmed_prefixes(cfg.drop_last()) == Seq::<Seq<char>>::empty());
    assert(cfg.last() == p);
    assert(trim(cfg.last()).len() > 0);
    assert(trimmed_prefixes(cfg) =~= seq![p]);
}

/// Whether `app` is resolved from a GitHub repository.
pub open spec fn uses_github_forge_spec(app: AppConfig) -> bool {
    match app.strategy {
        StrategyConfig::Forge { repository, .. } => is_prefix("https://github.com/"@, repository@),
        _ => false,
    }
}

/// Whether `app` is resolved from a GitHub repository.
pub fn app_uses_github_forge(app: &AppConfig) -> (r: bool)
    ensures
        r == uses_github_forge_spec(*app),
{
    match &app.strategy {
        StrategyConfig::Forge { repository, .. } => starts_with(&chars_of(repository.as_str()), &lit("https://github.com/")),
        _ => false,
    }
}

/// Whether `app` is skipped by `check` and `update`.
pub fn app_is_ignored(app: &AppConfig) -> (r: bool)
    ensures
        r == (app.ignore == Some(true)),
{
    match app.ignore {
        Some(b) => b,
        None => false,
    }
}

/// The rate-limit deadline once `now` is reached: a deadline at or before `now` is over.
pub open spec fn unexpired(until: Option<u64>, now: u64) -> Option<u64> {
    match until {
        Some(u) => if u <= now { None } else { Some(u) },
        None => None,
    }
}

/// Forgets a rate-limit deadline that has passed.
pub fn clear_expired_rate_limit(state: &mut AppState, now: u64)
    ensures
        final(state)@ == (AppStateView { rate_limited_until: unexpired(old(state).rate_limited_until, now), ..old(state)@ }),
{
    match state.rate_limited_until {
        Some(until) => {
            if until <= now {
                state.rate_limited_until = None;
            }
        },
        None => {},
    }
}

/// A copy of the cached state of `app_name` with expired deadlines cleared; the cache
/// gets an empty entry for an application it did not know, and keeps the cleared deadline.
pub fn snapshot_app_state(state_manager: &mut StateManager, app_name: &str, now: u64) -> (r: AppState)
    requires
        old(state_manager).cached().wf(),
    ensures
        ({
            let before = match lookup(old(state_manager).cached()@, app_name@) {
                Some(st) => st,
                None => empty_app_state(),
            };
            let after = AppStateView { rate_limited_until: unexpired(before.rate_limited_until, now), ..before };
            &&& r@ == after
            &&& final(state_manager).cached()@ == written(old(state_manager).cached()@, app_name@, after)
            &&& final(state_manager).cached().wf()
        }),
{
    let state = state_manager.get_app_mut(app_name);
    clear_expired_rate_limit(state, now);
    state.duplicate()
}

/// The note shown after a rate limit.
pub fn rate_limit_note() -> (r: &'static str)
    ensures
        r@ == "Rate limit hit. Set respect_rate_limits: false globally or per app to keep trying."@,
{
    "Rate limit hit. Set respect_rate_limits: false globally or per app to keep trying."
}

/// The worker count after a check that took `elapsed_nanos`: one more when it was fast
/// and work is waiting, one fewer when it was slow, always between 1 and `hard_max`.
pub open spec fn adapted_workers(current: nat, elapsed_nanos: nat, pending: nat, hard_max: nat) -> nat {
    let next = if elapsed_nanos <= FAST_JOB_NANOS && pending > current && current < hard_max {
        current + 1
    } else if elapsed_nanos >= SLOW_JOB_NANOS && current > 1 {
        (current - 1) as nat
    } else {
        current
    };
    if next < 1 { 1 } else if next > hard_max { hard_max } else { next }
}

/// Adapts the number of check workers to how long the last check took.
pub fn adapt_worker_limit(current: usize, elapsed_nanos: u128, pending: usize, hard_max: usize) -> (r: usize)
    requires
        hard_max >= 1,
    ensures
        r == adapted_workers(current as nat, elapsed_nanos as nat, pending as nat, hard_max as nat),
        1 <= r <= hard_max,
{
    let mut next = current;
    if elapsed_nanos <= FAST_JOB_NANOS && pending > current && next < hard_max {
        next = next + 1;
    } else if elapsed_nanos >= SLOW_JOB_NANOS && next > 1 {
        next = next - 1;
    }
    if next < 1 {
        1
    } else if next > hard_max {
        hard_max
    } else {
        next
    }
}

/// Records what a resolver learned: the capabilities (sorted, without duplicates),
/// segmented-download support when known, and the forge repository and platform.
pub fn cache_app_metadata(
    state: &mut AppState,
    capabilities: Vec<String>,
    segmented_downloads: Option<bool>,
    forge_repository: Option<String>,
    forge_platform: Option<crate::state::ForgePlatform>,
)
    ensures
        strictly_sorted(final(state)@.capabilities),
        forall|x: Seq<char>| final(state)@.capabilities.contains(x) <==> strings_view(capabilities@).contains(x),
        final(state)@.segmented_downloads == match segmented_downloads {
            Some(b) => Some(b),
            None => old(state)@.segmented_downloads,
        },
        final(state)@.forge_repository == opt_view(forge_repository),
        final(state)@.forge_platform == forge_platform,
        final(state)@.local_version == old(state)@.local_version,
        final(state)@.etag == old(state)@.etag,
        final(state)@.last_modified == old(state)@.last_modified,
        final(state)@.file_path == old(state)@.file_path,
        final(state)@.sanitized_name == old(state)@.sanitized_name,
        final(state)@.rate_limited_until == old(state)@.rate_limited_until,
        final(state)@.download_bytes == old(state)@.download_bytes,
{
    let mut capabilities = capabilities;
    dedupe_capabilities(&mut capabilities);
    state.capabilities = capabilities;
    match segmented_downloads {
        Some(b) => {
            state.segmented_downloads = Some(b);
        },
        None => {},
    }
    state.forge_repository = forge_repository;
    state.forge_platform = forge_platform;
}

/// Whether an application named `app_name` is the one the command targets (every
/// application when no target is given).
pub fn matches_target(target: Option<&str>, app_name: Option<&str>) -> (r: bool)
    ensures
        r == match target {
            Some(t) => opt_str(app_name) == Some(t@),
            None => true,
        },
{
    match target {
        Some(t) => match app_name {
            Some(n) => crate::text::eq(&chars_of(n), &chars_of(t)),
            None => false,
        },
        None => true,
    }
}

} // verus!
