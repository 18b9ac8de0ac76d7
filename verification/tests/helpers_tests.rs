use fp_appimage_updater::config::{effective_github_token, ensure_safe_path_component};
use fp_appimage_updater::commands::helpers::{
    adapt_worker_limit, app_is_ignored, app_uses_github_forge, clear_expired_rate_limit,
    github_proxy_enabled, github_proxy_prefixes, matches_target, rate_limit_enabled,
    rate_limit_note, snapshot_app_state,
};
use fp_appimage_updater::config::{AppConfig, CheckMethod, GithubProxyPrefixes, GlobalConfig, StrategyConfig};
use fp_appimage_updater::state::{AppState, State, StateManager};

fn app_config(prefix: Option<GithubProxyPrefixes>) -> AppConfig {
    AppConfig {
        config_dir: String::new(),
        name: "demo".to_string(),
        ignore: None,
        zsync: None,
        integration: None,
        create_symlink: None,
        segmented_downloads: None,
        respect_rate_limits: None,
        github_proxy: None,
        github_proxy_prefix: prefix,
        storage_dir: None,
        naming_format: None,
        inner_asset_match: None,
        strategy: StrategyConfig::Direct {
            url: "https://example.com/file.AppImage".to_string(),
            check_method: CheckMethod::Etag,
        },
    }
}

#[test]
fn github_proxy_prefix_all_expands_to_all_supported_prefixes() {
    let app = app_config(Some(GithubProxyPrefixes::Single("all".to_string())));
    let global = GlobalConfig::default();

    let prefixes = github_proxy_prefixes(&app, &global);
    assert_eq!(
        prefixes,
        vec![
            "https://gh-proxy.com/".to_string(),
            "https://corsproxy.io/?".to_string(),
            "https://api.allorigins.win/raw?url=".to_string(),
        ]
    );
}

#[test]
fn github_proxy_prefix_all_in_array_expands_to_all_supported_prefixes() {
    let app = app_config(Some(GithubProxyPrefixes::Multiple(vec!["all".to_string()])));
    let global = GlobalConfig::default();

    let prefixes = github_proxy_prefixes(&app, &global);
    assert_eq!(
        prefixes,
        vec![
            "https://gh-proxy.com/".to_string(),
            "https://corsproxy.io/?".to_string(),
            "https://api.allorigins.win/raw?url=".to_string(),
        ]
    );
}

#[test]
fn configured_prefixes_are_trimmed_and_empty_ones_dropped() {
    let app = app_config(Some(GithubProxyPrefixes::Multiple(vec![
        "  https://a.example/ ".to_string(),
        "   ".to_string(),
        "https://b.example/".to_string(),
    ])));
    let prefixes = github_proxy_prefixes(&app, &GlobalConfig::default());
    assert_eq!(prefixes, vec!["https://a.example/".to_string(), "https://b.example/".to_string()]);
    let global_default = github_proxy_prefixes(&app_config(None), &GlobalConfig::default());
    assert_eq!(global_default, vec!["https://gh-proxy.com/".to_string()]);
    let upper = app_config(Some(GithubProxyPrefixes::Multiple(vec!["x".to_string(), " ALL ".to_string()])));
    assert_eq!(github_proxy_prefixes(&upper, &GlobalConfig::default()).len(), 3);
}

#[test]
fn per_app_settings_override_global_ones() {
    let mut app = app_config(None);
    let global = GlobalConfig::default();
    assert_eq!(rate_limit_enabled(&app, &global), global.respect_rate_limits);
    assert_eq!(github_proxy_enabled(&app, &global), global.github_proxy);
    app.respect_rate_limits = Some(!global.respect_rate_limits);
    app.github_proxy = Some(!global.github_proxy);
    assert_eq!(rate_limit_enabled(&app, &global), !global.respect_rate_limits);
    assert_eq!(github_proxy_enabled(&app, &global), !global.github_proxy);
    assert!(!app_is_ignored(&app));
    app.ignore = Some(true);
    assert!(app_is_ignored(&app));
}

#[test]
fn github_forge_apps_are_recognized_by_repository() {
    let mut app = app_config(None);
    assert!(!app_uses_github_forge(&app));
    app.strategy = StrategyConfig::Forge {
        repository: "https://github.com/o/r".to_string(),
        asset_match: "*".to_string(),
        asset_match_regex: None,
    };
    assert!(app_uses_github_forge(&app));
    app.strategy = StrategyConfig::Forge {
        repository: "https://gitlab.com/o/r".to_string(),
        asset_match: "*".to_string(),
        asset_match_regex: None,
    };
    assert!(!app_uses_github_forge(&app));
}

#[test]
fn expired_rate_limits_are_cleared() {
    let mut state = AppState { rate_limited_until: Some(100), ..AppState::default() };
    clear_expired_rate_limit(&mut state, 99);
    assert_eq!(state.rate_limited_until, Some(100));
    clear_expired_rate_limit(&mut state, 100);
    assert_eq!(state.rate_limited_until, None);
}

#[test]
fn snapshot_creates_and_cleans_the_cached_entry() {
    let mut manager = StateManager::new("/tmp/cache.json".to_string(), State::new());
    let snap = snapshot_app_state(&mut manager, "demo", 10);
    assert!(snap.local_version.is_none());
    assert!(manager.get_app("demo").is_some());
    manager.get_app_mut("demo").rate_limited_until = Some(5);
    let snap = snapshot_app_state(&mut manager, "demo", 10);
    assert_eq!(snap.rate_limited_until, None);
    assert_eq!(manager.get_app("demo").unwrap().rate_limited_until, None);
}

#[test]
fn worker_limit_adapts_to_job_duration() {
    assert_eq!(adapt_worker_limit(2, 1_000_000_000, 5, 3), 3);
    assert_eq!(adapt_worker_limit(3, 1_000_000_000, 5, 3), 3);
    assert_eq!(adapt_worker_limit(2, 1_000_000_000, 1, 3), 2);
    assert_eq!(adapt_worker_limit(3, 20_000_000_000, 5, 3), 2);
    assert_eq!(adapt_worker_limit(1, 20_000_000_000, 5, 3), 1);
    assert_eq!(adapt_worker_limit(0, 5_000_000_000, 0, 3), 1);
    assert_eq!(adapt_worker_limit(9, 5_000_000_000, 0, 3), 3);
}

#[test]
fn target_matching_and_note() {
    assert!(matches_target(None, None));
    assert!(matches_target(Some("a"), Some("a")));
    assert!(!matches_target(Some("a"), Some("b")));
    assert!(!matches_target(Some("a"), None));
    assert!(rate_limit_note().starts_with("Rate limit hit."));
}

#[test]
fn github_token_priority_is_environment_then_secrets_then_config() {
    assert_eq!(
        effective_github_token(Some("env"), Some("secret".to_string()), Some("config".to_string())),
        Some("env".to_string())
    );
    assert_eq!(effective_github_token(None, Some("secret".to_string()), Some("config".to_string())), Some("secret".to_string()));
    assert_eq!(effective_github_token(None, None, Some("config".to_string())), Some("config".to_string()));
    assert_eq!(effective_github_token(None, None, None), None);
}

#[test]
fn path_components_must_be_single() {
    assert_eq!(ensure_safe_path_component("whatpulse", "app name"), Ok(()));
    for bad in ["", ".", "..", "a/b", "/x"] {
        assert_eq!(
            ensure_safe_path_component(bad, "app name"),
            Err(format!("Invalid app name '{}': must be a single path component without separators", bad))
        );
    }
}
