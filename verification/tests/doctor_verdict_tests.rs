use fp_appimage_updater::config::{AppConfig, CheckMethod, StrategyConfig};
use fp_appimage_updater::doctor::{
    app_recipes_scan_check, cache_file_access_check, config_parse_check, desktop_check_paths, dir_access_check,
    display_path, general_check, github_api_check, lock_check, script_resolver_targets,
    script_resolvers_access_check, CacheFileFinding, DesktopAppFinding, DoctorStatus, ScriptAccess, ScriptFinding,
};
use fp_appimage_updater::lock::LockState;
use fp_appimage_updater::state::{AppEntry, AppState, State};

fn app(name: &str, dir: &str, integration: Option<bool>, strategy: StrategyConfig) -> AppConfig {
    AppConfig {
        config_dir: dir.to_string(),
        name: name.to_string(),
        ignore: None,
        zsync: None,
        integration,
        create_symlink: None,
        segmented_downloads: None,
        respect_rate_limits: None,
        github_proxy: None,
        github_proxy_prefix: None,
        storage_dir: None,
        naming_format: None,
        inner_asset_match: None,
        strategy,
    }
}

fn direct() -> StrategyConfig {
    StrategyConfig::Direct { url: "https://example.com/a.AppImage".to_string(), check_method: CheckMethod::Etag }
}

#[test]
fn home_directory_is_shown_as_tilde() {
    assert_eq!(display_path("/home/u/.local/share/applications", Some("/home/u")), "~/.local/share/applications");
    assert_eq!(display_path("/home/u", Some("/home/u/")), "~");
    assert_eq!(display_path("/home/u/", Some("/home/u")), "~");
    assert_eq!(display_path("/home/user2/x", Some("/home/u")), "/home/user2/x");
    assert_eq!(display_path("/etc/x", None), "/etc/x");
}

#[test]
fn directory_verdicts() {
    let ok = dir_access_check("config_dir_access", "~/.config/x", Some(true));
    assert_eq!(ok.name, "config_dir_access");
    assert_eq!(ok.status, DoctorStatus::Pass);
    assert_eq!(ok.detail, "exists and writable: ~/.config/x");
    let ro = dir_access_check("apps_dir_access", "/a", Some(false));
    assert_eq!(ro.status, DoctorStatus::Warn);
    assert_eq!(ro.detail, "exists but not writable: /a");
    let missing = dir_access_check("apps_dir_access", "/a", None);
    assert_eq!(missing.status, DoctorStatus::Warn);
    assert_eq!(missing.detail, "missing: /a");
}

#[test]
fn cache_file_verdicts() {
    let bad = cache_file_access_check("/s/state.json", &CacheFileFinding::InvalidJson("expected value".to_string()));
    assert_eq!(bad.name, "cache_file_access");
    assert_eq!(bad.status, DoctorStatus::Warn);
    assert_eq!(bad.detail, "invalid JSON at /s/state.json (expected value)");
    let fresh = cache_file_access_check("/s/state.json", &CacheFileFinding::Missing(Some(true)));
    assert_eq!(fresh.status, DoctorStatus::Pass);
    assert_eq!(fresh.detail, "missing, parent is writable: /s/state.json");
    let good = cache_file_access_check("/s/state.json", &CacheFileFinding::Valid);
    assert_eq!(good.detail, "exists, readable, and valid JSON: /s/state.json");
    let unknown = cache_file_access_check("/s", &CacheFileFinding::Missing(None));
    assert_eq!(unknown.status, DoctorStatus::Warn);
}

#[test]
fn config_and_recipe_verdicts() {
    let ok = config_parse_check("~/.config/fp", Ok(()));
    assert_eq!(ok.status, DoctorStatus::Pass);
    assert_eq!(ok.detail, "config and secrets parsed successfully from ~/.config/fp");
    let bad = config_parse_check("~/.config/fp", Err("bad yaml"));
    assert_eq!(bad.status, DoctorStatus::Warn);
    assert_eq!(bad.detail, "failed to load config from ~/.config/fp (bad yaml)");

    let scan = app_recipes_scan_check(Ok((2, 0)));
    assert_eq!(scan.status, DoctorStatus::Pass);
    assert_eq!(scan.detail, "2 valid recipe(s), 0 invalid recipe(s)");
    assert_eq!(app_recipes_scan_check(Ok((1, 1))).status, DoctorStatus::Warn);
    assert_eq!(app_recipes_scan_check(Ok((0, 0))).status, DoctorStatus::Warn);
    let failed = app_recipes_scan_check(Err("no dir"));
    assert_eq!(failed.detail, "failed to scan app recipes (no dir)");
}

#[test]
fn lock_verdicts() {
    let active = lock_check("/s/process.lock", Ok(&LockState::Active { pid: 42 }));
    assert_eq!(active.status, DoctorStatus::Pass);
    assert_eq!(active.detail, "active lock held by pid 42 at /s/process.lock");
    let stale = lock_check("/s/process.lock", Ok(&LockState::Stale { reason: "process 7 is not running".to_string() }));
    assert_eq!(stale.status, DoctorStatus::Warn);
    assert_eq!(stale.detail, "stale lock at /s/process.lock (process 7 is not running)");
    let missing = lock_check("/s/process.lock", Ok(&LockState::Missing));
    assert_eq!(missing.detail, "missing: /s/process.lock");
    let failed = lock_check("/s/process.lock", Err("denied"));
    assert_eq!(failed.detail, "failed to inspect /s/process.lock (denied)");
}

#[test]
fn github_api_verdicts() {
    let ok = github_api_check(true, Ok((Some("5000"), None)));
    assert_eq!(ok.status, DoctorStatus::Pass);
    assert_eq!(ok.detail, "working with token (limit: 5000, remaining: unknown)");
    let bad = github_api_check(false, Err("timeout"));
    assert_eq!(bad.status, DoctorStatus::Warn);
    assert_eq!(bad.detail, "failed without token (timeout)");
}

#[test]
fn general_verdict_lists_problems_in_order() {
    let findings = vec![
        DesktopAppFinding { shown: "~/Apps/a.AppImage".to_string(), executable: Some(true) },
        DesktopAppFinding { shown: "~/Apps/b.AppImage".to_string(), executable: None },
        DesktopAppFinding { shown: "~/Apps/c.AppImage".to_string(), executable: Some(false) },
    ];
    let warn = general_check(false, true, "/tmp", &findings);
    assert_eq!(warn.name, "general_check");
    assert_eq!(warn.status, DoctorStatus::Warn);
    assert_eq!(
        warn.detail,
        "HOME missing; installed desktop AppImage missing: ~/Apps/b.AppImage; installed desktop AppImage not executable: ~/Apps/c.AppImage"
    );
    let fine = general_check(true, true, "/tmp", &findings[..1]);
    assert_eq!(fine.status, DoctorStatus::Pass);
    assert_eq!(fine.detail, "HOME set, temp dir writable, desktop integrations checked: 1/1");
    let temp = general_check(true, false, "/tmp", &[]);
    assert_eq!(temp.detail, "temp dir unavailable: /tmp");
}

#[test]
fn desktop_checks_follow_integration_settings_and_state() {
    let apps = vec![
        app("a", "/c", None, direct()),
        app("b", "/c", Some(false), direct()),
        app("c", "/c", Some(true), direct()),
        app("d", "/c", None, direct()),
    ];
    let mut state = State::new();
    state.apps.push(AppEntry { name: "a".to_string(), state: AppState { file_path: Some("/x/a".to_string()), ..AppState::default() } });
    state.apps.push(AppEntry { name: "b".to_string(), state: AppState { file_path: Some("/x/b".to_string()), ..AppState::default() } });
    state.apps.push(AppEntry { name: "c".to_string(), state: AppState { file_path: Some("/x/c".to_string()), ..AppState::default() } });
    assert_eq!(desktop_check_paths(&apps, true, &state), vec!["/x/a".to_string(), "/x/c".to_string()]);
    assert_eq!(desktop_check_paths(&apps, false, &state), vec!["/x/c".to_string()]);
}

#[test]
fn script_verdict_reports_first_problem() {
    let apps = vec![
        app("s1", "/conf/apps", None, StrategyConfig::Script { script_path: "s1.sh".to_string() }),
        app("d", "/conf/apps", None, direct()),
        app("s2", "/conf/apps", None, StrategyConfig::Script { script_path: "/abs/s2.sh".to_string() }),
    ];
    let targets = script_resolver_targets(&apps);
    assert_eq!(
        targets,
        vec![("s1".to_string(), "/conf/apps/s1.sh".to_string()), ("s2".to_string(), "/abs/s2.sh".to_string())]
    );
    let findings = vec![
        ScriptFinding { app_name: "s1".to_string(), shown: "/conf/apps/s1.sh".to_string(), access: ScriptAccess::Ready },
        ScriptFinding { app_name: "s2".to_string(), shown: "/abs/s2.sh".to_string(), access: ScriptAccess::NotExecutable },
    ];
    let warn = script_resolvers_access_check(Some(&findings));
    assert_eq!(warn.status, DoctorStatus::Warn);
    assert_eq!(warn.detail, "script resolver for s2 is not executable: /abs/s2.sh");
    let ok = script_resolvers_access_check(Some(&findings[..1]));
    assert_eq!(ok.status, DoctorStatus::Pass);
    assert_eq!(ok.detail, "1 script resolver(s) accessible");
    let gone = ScriptFinding { app_name: "s".to_string(), shown: "/p".to_string(), access: ScriptAccess::Inaccessible("No such file".to_string()) };
    assert_eq!(script_resolvers_access_check(Some(&[gone])).detail, "script resolver for s is not accessible: /p (No such file)");
    let skipped = script_resolvers_access_check(None);
    assert_eq!(skipped.detail, "skipped because app recipes could not be loaded");
}
