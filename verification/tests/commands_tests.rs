use fp_appimage_updater::cli::{command_defs, InitStrategy};
use fp_appimage_updater::commands::check::{
    check_work_result, config_error_check_app, record_check_work, skip_for_rate_limit, CheckWorkResult,
};
use fp_appimage_updater::commands::list::{run as list_run, strategy_label};
use fp_appimage_updater::config::{AppConfig, CheckMethod, GlobalConfig, StrategyConfig, ZsyncConfig};
use fp_appimage_updater::initializer::{app_template, planned_files, script_template, write_decision, WriteDecision};
use fp_appimage_updater::output::types::{CheckApp, CheckStatus};
use fp_appimage_updater::parser::{recipe_load_error, AppConfigLoadError, ConfigPaths};
use fp_appimage_updater::resolvers::{CheckResult, UpdateInfo};
use fp_appimage_updater::state::{State, StateManager};
use fp_appimage_updater::validator::{
    unreadable_recipe, validate_app_configs, validate_recipe_text, ValidationResult, ValidationStatus,
};

fn app(name: &str, strategy: StrategyConfig) -> AppConfig {
    AppConfig {
        config_dir: String::new(),
        name: name.to_string(),
        ignore: None,
        zsync: None,
        integration: None,
        create_symlink: Some(false),
        segmented_downloads: None,
        respect_rate_limits: None,
        github_proxy: None,
        github_proxy_prefix: None,
        storage_dir: None,
        naming_format: None,
        inner_asset_match: None,
        strategy,
    }
}

fn direct() -> StrategyConfig {
    StrategyConfig::Direct { url: "https://x".to_string(), check_method: CheckMethod::Etag }
}

#[test]
fn init_strategy_names_ignore_case() {
    assert_eq!(InitStrategy::parse("Forge"), Ok(InitStrategy::Forge));
    assert_eq!(InitStrategy::parse("SCRIPT"), Ok(InitStrategy::Script));
    assert_eq!("direct".parse::<InitStrategy>(), Ok(InitStrategy::Direct));
    assert_eq!(InitStrategy::parse("zip"), Err("Invalid strategy: zip".to_string()));
    let defs = command_defs();
    assert_eq!(defs.len(), 9);
    assert_eq!(defs[0].name, "init");
    assert_eq!(defs[7].opts, vec!["--pre-release"]);
}

#[test]
fn init_plans_templates() {
    assert_eq!(
        app_template("demo", InitStrategy::Script),
        "name: demo\nstrategy:\n  strategy: script\n  script_path: ./demo/resolver.sh\n"
    );
    assert!(app_template("demo", InitStrategy::Direct).contains("url: \"https://example.org/demo.AppImage\""));
    assert!(script_template().starts_with("#!/usr/bin/env bash"));
    let files = planned_files("/c/config.yml", "/c/apps", false, Some("demo"), InitStrategy::Script);
    assert_eq!(files.len(), 2);
    assert_eq!(files[0].path, "/c/apps/demo.yml");
    assert_eq!(files[1].path, "/c/apps/demo/resolver.sh");
    assert!(files[1].executable);
    let files = planned_files("/c/config.yml", "/c/apps", false, None, InitStrategy::Direct);
    assert_eq!(files.len(), 1);
    assert!(files[0].content.is_none());
    assert_eq!(write_decision(true, false, false), WriteDecision::Skip);
    assert_eq!(write_decision(true, true, true), WriteDecision::RefuseDirectory);
    assert_eq!(write_decision(false, false, false), WriteDecision::Write);
}

#[test]
fn config_paths_follow_xdg() {
    let p = ConfigPaths::from_environment(None, Some("/state"), Some("/home/u"));
    assert_eq!(p.config_dir, "/home/u/.config/fp-appimage-updater");
    assert_eq!(p.state_dir, "/state/fp-appimage-updater");
    assert_eq!(p.global_config_path(), "/home/u/.config/fp-appimage-updater/config.yml");
    assert_eq!(p.apps_dir(), "/home/u/.config/fp-appimage-updater/apps");
    assert_eq!(p.cache_path(), "/state/fp-appimage-updater/cache.json");
    assert_eq!(p.lock_path(), "/state/fp-appimage-updater/process.lock");
    assert_eq!(p.secrets_path(), "/home/u/.config/fp-appimage-updater/secrets.yml");
}

fn result(name: Option<&str>, file: &str) -> ValidationResult {
    ValidationResult { app_name: name.map(|n| n.to_string()), file: file.to_string(), status: ValidationStatus::Valid, error: None }
}

#[test]
fn validation_reports_targets() {
    let (all, err) = validate_app_configs(true, vec![result(Some("a"), "a.yml"), result(None, "b.yml")], None);
    assert_eq!(all.len(), 2);
    assert!(err.is_none());
    let (one, err) = validate_app_configs(true, vec![result(Some("a"), "a.yml"), result(None, "b.yml")], Some("a"));
    assert_eq!(one.len(), 1);
    assert_eq!(one[0].file, "a.yml");
    assert!(err.is_none());
    let (none, err) = validate_app_configs(true, vec![result(Some("a"), "a.yml")], Some("z"));
    assert!(none.is_empty());
    assert_eq!(err, Some("App 'z' not found in configuration.".to_string()));
    let (none, err) = validate_app_configs(false, vec![result(Some("a"), "a.yml")], Some("a"));
    assert!(none.is_empty());
    assert_eq!(err, Some("App 'a' not found in configuration.".to_string()));
}

#[test]
fn list_reports_every_app() {
    let mut manager = StateManager::new("c.json".to_string(), State::new());
    manager.get_app_mut("b").local_version = Some("2.0".to_string());
    let apps = vec![app("a", direct()), app("b", StrategyConfig::Script { script_path: "s".to_string() })];
    let global = GlobalConfig::default();
    let r = list_run(&apps, &global, &manager);
    assert_eq!(r.command, "list");
    assert_eq!(r.apps.len(), 2);
    assert_eq!(r.apps[1].strategy, "Script");
    assert_eq!(r.apps[1].local_version, Some("2.0".to_string()));
    assert_eq!(r.apps[0].local_version, None);
    assert!(!r.apps[0].symlink);
    assert_eq!(r.apps[0].integration, global.manage_desktop_files);
    assert_eq!(strategy_label(&direct()), "Direct");
}

#[test]
fn rate_limited_apps_are_skipped_until_the_limit_passes() {
    let mut a = app("a", direct());
    a.respect_rate_limits = Some(true);
    let global = GlobalConfig::default();
    assert!(skip_for_rate_limit(&a, &global, Some(200), 100));
    assert!(!skip_for_rate_limit(&a, &global, Some(100), 100));
    assert!(!skip_for_rate_limit(&a, &global, None, 100));
    a.respect_rate_limits = Some(false);
    assert!(!skip_for_rate_limit(&a, &global, Some(200), 100));
    let mut gh = app("g", StrategyConfig::Forge { repository: "https://github.com/o/r".to_string(), asset_match: "*".to_string(), asset_match_regex: None });
    gh.respect_rate_limits = Some(true);
    gh.github_proxy = Some(true);
    assert!(skip_for_rate_limit(&gh, &global, Some(200), 100));
    assert!(!skip_for_rate_limit(&gh, &global, Some(100), 100));
}

#[test]
fn check_results_become_rows() {
    let mut a = app("a", direct());
    a.zsync = Some(ZsyncConfig::Enabled(true));
    let found = CheckResult {
        update: Some(UpdateInfo { download_url: "https://x/a".to_string(), version: "2".to_string(), new_etag: None, new_last_modified: None }),
        capabilities: vec!["segmented_downloads".to_string()],
        segmented_downloads: Some(true),
        forge_repository: None,
        forge_platform: None,
    };
    match check_work_result(&a, Some("1".to_string()), Ok(found), 5) {
        CheckWorkResult::Checked { app, elapsed, cache_capabilities, segmented_downloads } => {
            assert_eq!(app.status, CheckStatus::UpdateAvailable);
            assert_eq!(app.capabilities, vec!["segmented_downloads".to_string(), "zsync".to_string()]);
            assert_eq!(cache_capabilities, vec!["segmented_downloads".to_string()]);
            assert_eq!(segmented_downloads, Some(true));
            assert_eq!(elapsed, 5);
            assert_eq!(app.remote_version, Some("2".to_string()));
        },
        _ => panic!("expected a checked row"),
    }
    match check_work_result(&a, None, Err(("boom".to_string(), None)), 1) {
        CheckWorkResult::Failed { app, .. } => assert_eq!(app.error, Some("boom".to_string())),
        _ => panic!("expected a failed row"),
    }
    match check_work_result(&a, None, Err(("limited".to_string(), Some(99))), 1) {
        CheckWorkResult::RateLimited { rate_limited_until, .. } => assert_eq!(rate_limited_until, Some(99)),
        _ => panic!("expected a rate-limited row"),
    }
    let row = config_error_check_app(&AppConfigLoadError { path: "/c/apps/x.yml".to_string(), app_name: None, message: "bad".to_string() });
    assert_eq!(row.name, "/c/apps/x.yml");
    assert_eq!(row.error, Some("Failed to parse app config at /c/apps/x.yml: bad".to_string()));
}

fn check_row(name: &str, status: CheckStatus) -> CheckApp {
    CheckApp {
        name: name.to_string(),
        status,
        local_version: None,
        remote_version: None,
        download_url: None,
        rate_limited_until: None,
        capabilities: Vec::new(),
        error: None,
    }
}

#[test]
fn finished_checks_are_recorded_in_the_cache() {
    let mut manager = StateManager::new("c.json".to_string(), State::new());
    manager.get_app_mut("a").forge_repository = Some("https://github.com/o/a".to_string());
    let checked = CheckWorkResult::Checked {
        app: check_row("a", CheckStatus::UpToDate),
        elapsed: 7,
        cache_capabilities: vec!["z".to_string(), "m".to_string()],
        segmented_downloads: Some(false),
    };
    let (row, elapsed, limited) = record_check_work(&mut manager, checked);
    assert_eq!(row.name, "a");
    assert_eq!(elapsed, 7);
    assert!(!limited);
    let state = manager.get_app("a").expect("cached");
    assert_eq!(state.capabilities, vec!["m".to_string(), "z".to_string()]);
    assert_eq!(state.segmented_downloads, Some(false));
    assert_eq!(state.forge_repository.as_deref(), Some("https://github.com/o/a"));

    let limited_row = CheckWorkResult::RateLimited { app: check_row("b", CheckStatus::RateLimited), elapsed: 1, rate_limited_until: Some(500) };
    let (_, _, limited) = record_check_work(&mut manager, limited_row);
    assert!(limited);
    assert_eq!(manager.get_app("b").expect("cached").rate_limited_until, Some(500));

    let failed = CheckWorkResult::Failed { app: check_row("c", CheckStatus::Error), elapsed: 2 };
    let (_, _, limited) = record_check_work(&mut manager, failed);
    assert!(!limited);
    assert!(manager.get_app("c").is_none());
}

#[test]
fn a_recorded_rate_limit_skips_the_app_until_its_deadline() {
    let mut manager = StateManager::new("c.json".to_string(), State::new());
    let mut a = app("a", direct());
    a.respect_rate_limits = Some(true);
    let global = GlobalConfig::default();
    let limited = CheckWorkResult::RateLimited { app: check_row("a", CheckStatus::RateLimited), elapsed: 1, rate_limited_until: Some(300) };
    record_check_work(&mut manager, limited);
    let until = manager.get_app("a").expect("cached").rate_limited_until;
    assert!(skip_for_rate_limit(&a, &global, until, 299));
    assert!(!skip_for_rate_limit(&a, &global, until, 300));
}

#[test]
fn validator_infer_name_from_valid_yaml() {
    let yaml = "name: whatpulse\nstrategy:\n  strategy: direct\n  url: https://example.org/x.AppImage\n  check_method: etag\n";
    let r = validate_recipe_text("x.yml".to_string(), yaml, Err("missing field".to_string()));
    assert_eq!(r.app_name.as_deref(), Some("whatpulse"));
}

#[test]
fn invalid_recipes_are_named_by_their_declared_name() {
    let r = validate_recipe_text("a.yml".to_string(), "name: [1, 2]\n", Err("bad".to_string()));
    assert_eq!(r.app_name, None);
    assert_eq!(r.status, ValidationStatus::Invalid);
    assert_eq!(r.error.as_deref(), Some("bad"));
    let r = validate_recipe_text("a.yml".to_string(), "[unclosed", Err("bad".to_string()));
    assert_eq!(r.app_name, None);
    let r = validate_recipe_text("a.yml".to_string(), "name: ok\n", Ok("ok".to_string()));
    assert_eq!(r.status, ValidationStatus::Valid);
    assert_eq!(r.app_name.as_deref(), Some("ok"));
    let r = unreadable_recipe("b.yml".to_string(), "permission denied");
    assert_eq!(r.error.as_deref(), Some("Failed to read file: permission denied"));
    assert_eq!(r.app_name, None);
    let e = recipe_load_error("c.yml".to_string(), Some("name: hayase\nstrategy: 3\n"), "invalid type".to_string());
    assert_eq!(e.app_name.as_deref(), Some("hayase"));
    assert_eq!(e.message, "invalid type");
    let e = recipe_load_error("c.yml".to_string(), None, "unreadable".to_string());
    assert_eq!(e.app_name, None);
}
