use fp_appimage_updater::commands::remove::{
    clear_installed_state, orphan_appimage_files, record_removal, removal_summary, removal_targets,
};
use fp_appimage_updater::config::{AppConfig, CheckMethod, StrategyConfig};
use fp_appimage_updater::integrator::legacy_desktop_asset_names;
use fp_appimage_updater::output::types::{RemoveApp, RemoveStatus};
use fp_appimage_updater::state::{AppEntry, AppState, ForgePlatform, State, StateManager};

#[test]
fn clearing_installed_state_keeps_download_history() {
    let mut state = AppState {
        local_version: Some("1.2.3".to_string()),
        etag: Some("abc".to_string()),
        last_modified: Some("yesterday".to_string()),
        file_path: Some("/tmp/app.AppImage".to_string()),
        sanitized_name: Some("app".to_string()),
        rate_limited_until: Some(123),
        capabilities: vec!["segmented_downloads".to_string()],
        segmented_downloads: Some(true),
        forge_repository: Some("repo".to_string()),
        forge_platform: Some(ForgePlatform::GitHub),
        download_bytes: Some(42),
    };

    clear_installed_state(&mut state);

    assert_eq!(state.local_version, None);
    assert_eq!(state.etag, None);
    assert_eq!(state.last_modified, None);
    assert_eq!(state.file_path, None);
    assert_eq!(state.sanitized_name, None);
    assert_eq!(state.rate_limited_until, None);
    assert_eq!(state.download_bytes, Some(42));
    assert_eq!(state.capabilities, vec!["segmented_downloads".to_string()]);
    assert_eq!(state.segmented_downloads, Some(true));
    assert_eq!(state.forge_repository, Some("repo".to_string()));
    assert_eq!(state.forge_platform, Some(ForgePlatform::GitHub));
}

fn app(name: &str, url: &str) -> AppConfig {
    AppConfig {
        config_dir: String::new(),
        name: name.to_string(),
        ignore: None,
        zsync: None,
        integration: None,
        create_symlink: None,
        segmented_downloads: None,
        respect_rate_limits: None,
        github_proxy: None,
        github_proxy_prefix: None,
        storage_dir: None,
        naming_format: None,
        inner_asset_match: None,
        strategy: StrategyConfig::Direct { url: url.to_string(), check_method: CheckMethod::Etag },
    }
}

#[test]
fn legacy_desktop_asset_names_include_old_variants() {
    let app = app("My App", "https://example.com/My.AppImage");
    let state = AppState { sanitized_name: Some("old-app".to_string()), ..AppState::default() };

    let names = legacy_desktop_asset_names(&app, Some(&state), "my-app");

    assert_eq!(names, vec!["My App".to_string(), "old-app".to_string()]);
}

#[test]
fn test_dummy_app_config_for_orphans() {
    let target_name = "orphaned-app".to_string();
    let dummy_app = app(&target_name, "https://example.com/My.AppImage");
    assert_eq!(dummy_app.name, "orphaned-app");
}

#[test]
fn legacy_desktop_asset_names_do_not_block_sanitized_removal() {
    let app = app("linux toys", "https://example.com/linux-toys.AppImage");
    let names = legacy_desktop_asset_names(&app, None, "linux-toys");
    assert_eq!(names, vec!["linux toys".to_string()]);
}

fn names(v: &[&str]) -> Vec<String> {
    v.iter().map(|s| s.to_string()).collect()
}

#[test]
fn removal_targets_follow_the_request() {
    let config = names(&["a", "b"]);
    let state = names(&["a", "ghost", "b", "old"]);
    assert_eq!(
        removal_targets(&config, &state, None, false, true),
        Ok(vec![("ghost".to_string(), true), ("old".to_string(), true)])
    );
    assert_eq!(removal_targets(&config, &state, Some("old"), false, true), Ok(vec![("old".to_string(), true)]));
    assert_eq!(
        removal_targets(&config, &state, Some("a"), false, true),
        Err("App 'a' is not an orphaned application in state cache.".to_string())
    );
    assert_eq!(
        removal_targets(&config, &names(&["a"]), None, false, true),
        Err("No orphaned applications found to remove.".to_string())
    );
    assert_eq!(
        removal_targets(&config, &state, None, true, false),
        Ok(vec![("a".to_string(), false), ("b".to_string(), false)])
    );
    assert_eq!(removal_targets(&config, &state, Some("zzz"), false, false), Ok(vec![("zzz".to_string(), false)]));
    assert_eq!(
        removal_targets(&config, &state, None, false, false),
        Err("Please provide an application name to remove, or use --all or --orphan.".to_string())
    );
}

#[test]
fn removal_summary_counts_outcomes() {
    let results = vec![
        RemoveApp { name: "a".to_string(), status: RemoveStatus::Removed, error: None },
        RemoveApp { name: "b".to_string(), status: RemoveStatus::NotFound, error: None },
        RemoveApp { name: "c".to_string(), status: RemoveStatus::Removed, error: None },
        RemoveApp { name: "d".to_string(), status: RemoveStatus::Error, error: Some("x".to_string()) },
    ];
    assert_eq!(removal_summary(&results), "summary: 2 removed, 1 missing, 1 failed");
    assert_eq!(removal_summary(&[]), "summary: 0 removed, 0 missing, 0 failed");
}

#[test]
fn orphan_appimages_are_the_unreferenced_ones() {
    let mut state = State::new();
    state.apps.push(AppEntry {
        name: "kept-app".to_string(),
        state: AppState { file_path: Some("/s/AppImages/kept.AppImage".to_string()), ..AppState::default() },
    });
    let names = vec!["kept.AppImage".to_string(), "notes.txt".to_string(), "orphan.AppImage".to_string()];
    assert_eq!(orphan_appimage_files("/s/AppImages", &names, &state), vec!["orphan.AppImage".to_string()]);
    assert_eq!(orphan_appimage_files("/s/AppImages/", &names, &state), vec!["orphan.AppImage".to_string()]);
    assert!(orphan_appimage_files("/s/AppImages", &[], &state).is_empty());
}

#[test]
fn removals_forget_orphans_and_clear_configured_apps() {
    let mut manager = StateManager::new("c.json".to_string(), State::new());
    manager.get_app_mut("kept").local_version = Some("1".to_string());
    manager.get_app_mut("kept").download_bytes = Some(10);
    manager.get_app_mut("orphan").local_version = Some("2".to_string());
    manager.get_app_mut("gone").local_version = Some("3".to_string());

    record_removal(&mut manager, "kept", false, true);
    let kept = manager.get_app("kept").expect("still cached");
    assert_eq!(kept.local_version, None);
    assert_eq!(kept.download_bytes, Some(10));

    record_removal(&mut manager, "orphan", true, false);
    assert!(manager.get_app("orphan").is_none());

    record_removal(&mut manager, "gone", false, false);
    assert!(manager.get_app("gone").is_none());
    assert!(manager.get_app("kept").is_some());

    record_removal(&mut manager, "never", false, true);
    assert!(manager.get_app("never").is_none());
}
