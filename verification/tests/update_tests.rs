use fp_appimage_updater::update::heuristics::estimate_download_bytes;
use fp_appimage_updater::update::forced_update_info;
use fp_appimage_updater::config::{AppConfig, CheckMethod, StrategyConfig};
use fp_appimage_updater::resolvers::UpdateInfo;
use fp_appimage_updater::state::AppState;
use fp_appimage_updater::update::queue::{DownloadQueues, ProviderDownloadScheduler};
use fp_appimage_updater::update::types::UpdateDownloadJob;
use fp_appimage_updater::output::types::{UpdateApp, UpdateStatus};
use fp_appimage_updater::update::heuristics::should_retry_download_error;
use fp_appimage_updater::state::{State, StateManager};
use fp_appimage_updater::parser::AppConfigLoadError;
use fp_appimage_updater::update::report::{
    download_failed, record_installed, report_config_error, report_integration_failure, report_work_result,
    update_check_finished,
};
use fp_appimage_updater::update::types::{UpdateErrorStage, UpdateWorkResult};
use fp_appimage_updater::update::{checks_to_start, next_loop_step, LoopStep, count_status, download_uses_segments, effective_show_all, filter_update_apps, record_installed_update};

#[test]
fn show_all_is_enabled_by_either_config_or_cli_flag() {
    assert!(effective_show_all(true, false));
    assert!(effective_show_all(false, true));
    assert!(effective_show_all(true, true));
    assert!(!effective_show_all(false, false));
}

fn job(name: &str, bytes: Option<u64>, provider: &str, retry: bool) -> UpdateDownloadJob {
    UpdateDownloadJob {
        app: AppConfig {
            config_dir: String::new(),
            name: name.to_string(),
            ignore: None,
            zsync: None,
            integration: None,
            create_symlink: None,
            segmented_downloads: None,
            respect_rate_limits: None,
            github_proxy: None,
            github_proxy_prefix: None,
            storage_dir: None,
            naming_format: None,
            inner_asset_match: None,
            strategy: StrategyConfig::Direct { url: "https://x".to_string(), check_method: CheckMethod::Etag },
        },
        state: AppState::default(),
        from_version: None,
        current_path: None,
        info: UpdateInfo { download_url: "https://x".to_string(), version: "1".to_string(), new_etag: None, new_last_modified: None },
        capabilities: Vec::new(),
        segmented_downloads: None,
        estimated_download_bytes: bytes,
        provider: provider.to_string(),
        forge_repository: None,
        forge_platform: None,
        retry_without_segmented_downloads: retry,
    }
}

fn drain(q: &mut DownloadQueues, allow_large: bool) -> Vec<String> {
    let mut out = Vec::new();
    while let Some(j) = q.pop_next(allow_large) {
        out.push(j.app.name);
    }
    out
}

#[test]
fn small_downloads_come_first_in_size_order() {
    let mut q = DownloadQueues::new();
    assert!(q.is_empty());
    q.push(job("big", Some(100), "b", false));
    q.push(job("unknown", None, "a", false));
    q.push(job("small", Some(10), "z", false));
    q.push(job("small-a", Some(10), "a", false));
    q.push(job("huge", Some(600 * 1024 * 1024), "a", false));
    q.push(job("retry", Some(1), "a", true));
    assert_eq!(q.len(), 6);
    assert_eq!(drain(&mut q, false), vec!["small-a", "small", "big", "unknown"]);
    assert_eq!(drain(&mut q, true), vec!["huge", "retry"]);
    assert!(q.is_empty());
}

#[test]
fn equal_keys_keep_arrival_order() {
    let mut q = DownloadQueues::new();
    q.push(job("first", Some(5), "p", false));
    q.push(job("second", Some(5), "p", false));
    assert_eq!(drain(&mut q, false), vec!["first", "second"]);
}

#[test]
fn provider_slots_respect_limits_and_release_restores() {
    let mut s = ProviderDownloadScheduler::new();
    assert!(s.try_acquire("github", 10));
    assert!(s.try_acquire("github", 10));
    assert!(s.try_acquire("github", 10));
    assert!(!s.try_acquire("github", 10));
    assert!(s.try_acquire("example.com", 10));
    assert!(s.try_acquire("example.com", 10));
    assert!(!s.try_acquire("example.com", 10));
    s.release("github");
    assert!(s.try_acquire("github", 10));
    assert!(!s.try_acquire("other", 5));
    s.release("nobody");
    assert!(s.try_acquire("other", 5));
}

#[test]
fn segments_setting_precedence() {
    assert!(download_uses_segments(Some(true), Some(false), false, false));
    assert!(!download_uses_segments(None, Some(false), true, false));
    assert!(download_uses_segments(None, None, true, false));
    assert!(!download_uses_segments(Some(true), Some(true), true, true));
}

#[test]
fn installed_update_is_recorded() {
    let mut state = AppState { etag: Some("old".to_string()), rate_limited_until: Some(9), ..AppState::default() };
    record_installed_update(&mut state, "2.0".to_string(), None, Some("today".to_string()), "/p/a.AppImage".to_string(), 77);
    assert_eq!(state.local_version, Some("2.0".to_string()));
    assert_eq!(state.etag, Some("old".to_string()));
    assert_eq!(state.last_modified, Some("today".to_string()));
    assert_eq!(state.rate_limited_until, None);
    assert_eq!(state.file_path, Some("/p/a.AppImage".to_string()));
    assert_eq!(state.download_bytes, Some(77));
}

#[test]
fn retryable_transport_errors_are_detected() {
    let err = "protocol: chunk length cannot be read as a number";
    assert!(should_retry_download_error(err));
}

#[test]
fn update_results_hide_up_to_date_apps_by_default() {
    let apps = vec![
        UpdateApp {
            name: "updated".to_string(),
            status: UpdateStatus::Updated,
            from_version: Some("1.0.0".to_string()),
            to_version: Some("1.1.0".to_string()),
            path: Some("/tmp/updated.AppImage".to_string()),
            rate_limited_until: None,
            duration_millis: Some(1500),
            error: None,
        },
        UpdateApp {
            name: "current".to_string(),
            status: UpdateStatus::UpToDate,
            from_version: Some("1.1.0".to_string()),
            to_version: None,
            path: Some("/tmp/current.AppImage".to_string()),
            rate_limited_until: None,
            duration_millis: None,
            error: None,
        },
        UpdateApp {
            name: "failed".to_string(),
            status: UpdateStatus::Error,
            from_version: Some("1.0.0".to_string()),
            to_version: Some("1.1.0".to_string()),
            path: None,
            rate_limited_until: None,
            duration_millis: None,
            error: Some("boom".to_string()),
        },
    ];

    let filtered = filter_update_apps(&apps, false);
    assert_eq!(filtered.len(), 2);
    assert!(filtered.iter().all(|app| !matches!(app.status, UpdateStatus::UpToDate)));

    let show_all = filter_update_apps(&apps, true);
    assert_eq!(show_all.len(), 3);
}

#[test]
fn filtered_results_keep_order_and_fields() {
    let apps = vec![
        UpdateApp { name: "a".to_string(), status: UpdateStatus::UpToDate, from_version: None, to_version: None, path: None, rate_limited_until: None, duration_millis: None, error: None },
        UpdateApp { name: "b".to_string(), status: UpdateStatus::RateLimited, from_version: None, to_version: None, path: None, rate_limited_until: Some(99), duration_millis: None, error: None },
        UpdateApp { name: "c".to_string(), status: UpdateStatus::Updated, from_version: None, to_version: Some("2".to_string()), path: None, rate_limited_until: None, duration_millis: Some(7), error: None },
    ];
    let shown = filter_update_apps(&apps, false);
    let names: Vec<&str> = shown.iter().map(|a| a.name.as_str()).collect();
    assert_eq!(names, vec!["b", "c"]);
    assert_eq!(shown[0].rate_limited_until, Some(99));
    assert_eq!(shown[1].to_version, Some("2".to_string()));
    assert_eq!(shown[1].duration_millis, Some(7));
    assert!(filter_update_apps(&[], false).is_empty());
}

#[test]
fn startable_jobs_fill_free_slots_and_keep_the_rest() {
    let mut q = DownloadQueues::new();
    q.push(job("a", Some(1), "github", false));
    q.push(job("b", Some(2), "github", false));
    q.push(job("c", Some(3), "example.com", false));
    let mut s = ProviderDownloadScheduler::new();
    let started = q.take_startable(0, 2, &mut s);
    let names: Vec<String> = started.iter().map(|j| j.app.name.clone()).collect();
    assert_eq!(names, vec!["a".to_string(), "b".to_string()]);
    assert_eq!(q.len(), 1);
    let none = q.take_startable(2, 2, &mut s);
    assert!(none.is_empty());
    assert_eq!(q.len(), 1);
}

#[test]
fn download_size_estimate_prefers_recorded_size() {
    let recorded = AppState { download_bytes: Some(10), ..AppState::default() };
    assert_eq!(estimate_download_bytes(&recorded, Some(99)), Some(10));
    assert_eq!(estimate_download_bytes(&AppState::default(), Some(99)), Some(99));
    assert_eq!(estimate_download_bytes(&AppState::default(), None), None);
}

#[test]
fn forced_update_needs_url_version_and_app() {
    let info = forced_update_info(Some("app"), Some("https://x/a.AppImage"), Some("0.9")).unwrap().unwrap();
    assert_eq!(info.download_url, "https://x/a.AppImage");
    assert_eq!(info.version, "0.9");
    assert!(forced_update_info(Some("app"), None, None).unwrap().is_none());
    assert_eq!(
        forced_update_info(None, Some("u"), Some("v")).err().unwrap(),
        "debug downgrade requires specifying an app name"
    );
    assert_eq!(
        forced_update_info(Some("app"), Some("u"), None).err().unwrap(),
        "debug downgrade requires both --debug-download-url and --debug-version"
    );
}

#[test]
fn finished_work_is_reported_and_recorded() {
    let mut manager = StateManager::new("/tmp/c.json".to_string(), State::new());
    let current = UpdateWorkResult::UpToDate {
        name: "app".to_string(),
        from_version: None,
        path: Some("/apps/app.AppImage".to_string()),
        elapsed: 10,
        capabilities: vec!["b".to_string(), "a".to_string(), "b".to_string()],
        segmented_downloads: Some(true),
        forge_repository: None,
        forge_platform: None,
    };
    let report = report_work_result(&mut manager, current, false, true, 100).ok().expect("reported");
    assert_eq!(report.row.status, UpdateStatus::UpToDate);
    assert_eq!(report.row.path.as_deref(), Some("/apps/app.AppImage"));
    assert_eq!(report.status_message.as_deref(), Some("app is already up to date (unknown)"));
    assert!(report.warnings.is_empty());
    let state = manager.get_app("app").expect("cached");
    assert_eq!(state.capabilities, vec!["a".to_string(), "b".to_string()]);
    assert_eq!(state.segmented_downloads, Some(true));

    let limited = UpdateWorkResult::RateLimited {
        name: "app".to_string(),
        from_version: Some("1.0".to_string()),
        path: None,
        elapsed: 5,
        rate_limited_until: Some(190),
    };
    let report = report_work_result(&mut manager, limited, false, false, 100).ok().expect("reported");
    assert_eq!(report.row.status, UpdateStatus::RateLimited);
    assert_eq!(report.row.rate_limited_until, Some(190));
    assert_eq!(report.warnings, vec!["Skipping app (Rate limited. Retry in 1m.)".to_string()]);
    assert!(report.rate_limited);
    assert_eq!(manager.get_app("app").expect("cached").rate_limited_until, Some(190));

    let failed = UpdateWorkResult::Error {
        stage: UpdateErrorStage::Download,
        name: "other".to_string(),
        from_version: None,
        to_version: Some("2.0".to_string()),
        path: None,
        elapsed: 1,
        capabilities: Vec::new(),
        segmented_downloads: None,
        rate_limited_until: None,
        error: "boom".to_string(),
        forge_repository: Some("https://github.com/o/r".to_string()),
        forge_platform: None,
        retry_job: None,
    };
    let report = report_work_result(&mut manager, failed, true, false, 100).ok().expect("reported");
    assert_eq!(report.row.status, UpdateStatus::Error);
    assert_eq!(report.row.error.as_deref(), Some("boom"));
    assert!(report.warnings.is_empty());
    assert_eq!(
        manager.get_app("other").expect("cached").forge_repository.as_deref(),
        Some("https://github.com/o/r")
    );
}

#[test]
fn work_that_installs_is_handed_back() {
    let mut manager = StateManager::new("/tmp/c.json".to_string(), State::new());
    let retried = UpdateWorkResult::Error {
        stage: UpdateErrorStage::Download,
        name: "app".to_string(),
        from_version: None,
        to_version: None,
        path: None,
        elapsed: 1,
        capabilities: Vec::new(),
        segmented_downloads: None,
        rate_limited_until: None,
        error: "reset".to_string(),
        forge_repository: None,
        forge_platform: None,
        retry_job: Some(job("app", Some(10), "github", true)),
    };
    match report_work_result(&mut manager, retried, false, false, 0) {
        Err(UpdateWorkResult::Error { retry_job: Some(j), .. }) => assert!(j.retry_without_segmented_downloads),
        _ => panic!("a retried download is handed back"),
    }
    assert!(manager.get_app("app").is_none());
}

#[test]
fn failure_messages_name_the_stage() {
    let mut manager = StateManager::new("/tmp/c.json".to_string(), State::new());
    let failed = UpdateWorkResult::Error {
        stage: UpdateErrorStage::Check,
        name: "app".to_string(),
        from_version: None,
        to_version: None,
        path: None,
        elapsed: 1,
        capabilities: Vec::new(),
        segmented_downloads: None,
        rate_limited_until: Some(7),
        error: "404".to_string(),
        forge_repository: None,
        forge_platform: None,
        retry_job: None,
    };
    let report = report_work_result(&mut manager, failed, false, false, 0).ok().expect("reported");
    assert_eq!(report.warnings, vec!["Error checking updates for app: 404".to_string()]);
    assert_eq!(manager.get_app("app").expect("cached").rate_limited_until, Some(7));
}

#[test]
fn summary_counts_each_status() {
    let row = |status: UpdateStatus| UpdateApp {
        name: "a".to_string(),
        status,
        from_version: None,
        to_version: None,
        path: None,
        rate_limited_until: None,
        duration_millis: None,
        error: None,
    };
    let rows = vec![row(UpdateStatus::Updated), row(UpdateStatus::Error), row(UpdateStatus::Updated), row(UpdateStatus::UpToDate)];
    assert_eq!(count_status(&rows, UpdateStatus::Updated), 2);
    assert_eq!(count_status(&rows, UpdateStatus::UpToDate), 1);
    assert_eq!(count_status(&rows, UpdateStatus::RateLimited), 0);
    assert_eq!(count_status(&rows, UpdateStatus::Error), 1);
}

#[test]
fn transient_download_failures_are_retried_once_without_segments() {
    let first = download_failed(job("app", Some(5), "github", false), "connection reset by peer", 12);
    match first {
        UpdateWorkResult::Error { error, retry_job: Some(retry), elapsed, to_version, .. } => {
            assert_eq!(error, "Download failed: connection reset by peer");
            assert!(retry.retry_without_segmented_downloads);
            assert_eq!(elapsed, 12);
            assert_eq!(to_version.as_deref(), Some("1"));
        }
        _ => panic!("a transient failure is retried"),
    }
    match download_failed(job("app", Some(5), "github", true), "connection reset by peer", 12) {
        UpdateWorkResult::Error { retry_job: None, .. } => {}
        _ => panic!("a retry is not retried again"),
    }
    match download_failed(job("app", Some(5), "github", false), "404 Not Found", 12) {
        UpdateWorkResult::Error { retry_job: None, .. } => {}
        _ => panic!("a lasting failure is not retried"),
    }
}

#[test]
fn update_checks_end_in_one_of_four_ways() {
    let app = job("app", None, "x", false).app;
    let state = AppState { local_version: Some("1.0".to_string()), ..AppState::default() };
    match update_check_finished(app.clone(), state.clone(), Err(("HTTP 429".to_string(), Some(50))), 3) {
        UpdateWorkResult::RateLimited { rate_limited_until, from_version, .. } => {
            assert_eq!(rate_limited_until, Some(50));
            assert_eq!(from_version.as_deref(), Some("1.0"));
        }
        _ => panic!("an error with a deadline is a rate limit"),
    }
    match update_check_finished(app.clone(), state.clone(), Err(("boom".to_string(), None)), 3) {
        UpdateWorkResult::Error { error, .. } => assert_eq!(error, "boom"),
        _ => panic!("an error without a deadline is a failed check"),
    }
}

#[test]
fn installed_updates_are_recorded() {
    let mut manager = StateManager::new("/tmp/c.json".to_string(), State::new());
    manager.get_app_mut("app").rate_limited_until = Some(99);
    manager.get_app_mut("app").etag = Some("old".to_string());
    let info = UpdateInfo {
        download_url: "https://x/app".to_string(),
        version: "2.0".to_string(),
        new_etag: None,
        new_last_modified: Some("today".to_string()),
    };
    let row = record_installed(
        &mut manager,
        "app".to_string(),
        Some("1.0".to_string()),
        info,
        "/apps/app-2.0.AppImage".to_string(),
        1500,
        4096,
        vec!["segmented_downloads".to_string()],
        None,
        None,
        None,
    );
    assert_eq!(row.status, UpdateStatus::Updated);
    assert_eq!(row.to_version.as_deref(), Some("2.0"));
    assert_eq!(row.duration_millis, Some(1500));
    let state = manager.get_app("app").expect("cached");
    assert_eq!(state.local_version.as_deref(), Some("2.0"));
    assert_eq!(state.etag.as_deref(), Some("old"));
    assert_eq!(state.last_modified.as_deref(), Some("today"));
    assert_eq!(state.file_path.as_deref(), Some("/apps/app-2.0.AppImage"));
    assert_eq!(state.download_bytes, Some(4096));
    assert_eq!(state.rate_limited_until, None);
    assert_eq!(state.capabilities, vec!["segmented_downloads".to_string()]);
}

#[test]
fn failed_installations_are_reported_for_rollback() {
    let mut manager = StateManager::new("/tmp/c.json".to_string(), State::new());
    manager.get_app_mut("app").local_version = Some("1.0".to_string());
    let report = report_integration_failure(
        &mut manager,
        "app".to_string(),
        Some("1.0".to_string()),
        "2.0".to_string(),
        "/apps/app-2.0.AppImage".to_string(),
        Vec::new(),
        None,
        None,
        None,
        "permission denied",
        false,
    );
    assert_eq!(report.row.status, UpdateStatus::Error);
    assert_eq!(report.row.error.as_deref(), Some("Integration failed: permission denied"));
    assert_eq!(
        report.warnings,
        vec![
            "Integration failed for app: permission denied".to_string(),
            "Rolling back app to its previous state...".to_string(),
        ]
    );
    assert_eq!(manager.get_app("app").expect("cached").local_version.as_deref(), Some("1.0"));
}

#[test]
fn unreadable_recipes_are_reported_by_name_or_path() {
    let err = AppConfigLoadError { path: "/cfg/apps/x.yml".to_string(), app_name: None, message: "bad yaml".to_string() };
    let report = report_config_error(&err, false);
    assert_eq!(report.row.name, "/cfg/apps/x.yml");
    assert_eq!(report.row.error.as_deref(), Some("Failed to parse app config at /cfg/apps/x.yml: bad yaml"));
    assert_eq!(report.warnings.len(), 1);
    let named = AppConfigLoadError { app_name: Some("x".to_string()), ..err };
    let quiet = report_config_error(&named, true);
    assert_eq!(quiet.row.name, "x");
    assert!(quiet.warnings.is_empty());
}

#[test]
fn the_update_loop_retries_only_when_everything_else_is_done() {
    assert_eq!(next_loop_step(1, 0, 0, 2), LoopStep::Wait);
    assert_eq!(next_loop_step(0, 0, 1, 2), LoopStep::Wait);
    assert_eq!(next_loop_step(0, 0, 0, 2), LoopStep::StartRetryRound);
    assert_eq!(next_loop_step(0, 0, 0, 0), LoopStep::Finish);
    assert_eq!(checks_to_start(1, 4, 10), 3);
    assert_eq!(checks_to_start(1, 4, 2), 2);
    assert_eq!(checks_to_start(5, 4, 2), 0);
}
