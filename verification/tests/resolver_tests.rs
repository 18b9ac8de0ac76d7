use fp_appimage_updater::config::CheckMethod;
use fp_appimage_updater::resolvers::direct::direct_check_result;
use fp_appimage_updater::resolvers::script::{parse_script_output, script_check_result, script_failure_message};
use fp_appimage_updater::resolvers::{
    capability_from_header_value, dedupe_capabilities, rate_limit_info_from_header_values, RateLimitInfo,
};
use fp_appimage_updater::state::AppState;

#[test]
fn capabilities_are_sorted_and_unique() {
    let mut caps = vec!["zsync".to_string(), "etag".to_string(), "zsync".to_string(), "a".to_string()];
    dedupe_capabilities(&mut caps);
    assert_eq!(caps, vec!["a".to_string(), "etag".to_string(), "zsync".to_string()]);
    assert_eq!(capability_from_header_value("segmented_downloads", Some(" BYTES ")), Some("segmented_downloads".to_string()));
    assert_eq!(capability_from_header_value("segmented_downloads", Some("none")), None);
    assert_eq!(capability_from_header_value("segmented_downloads", None), None);
}

#[test]
fn rate_limits_from_headers() {
    assert_eq!(rate_limit_info_from_header_values(None, None, None, 100), None);
    assert_eq!(
        rate_limit_info_from_header_values(Some("30"), Some("999"), None, 100),
        Some(RateLimitInfo { reset_at: Some(130), retry_after_seconds: None })
    );
    assert_eq!(
        rate_limit_info_from_header_values(None, Some(" 999 "), Some("5"), 100),
        Some(RateLimitInfo { reset_at: Some(999), retry_after_seconds: Some(5) })
    );
    let info = RateLimitInfo { reset_at: Some(100 + 2 * 3600 + 15 * 60), retry_after_seconds: None };
    assert_eq!(info.until_epoch_seconds(100), Some(100 + 2 * 3600 + 15 * 60));
    assert_eq!(info.short_message(100), "Rate limited. Retry in 2h 15m.");
    let soon = RateLimitInfo { reset_at: None, retry_after_seconds: Some(42) };
    assert_eq!(soon.short_message(0), "Rate limited. Retry in 42s.");
    let unknown = RateLimitInfo { reset_at: None, retry_after_seconds: None };
    assert_eq!(unknown.short_message(0), "Rate limited. Retry later.");
}

#[test]
fn direct_downloads_follow_their_validator() {
    let state = AppState { etag: Some("abc".to_string()), local_version: Some("abc".to_string()), ..AppState::default() };
    let same = direct_check_result("https://x/a", CheckMethod::Etag, Some("bytes"), Some("\"abc\""), None, Some(&state)).unwrap();
    assert!(same.update.is_none());
    assert_eq!(same.capabilities, vec!["etag".to_string(), "segmented_downloads".to_string()]);
    let changed = direct_check_result("https://x/a", CheckMethod::Etag, None, Some("\"def\""), None, Some(&state)).unwrap();
    let info = changed.update.unwrap();
    assert_eq!(info.version, "def");
    assert_eq!(info.new_etag, Some("def".to_string()));
    assert_eq!(info.download_url, "https://x/a");
    match direct_check_result("https://x/a", CheckMethod::LastModified, None, Some("x"), None, None) {
        Err(e) => assert_eq!(e, "Last-Modified check requested but missing"),
        Ok(_) => panic!("expected a missing header to fail"),
    }
    let fresh = direct_check_result("u", CheckMethod::LastModified, None, None, Some("Tue"), None).unwrap();
    assert_eq!(fresh.update.unwrap().new_last_modified, Some("Tue".to_string()));
}

#[test]
fn script_failure_reports_full_context() {
    let message = script_failure_message("broken-script", Some(42), "./resolver.sh", "/cfg", "  ", "oops");
    assert!(message.contains("Resolver script for 'broken-script' failed"));
    assert!(message.contains("exit: 42"));
    assert!(message.contains("stdout:\n<empty>"));
    assert!(message.contains("stderr:\noops"));
    assert!(script_failure_message("s", None, "p", "c", "", "").contains("terminated by signal"));
}

#[test]
fn script_output_is_url_then_version() {
    assert_eq!(
        parse_script_output("a", "s", "c", " https://x/a.AppImage \n 1.2 \nextra"),
        Ok(("https://x/a.AppImage".to_string(), "1.2".to_string()))
    );
    assert_eq!(
        parse_script_output("a", "s", "c", ""),
        Err("Script did not output a download URL on the first line".to_string())
    );
    assert_eq!(
        parse_script_output("a", "s", "c", "https://x\n"),
        Err("Script did not output a version on the second line".to_string())
    );
    assert_eq!(
        parse_script_output("a", "s", "c", "  \n1.0\n"),
        Err("Resolver script for 'a' returned an empty download URL.\nscript: s\ncwd: c".to_string())
    );
    let r = script_check_result("https://x".to_string(), "1.0".to_string(), Some(Some("bytes")), None);
    assert_eq!(r.segmented_downloads, Some(true));
    assert_eq!(r.capabilities, vec!["segmented_downloads".to_string()]);
    let r = script_check_result("https://x".to_string(), "1.0".to_string(), None, None);
    assert_eq!(r.segmented_downloads, None);
    assert!(r.update.is_some());
}
