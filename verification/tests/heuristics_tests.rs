use fp_appimage_updater::update::heuristics::{
    adapt_download_limit, adapt_worker_limit_for_speed, download_provider_key, is_large_download,
    is_rate_limit_error, retry_backoff_delay, should_retry_download_error, SpeedReading,
    LARGE_DOWNLOAD_BYTES, RETRY_MAX_DELAY, SCALE_DOWN_HYSTERESIS, VERY_LARGE_DOWNLOAD_BYTES,
};

#[test]
fn strips_port_from_provider_key() {
    assert_eq!(download_provider_key("https://github.com:443/foo/bar"), "github");
}

#[test]
fn github_raw_maps_to_github() {
    assert_eq!(
        download_provider_key("https://raw.githubusercontent.com/user/repo/file"),
        "github"
    );
}

#[test]
fn non_github_host_returned_as_is() {
    assert_eq!(
        download_provider_key("https://releases.example.com/app.AppImage"),
        "releases.example.com"
    );
}

#[test]
fn provider_key_lowercases_host_and_accepts_bare_hosts() {
    assert_eq!(download_provider_key("HTTPS://Downloads.Example.ORG:8080/x"), "downloads.example.org");
    assert_eq!(download_provider_key("example.net/file"), "example.net");
    assert_eq!(download_provider_key("https://objects.GitHubUserContent.com/a"), "github");
}

#[test]
fn retry_backoff_grows_exponentially() {
    let d0 = retry_backoff_delay(0);
    let d1 = retry_backoff_delay(1);
    let d2 = retry_backoff_delay(2);
    assert!(d1 > d0);
    assert!(d2 > d1);
}

#[test]
fn retry_backoff_caps_at_max() {
    assert_eq!(retry_backoff_delay(100), RETRY_MAX_DELAY);
}

#[test]
fn retry_backoff_exact_values() {
    assert_eq!(retry_backoff_delay(0), 2);
    assert_eq!(retry_backoff_delay(1), 4);
    assert_eq!(retry_backoff_delay(4), 32);
    assert_eq!(retry_backoff_delay(5), 60);
    assert_eq!(retry_backoff_delay(u32::MAX), 60);
}

#[test]
fn retry_backoff_never_shrinks_and_stays_capped() {
    let mut previous = 0;
    for attempt in 0..40u32 {
        let d = retry_backoff_delay(attempt);
        assert!(d >= previous);
        assert!(d <= RETRY_MAX_DELAY);
        previous = d;
    }
}

#[test]
fn rate_limit_not_treated_as_retryable_network_error() {
    let err = "HTTP 429 Too Many Requests";
    assert!(!should_retry_download_error(err));
    assert!(is_rate_limit_error(err));
}

#[test]
fn connection_reset_is_retryable() {
    assert!(should_retry_download_error("connection reset by peer"));
}

#[test]
fn os_error_104_is_retryable() {
    assert!(should_retry_download_error("os error 104"));
}

#[test]
fn retry_and_rate_limit_detection_ignore_letter_case() {
    assert!(should_retry_download_error("Operation TIMED OUT while reading"));
    assert!(is_rate_limit_error("Retry-After: 30"));
    assert!(!is_rate_limit_error("connection reset by peer"));
}

#[test]
fn large_download_threshold_is_half_a_gibibyte() {
    assert!(!is_large_download(None));
    assert!(!is_large_download(Some(536_870_911)));
    assert!(is_large_download(Some(536_870_912)));
}

// A sample of 80 MiB/s against the default 40 MiB/s fast threshold is twice as fast.
const TWICE_FAST: SpeedReading = SpeedReading::Fast { multiple: 2 };

#[test]
fn scales_up_proportionally_after_hysteresis() {
    let (count, fast, slow) = adapt_worker_limit_for_speed(2, TWICE_FAST, 5, 8, 0, 0);
    assert_eq!(count, 2, "should not scale on first fast tick");
    assert_eq!(fast, 1);
    assert_eq!(slow, 0);

    let (count2, fast2, _) = adapt_worker_limit_for_speed(2, TWICE_FAST, 5, 8, fast, slow);
    assert!(count2 > 2, "should scale up after hysteresis met");
    assert_eq!(fast2, 0, "fast counter resets after scaling");
}

#[test]
fn scales_down_only_after_slow_hysteresis() {
    // 1 MiB/s is below the slow threshold.
    let (c1, f1, s1) = adapt_worker_limit_for_speed(4, SpeedReading::Slow, 2, 8, 0, 0);
    assert_eq!(c1, 4);
    let (c2, _, s2) = adapt_worker_limit_for_speed(4, SpeedReading::Slow, 2, 8, f1, s1);
    assert_eq!(c2, 4);
    let (c3, _, _) = adapt_worker_limit_for_speed(4, SpeedReading::Slow, 2, 8, 0, s2);
    assert_eq!(c3, 3);
}

#[test]
fn no_scale_up_without_pending_jobs() {
    let (count, _, _) = adapt_worker_limit_for_speed(4, TWICE_FAST, 0, 8, 2, 0);
    assert_eq!(count, 4, "should not add workers if no pending jobs");
}

#[test]
fn never_exceeds_hard_max() {
    let (count, _, _) = adapt_worker_limit_for_speed(8, TWICE_FAST, 10, 8, 5, 0);
    assert_eq!(count, 8);
}

#[test]
fn very_large_download_forces_single_worker() {
    // 50 MiB/s is fast (one whole multiple of the threshold) and high speed.
    let (limit, _, _) =
        adapt_download_limit(4, VERY_LARGE_DOWNLOAD_BYTES, SpeedReading::Fast { multiple: 1 }, true, 6, 8, 0, 0);
    assert_eq!(limit, 1);
}

#[test]
fn large_slow_download_allows_up_to_three() {
    // 2 MiB/s is slow and not high speed.
    let (limit, _, _) =
        adapt_download_limit(1, LARGE_DOWNLOAD_BYTES, SpeedReading::Slow, false, 6, 8, 0, SCALE_DOWN_HYSTERESIS);
    assert!(limit >= 1 && limit <= 3);
}

#[test]
fn large_downloads_reduce_concurrency_more_aggressively() {
    // 20 MiB/s with no peak yet is between the thresholds and counts as high speed.
    assert_eq!(adapt_download_limit(6, 512 * 1024 * 1024, SpeedReading::Steady, true, 4, 6, 0, 0).0, 2);
    assert_eq!(adapt_download_limit(6, 1024 * 1024 * 1024, SpeedReading::Steady, true, 4, 6, 0, 0).0, 1);
}

#[test]
fn large_download_at_low_speed_keeps_three() {
    assert_eq!(adapt_download_limit(6, LARGE_DOWNLOAD_BYTES, SpeedReading::Steady, false, 4, 6, 0, 0), (3, 0, 0));
    assert_eq!(adapt_download_limit(6, 0, SpeedReading::Unknown, false, 4, 6, 1, 2), (6, 1, 2));
    assert_eq!(adapt_worker_limit_for_speed(1, SpeedReading::Fast { multiple: 3 }, 9, 8, 1, 0), (4, 0, 0));
    assert_eq!(adapt_worker_limit_for_speed(7, SpeedReading::Fast { multiple: 3 }, 9, 8, 1, 0), (8, 0, 0));
}
