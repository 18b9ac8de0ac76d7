use fp_appimage_updater::self_updater::{
    asset_suffix, check_checksum, first_prerelease_tag, is_update_available, plan_self_update,
    releases_api_url, self_update_urls, sha256_hex, should_print_current_message,
    should_print_start_message, verify_checksum, SelfUpdateMode, SelfUpdatePlan, CURRENT_VERSION,
};

#[test]
fn self_updater_stable_release_matching_current_version_is_not_an_update() {
    assert!(!is_update_available(&format!("v{}", CURRENT_VERSION)));
}

#[test]
fn self_updater_prerelease_with_same_semver_is_not_an_update() {
    assert!(!is_update_available(&format!("v{}-RC1", CURRENT_VERSION)));
}

#[test]
fn self_updater_newer_release_is_an_update() {
    assert!(is_update_available("v999.0.0"));
}

#[test]
fn self_updater_quiet_mode_suppresses_routine_self_update_messages() {
    assert!(!should_print_start_message(SelfUpdateMode::QuietIfCurrent));
    assert!(!should_print_current_message(SelfUpdateMode::QuietIfCurrent));
    assert!(should_print_start_message(SelfUpdateMode::Interactive));
    assert!(should_print_current_message(SelfUpdateMode::Interactive));
}

#[test]
fn self_updater_tests_stable_release_matching_current_version_is_not_an_update() {
    assert!(!is_update_available(&format!("v{}", CURRENT_VERSION)));
}

#[test]
fn self_updater_tests_prerelease_with_same_semver_is_not_an_update() {
    assert!(!is_update_available(&format!("v{}-RC1", CURRENT_VERSION)));
}

#[test]
fn self_updater_tests_newer_release_is_an_update() {
    assert!(is_update_available("v999.0.0"));
}

#[test]
fn self_updater_tests_quiet_mode_suppresses_routine_self_update_messages() {
    assert!(!should_print_start_message(SelfUpdateMode::QuietIfCurrent));
    assert!(!should_print_current_message(SelfUpdateMode::QuietIfCurrent));
    assert!(should_print_start_message(SelfUpdateMode::Interactive));
    assert!(should_print_current_message(SelfUpdateMode::Interactive));
}

#[test]
fn unwritable_binary_only_warns_when_update_exists() {
    assert_eq!(
        plan_self_update(false, &format!("v{}", CURRENT_VERSION)),
        SelfUpdatePlan::AlreadyCurrent
    );
    assert_eq!(
        plan_self_update(false, "v999.0.0"),
        SelfUpdatePlan::UpdateAvailableButBinaryNotWritable
    );
    assert_eq!(plan_self_update(true, "v999.0.0"), SelfUpdatePlan::UpdateAvailable);
}

#[test]
fn asset_suffix_depends_on_architecture_and_libc() {
    assert_eq!(asset_suffix("x86_64", false), Ok("x64"));
    assert_eq!(asset_suffix("x86_64", true), Ok("x64-musl"));
    assert_eq!(asset_suffix("aarch64", false), Ok("ARM"));
    assert_eq!(asset_suffix("aarch64", true), Ok("ARM-musl"));
    assert_eq!(
        asset_suffix("riscv64", false),
        Err("Unsupported architecture for self-update: riscv64".to_string())
    );
}

#[test]
fn release_urls_point_at_gitlab() {
    assert_eq!(
        releases_api_url(false),
        "https://gitlab.com/api/v4/projects/fpsys%2Ffp-appimage-updater/releases/permalink/latest"
    );
    assert_eq!(
        releases_api_url(true),
        "https://gitlab.com/api/v4/projects/fpsys%2Ffp-appimage-updater/releases?order_by=released_at&sort=desc&per_page=100"
    );
    let (name, url, sums) = self_update_urls("v1.2.3", "x64");
    assert_eq!(name, "fp-appimage-updater.x64");
    assert_eq!(
        url,
        "https://gitlab.com/fpsys/fp-appimage-updater/-/releases/v1.2.3/downloads/bin/fp-appimage-updater.x64"
    );
    assert_eq!(
        sums,
        "https://gitlab.com/fpsys/fp-appimage-updater/-/releases/v1.2.3/downloads/bin/checksums.txt"
    );
}

#[test]
fn first_prerelease_tag_picks_the_newest_release_candidate() {
    let tags = vec![
        Some("v2.0.0".to_string()),
        None,
        Some("v2.1.0-RC2".to_string()),
        Some("v2.1.0-RC1".to_string()),
    ];
    assert_eq!(first_prerelease_tag(&tags), Ok("v2.1.0-RC2".to_string()));
    assert_eq!(
        first_prerelease_tag(&[Some("v1.0.0".to_string())]),
        Err("No pre-releases found on GitLab".to_string())
    );
}

#[test]
fn sha256_hex_matches_known_digest() {
    assert_eq!(
        sha256_hex(b"abc"),
        "ba7816bf8f01cfea414140de5dae2223b00361a396177a9cb410ff61f20015ad"
    );
    assert_eq!(
        sha256_hex(b""),
        "e3b0c44298fc1c149afbf4c8996fb92427ae41e4649b934ca495991b7852b855"
    );
}

#[test]
fn checksum_lines_decide_by_asset_name() {
    let sums = "aaaa  other.bin\r\nbbbb  fp-appimage-updater.x64\n";
    assert_eq!(check_checksum("bbbb", sums, "fp-appimage-updater.x64"), Ok(()));
    assert_eq!(
        check_checksum("cccc", sums, "fp-appimage-updater.x64"),
        Err("Checksum mismatch for fp-appimage-updater.x64: expected bbbb, found cccc".to_string())
    );
    assert_eq!(
        check_checksum("bbbb", sums, "fp-appimage-updater.ARM"),
        Err("No checksum found for fp-appimage-updater.ARM in checksums.txt".to_string())
    );
}

#[test]
fn verify_checksum_hashes_the_binary() {
    let sums = "ba7816bf8f01cfea414140de5dae2223b00361a396177a9cb410ff61f20015ad fp-appimage-updater.x64\n";
    assert_eq!(verify_checksum(b"abc", sums, "fp-appimage-updater.x64"), Ok(()));
    assert!(verify_checksum(b"abd", sums, "fp-appimage-updater.x64").is_err());
}

// A read-only binary is given to the plan as not writable.
#[test]
fn self_updater_unwritable_binary_only_warns_when_update_exists() {
    assert!(matches!(plan_self_update(false, &format!("v{}", CURRENT_VERSION)), SelfUpdatePlan::AlreadyCurrent));
    assert!(matches!(plan_self_update(false, "v999.0.0"), SelfUpdatePlan::UpdateAvailableButBinaryNotWritable));
}

#[test]
fn self_updater_tests_unwritable_binary_only_warns_when_update_exists() {
    assert!(matches!(plan_self_update(false, &format!("v{}", CURRENT_VERSION)), SelfUpdatePlan::AlreadyCurrent));
    assert!(matches!(plan_self_update(false, "v999.0.0"), SelfUpdatePlan::UpdateAvailableButBinaryNotWritable));
}
