use fp_appimage_updater::commands::helpers::cache_app_metadata;
use fp_appimage_updater::config::GlobalConfig;
use fp_appimage_updater::resolvers::forge::{
    build_check_result, find_release_asset_in_html, find_release_asset_in_html_with_base,
    find_release_asset_in_html_with_base_and_matcher, forge_platform_from_swagger_title,
    github_proxy_release_url, github_release_web_url_with_config, release_api_url,
    release_api_url_with_config, release_assets, sanitize_github_proxy_url, select_release_download,
    validate_github_proxy_metadata, validate_release_download_url, AssetMatcher, ForgeHost,
    ReleaseAsset, ReleaseAssetEntry, ReleaseMetadata, next_proxy_step, proxy_answer, rate_limit_fallback,
    release_answer, ProxyOutcome, ProxyStep, RateLimitFallback, ReleaseAnswer,
};
use fp_appimage_updater::resolvers::patterns::GlobMatcher;
use fp_appimage_updater::state::AppState;

fn matcher_error(asset_match: &str, regex: Option<&str>, repository: &str) -> String {
    match AssetMatcher::from_config(asset_match, regex, repository) {
        Ok(_) => panic!("expected the pattern to be refused"),
        Err(e) => e,
    }
}

#[test]
fn invalid_asset_pattern_is_reported_before_network() {
    let message = matcher_error("[", None, "https://github.com/fptbb/fp-appimage-updater");
    assert!(message.contains("Invalid asset_match pattern"));
    assert!(message.contains("https://github.com/fptbb/fp-appimage-updater"));
}

#[test]
fn invalid_asset_regex_is_reported_before_network() {
    let message = matcher_error("*", Some("["), "https://github.com/fptbb/fp-appimage-updater");
    assert!(message.contains("Invalid asset_match_regex pattern"));
    assert!(message.contains("https://github.com/fptbb/fp-appimage-updater"));
}

#[test]
fn gitlab_release_url_uses_permalink_latest_api() {
    let url = release_api_url(ForgeHost::GitLab, "https://gitlab.com/fpsys/fp-appimage-updater")
        .expect("expected gitlab api url");
    assert_eq!(
        url,
        "https://gitlab.com/api/v4/projects/fpsys%2Ffp-appimage-updater/releases/permalink/latest"
    );
}

#[test]
fn gitea_release_url_uses_api_v1_latest() {
    let url = release_api_url(ForgeHost::Gitea, "https://git.linux.toys/fptbb/fp-appimage-updater")
        .expect("expected gitea api url");
    assert_eq!(
        url,
        "https://git.linux.toys/api/v1/repos/fptbb/fp-appimage-updater/releases/latest"
    );
}

#[test]
fn forgejo_release_url_uses_api_v1_latest() {
    let url = release_api_url(ForgeHost::Forgejo, "https://git.linux.toys/fptbb/fp-appimage-updater")
        .expect("expected forgejo api url");
    assert_eq!(
        url,
        "https://git.linux.toys/api/v1/repos/fptbb/fp-appimage-updater/releases/latest"
    );
}

#[test]
fn github_release_url_and_errors() {
    assert_eq!(
        release_api_url(ForgeHost::GitHub, "https://github.com/owner/repo").unwrap(),
        "https://api.github.com/repos/owner/repo/releases/latest"
    );
    assert_eq!(
        release_api_url(ForgeHost::GitHub, "github.com/owner/repo").unwrap(),
        "github.com/owner/repo/releases/latest"
    );
    assert!(release_api_url(ForgeHost::Gitea, "git.example/owner/repo").is_err());
}

#[test]
fn forge_swagger_title_maps_to_platforms() {
    assert_eq!(forge_platform_from_swagger_title("Gitea API"), Some(ForgeHost::Gitea));
    assert_eq!(forge_platform_from_swagger_title("Forgejo API"), Some(ForgeHost::Forgejo));
    assert_eq!(forge_platform_from_swagger_title("Unknown"), None);
}

#[test]
fn forge_url_templates_render_account_repository_and_repo_path() {
    let config = GlobalConfig {
        github_release_api_url: Some(
            "https://api.example.com/repos/{account}/{repository}/releases/latest".to_string(),
        ),
        github_release_web_url: Some("https://example.com/{account}/{repository}".to_string()),
        gitlab_release_api_url: Some(
            "https://gitlab.example.com/api/v4/projects/{project_path}/releases/permalink/latest"
                .to_string(),
        ),
        gitlab_release_web_url: Some("https://gitlab.example.com/{repo_path}".to_string()),
        ..GlobalConfig::default()
    };

    assert_eq!(
        release_api_url_with_config(ForgeHost::GitHub, "https://github.com/owner/repo", &config)
            .expect("expected github api url"),
        "https://api.example.com/repos/owner/repo/releases/latest"
    );
    assert_eq!(
        github_release_web_url_with_config("https://github.com/owner/repo", &config)
            .expect("expected github web url"),
        "https://example.com/owner/repo"
    );
    assert_eq!(
        release_api_url_with_config(ForgeHost::GitLab, "https://gitlab.com/group/subgroup/repo", &config)
            .expect("expected gitlab api url"),
        "https://gitlab.example.com/api/v4/projects/group%2Fsubgroup%2Frepo/releases/permalink/latest"
    );
}

fn link(name: &str, url: &str, direct: Option<&str>) -> ReleaseAssetEntry {
    ReleaseAssetEntry {
        name: Some(name.to_string()),
        browser_download_url: None,
        direct_asset_url: direct.map(|d| d.to_string()),
        url: Some(url.to_string()),
    }
}

#[test]
fn gitlab_release_assets_use_direct_asset_url() {
    let resp = ReleaseMetadata {
        tag_name: Some("v1.2.2".to_string()),
        url: None,
        html_url: None,
        assets: None,
        asset_links: Some(vec![
            link(
                "fp-appimage-updater.x64",
                "https://gitlab.com/fpsys/fp-appimage-updater/-/jobs/artifacts/main/raw/build/fp-appimage-updater.x64?job=build-and-compress",
                Some("https://gitlab.com/fpsys/fp-appimage-updater/-/releases/v1.2.2/downloads/bin/fp-appimage-updater.x64"),
            ),
            link(
                "fp-appimage-updater.ARM",
                "https://gitlab.com/fpsys/fp-appimage-updater/-/jobs/artifacts/main/raw/build/fp-appimage-updater.ARM?job=build-and-compress",
                Some("https://gitlab.com/fpsys/fp-appimage-updater/-/releases/v1.2.2/downloads/bin/fp-appimage-updater.ARM"),
            ),
        ]),
    };

    let assets = release_assets(ForgeHost::GitLab, &resp, "https://gitlab.com/fpsys/fp-appimage-updater")
        .expect("expected gitlab assets");

    assert_eq!(assets.len(), 2);
    assert_eq!(assets[0].name, "fp-appimage-updater.x64");
    assert_eq!(
        assets[0].download_url,
        "https://gitlab.com/fpsys/fp-appimage-updater/-/releases/v1.2.2/downloads/bin/fp-appimage-updater.x64"
    );
}

#[test]
fn release_assets_skip_incomplete_entries_and_report_missing_lists() {
    let resp = ReleaseMetadata {
        tag_name: None,
        url: None,
        html_url: None,
        assets: Some(vec![
            ReleaseAssetEntry {
                name: Some("a.AppImage".to_string()),
                browser_download_url: Some("https://x/a".to_string()),
                direct_asset_url: None,
                url: None,
            },
            ReleaseAssetEntry { name: Some("b".to_string()), browser_download_url: None, direct_asset_url: None, url: None },
            link("c", "https://x/c", None),
        ]),
        asset_links: None,
    };
    let github = release_assets(ForgeHost::GitHub, &resp, "r").unwrap();
    assert_eq!(github.len(), 1);
    assert_eq!(github[0].download_url, "https://x/a");
    match release_assets(ForgeHost::GitLab, &resp, "r") {
        Err(e) => assert_eq!(e, "Release metadata for r did not contain an assets.links array"),
        Ok(_) => panic!("expected missing links"),
    }
}

#[test]
fn html_fallback_finds_matching_asset() {
    let html = r#"
        <a href="/owner/repo/releases/download/v1.2.3/app-x86_64.AppImage">download</a>
        <a href="/owner/repo/releases/download/v1.2.3/app-arm.AppImage">download</a>
    "#;
    let pattern = GlobMatcher::new("*x86_64.AppImage").unwrap();

    let (version, download_url) =
        find_release_asset_in_html(html, "/owner/repo", &pattern).expect("expected asset");

    assert_eq!(version, "v1.2.3");
    assert_eq!(
        download_url,
        "https://github.com/owner/repo/releases/download/v1.2.3/app-x86_64.AppImage"
    );
}

#[test]
fn html_fallback_uses_custom_release_base() {
    let html = r#"
        <a href="/owner/repo/releases/download/v1.2.3/app-x86_64.AppImage">download</a>
    "#;
    let pattern = GlobMatcher::new("*x86_64.AppImage").unwrap();

    let (version, download_url) =
        find_release_asset_in_html_with_base(html, "https://example.com/owner/repo", &pattern)
            .expect("expected asset");

    assert_eq!(version, "v1.2.3");
    assert_eq!(
        download_url,
        "https://example.com/owner/repo/releases/download/v1.2.3/app-x86_64.AppImage"
    );
}

#[test]
fn html_fallback_stops_at_a_link_without_tag() {
    let html = "<a href=\"/o/r/releases/download/v1/app.deb\">deb</a> <a href=\"/o/r/releases/download/latest\">";
    let pattern = GlobMatcher::new("*.AppImage").unwrap();
    assert_eq!(find_release_asset_in_html(html, "o/r", &pattern), None);
}

#[test]
fn regex_asset_matcher_excludes_arm64_suffix() {
    let matcher = match AssetMatcher::from_config(
        "*",
        Some(r"Obsidian-[0-9.]+\.AppImage"),
        "https://github.com/obsidianmd/obsidian-releases",
    ) {
        Ok(m) => m,
        Err(e) => panic!("expected regex matcher: {e}"),
    };

    let html = r#"
        <a href="/obsidianmd/obsidian-releases/releases/download/v1.12.7/Obsidian-1.12.7-arm64.AppImage">download</a>
        <a href="/obsidianmd/obsidian-releases/releases/download/v1.12.7/Obsidian-1.12.7.AppImage">download</a>
    "#;

    let (version, download_url) = find_release_asset_in_html_with_base_and_matcher(
        html,
        "https://github.com/obsidianmd/obsidian-releases",
        &matcher,
    )
    .expect("expected regex matcher to find the generic asset");

    assert_eq!(version, "v1.12.7");
    assert_eq!(
        download_url,
        "https://github.com/obsidianmd/obsidian-releases/releases/download/v1.12.7/Obsidian-1.12.7.AppImage"
    );
    assert_eq!(matcher.description(), r"Obsidian-[0-9.]+\.AppImage");
}

#[test]
fn github_proxy_prefix_is_removed() {
    let proxied =
        "https://gh-proxy.com/https://github.com/owner/repo/releases/download/v1.2.3/app.AppImage";
    assert_eq!(
        sanitize_github_proxy_url(proxied, "https://gh-proxy.com/"),
        "https://github.com/owner/repo/releases/download/v1.2.3/app.AppImage"
    );
    assert_eq!(
        sanitize_github_proxy_url("https://github.com/x", "https://gh-proxy.com/"),
        "https://github.com/x"
    );
}

#[test]
fn github_proxy_release_url_supports_multiple_proxy_bases() {
    let gh_proxy = format!(
        "https://gh-proxy.com/{}",
        release_api_url(ForgeHost::GitHub, "https://github.com/owner/repo").unwrap()
    );
    assert_eq!(gh_proxy, "https://gh-proxy.com/https://api.github.com/repos/owner/repo/releases/latest");

    let cors_proxy = format!(
        "https://corsproxy.io/?{}",
        release_api_url(ForgeHost::GitHub, "https://github.com/owner/repo").unwrap()
    );
    assert_eq!(cors_proxy, "https://corsproxy.io/?https://api.github.com/repos/owner/repo/releases/latest");

    let allorigins = format!(
        "https://api.allorigins.win/raw?url={}",
        release_api_url(ForgeHost::GitHub, "https://github.com/owner/repo").unwrap()
    );
    assert_eq!(
        allorigins,
        "https://api.allorigins.win/raw?url=https://api.github.com/repos/owner/repo/releases/latest"
    );
    assert_eq!(
        github_proxy_release_url("https://github.com/owner/repo", "https://corsproxy.io/?").unwrap(),
        cors_proxy
    );
}

#[test]
fn github_proxy_metadata_must_match_repository() {
    let resp = ReleaseMetadata {
        tag_name: None,
        url: Some("https://gh-proxy.com/https://api.github.com/repos/other/repo/releases/1".to_string()),
        html_url: Some("https://gh-proxy.com/https://github.com/other/repo/releases/tag/v1.2.3".to_string()),
        assets: None,
        asset_links: None,
    };

    let err = validate_github_proxy_metadata("https://github.com/owner/repo", &resp, "https://gh-proxy.com/")
        .expect_err("expected repository mismatch to fail");
    assert!(err.contains("different repository"));

    let good = ReleaseMetadata {
        tag_name: None,
        url: Some("https://gh-proxy.com/https://api.github.com/repos/owner/repo/releases/1".to_string()),
        html_url: Some("https://gh-proxy.com/https://github.com/owner/repo/releases/tag/v1.2.3".to_string()),
        assets: None,
        asset_links: None,
    };
    assert_eq!(validate_github_proxy_metadata("https://github.com/owner/repo", &good, "https://gh-proxy.com/"), Ok(()));
}

#[test]
fn download_urls_must_belong_to_the_release() {
    assert_eq!(
        validate_release_download_url(
            ForgeHost::GitHub,
            "https://github.com/owner/repo/",
            "v1",
            "https://github.com/owner/repo/releases/download/v1/a"
        ),
        Ok(())
    );
    assert_eq!(
        validate_release_download_url(ForgeHost::GitHub, "https://github.com/owner/repo", "v1", "https://evil.example/a"),
        Err("GitHub returned a download URL for a different repository: https://evil.example/a".to_string())
    );
    assert_eq!(
        validate_release_download_url(
            ForgeHost::GitLab,
            "https://gitlab.com/g/p",
            "v2",
            "https://gitlab.com/g/p/-/releases/v2/downloads/bin/x"
        ),
        Ok(())
    );
}

#[test]
fn selecting_a_download_takes_the_first_match_and_checks_it() {
    let assets = vec![
        ReleaseAsset { name: "app-arm.AppImage".to_string(), download_url: "https://github.com/o/r/releases/download/v1/app-arm.AppImage".to_string() },
        ReleaseAsset { name: "app-x86_64.AppImage".to_string(), download_url: "https://gh-proxy.com/https://github.com/o/r/releases/download/v1/app-x86_64.AppImage".to_string() },
    ];
    let matcher = AssetMatcher::from_config("*x86_64.AppImage", None, "https://github.com/o/r").ok().unwrap();
    let config = GlobalConfig::default();
    assert_eq!(
        select_release_download("https://github.com/o/r", &matcher, "v1", &assets, ForgeHost::GitHub, true, &["https://gh-proxy.com/".to_string()], &config),
        Ok("https://github.com/o/r/releases/download/v1/app-x86_64.AppImage".to_string())
    );
    assert_eq!(
        select_release_download("https://github.com/o/r", &matcher, "v1", &assets, ForgeHost::GitHub, true, &[], &config),
        Err("GitHub proxy is enabled for https://github.com/o/r but no proxy prefixes were configured".to_string())
    );
    let none = AssetMatcher::from_config("*.deb", None, "https://github.com/o/r").ok().unwrap();
    assert_eq!(
        select_release_download("https://github.com/o/r", &none, "v1", &assets, ForgeHost::GitHub, false, &[], &config),
        Err("No matching asset found for repository https://github.com/o/r with pattern '*.deb'. Available assets: app-arm.AppImage, app-x86_64.AppImage".to_string())
    );
    assert_eq!(
        select_release_download("https://github.com/o/r", &none, "v1", &[], ForgeHost::GitHub, false, &[], &config),
        Err("No matching asset found for repository https://github.com/o/r with pattern '*.deb'. Available assets: <none>".to_string())
    );
}

#[test]
fn check_result_reports_ranges_and_installed_version() {
    let state = AppState { local_version: Some("v1".to_string()), ..AppState::default() };
    let r = build_check_result("repo", "v2".to_string(), "https://x/a".to_string(), Some(" Bytes "), Some(&state), None, None).unwrap();
    assert_eq!(r.capabilities, vec!["segmented_downloads".to_string()]);
    assert_eq!(r.segmented_downloads, Some(true));
    assert_eq!(r.update.as_ref().map(|u| u.version.clone()), Some("v2".to_string()));
    let same = build_check_result("repo", "v1".to_string(), "https://x/a".to_string(), None, Some(&state), None, None).unwrap();
    assert!(same.update.is_none());
    assert_eq!(same.segmented_downloads, Some(false));
    assert!(same.capabilities.is_empty());
    match build_check_result("repo", String::new(), "u".to_string(), None, None, None, None) {
        Err(e) => assert_eq!(e, "Release metadata for repo did not contain a version"),
        Ok(_) => panic!("expected an empty version to fail"),
    }
}

#[test]
fn cache_app_metadata_stores_forge_details() {
    let mut state = AppState::default();

    cache_app_metadata(
        &mut state,
        vec!["segmented_downloads".to_string(), "etag".to_string()],
        Some(true),
        Some("https://git.linux.toys/fptbb/fp-appimage-updater".to_string()),
        Some(ForgeHost::Forgejo),
    );

    assert_eq!(
        state.forge_repository.as_deref(),
        Some("https://git.linux.toys/fptbb/fp-appimage-updater")
    );
    assert_eq!(state.forge_platform, Some(ForgeHost::Forgejo));
    assert_eq!(state.segmented_downloads, Some(true));
    assert_eq!(state.capabilities, vec!["etag".to_string(), "segmented_downloads".to_string()]);

    cache_app_metadata(&mut state, Vec::new(), None, None, None);
    assert_eq!(state.forge_repository, None);
    assert_eq!(state.forge_platform, None);
}

#[test]
fn release_api_statuses_are_classified() {
    assert_eq!(release_answer(200), ReleaseAnswer::Metadata);
    assert_eq!(release_answer(204), ReleaseAnswer::Metadata);
    assert_eq!(release_answer(403), ReleaseAnswer::RateLimited);
    assert_eq!(release_answer(429), ReleaseAnswer::RateLimited);
    assert_eq!(release_answer(404), ReleaseAnswer::Failed);
    assert_eq!(release_answer(500), ReleaseAnswer::Failed);
    assert_eq!(release_answer(302), ReleaseAnswer::Failed);
}

#[test]
fn proxy_statuses_need_headers_to_be_rate_limits() {
    assert_eq!(proxy_answer(200, true), ReleaseAnswer::Metadata);
    assert_eq!(proxy_answer(503, true), ReleaseAnswer::RateLimited);
    assert_eq!(proxy_answer(429, false), ReleaseAnswer::Failed);
}

#[test]
fn rate_limits_fall_back_by_forge_and_proxy_setting() {
    assert_eq!(rate_limit_fallback(ForgeHost::GitHub, true, true), RateLimitFallback::GithubProxy);
    assert_eq!(rate_limit_fallback(ForgeHost::GitHub, false, true), RateLimitFallback::GithubReleasePage);
    assert_eq!(rate_limit_fallback(ForgeHost::GitLab, true, true), RateLimitFallback::GiveUp);
    assert_eq!(rate_limit_fallback(ForgeHost::GitHub, true, false), RateLimitFallback::MissingHeaders);
}

#[test]
fn proxy_prefixes_are_tried_in_order_until_one_works() {
    assert_eq!(next_proxy_step(&[], 3), ProxyStep::Try(0));
    assert_eq!(next_proxy_step(&[ProxyOutcome::Failed], 3), ProxyStep::Try(1));
    assert_eq!(next_proxy_step(&[ProxyOutcome::Failed, ProxyOutcome::RateLimited], 3), ProxyStep::Try(2));
    assert_eq!(next_proxy_step(&[ProxyOutcome::Failed, ProxyOutcome::Succeeded], 3), ProxyStep::Done(1));
    assert_eq!(next_proxy_step(&[ProxyOutcome::RateLimited, ProxyOutcome::Failed, ProxyOutcome::Failed], 3), ProxyStep::FailRateLimited(0));
    assert_eq!(next_proxy_step(&[ProxyOutcome::Failed, ProxyOutcome::Failed], 2), ProxyStep::Fail(1));
    assert_eq!(next_proxy_step(&[], 0), ProxyStep::NoPrefixes);
}
