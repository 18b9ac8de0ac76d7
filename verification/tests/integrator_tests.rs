use fp_appimage_updater::integrator::{symlink_name, choose_icon, first_file_with_extension, IconChoice};
use fp_appimage_updater::integrator::{file_extension_exec, has_extension_in};
use fp_appimage_updater::integrator::{desktop_entry_file_name, desktop_exec_value, icon_file_name};
use fp_appimage_updater::integrator::{appimage_run_failure_message, direct_extract_failure_message};
use fp_appimage_updater::integrator::{
    expand_tilde, first_line, format_stderr_detail, join_path_exec, legacy_desktop_asset_names,
    nixos_unsupported_appimage_message, parse_os_release_id, sanitized_app_name,
};
use fp_appimage_updater::config::{AppConfig, CheckMethod, StrategyConfig};
use fp_appimage_updater::state::AppState;

#[test]
fn sanitizes_desktop_asset_names() {
    assert_eq!(sanitized_app_name("Foo Bar"), "foo-bar");
    assert_eq!(sanitized_app_name("My_App.Image"), "my-app-image");
    assert_eq!(sanitized_app_name("  Weird   Name  "), "weird-name");
    assert_eq!(sanitized_app_name("!!!"), "app");
}

#[test]
fn sanitizing_twice_changes_nothing() {
    for name in ["Foo Bar", "--a--b--", "My_App.Image", "!!!", "", "Ünïcode Näme 2"] {
        let once = sanitized_app_name(name);
        assert_eq!(sanitized_app_name(&once), once);
        assert!(!once.is_empty());
        assert!(!once.starts_with('-') && !once.ends_with('-') && !once.contains("--"));
        assert!(once.chars().all(|c| c.is_ascii_lowercase() || c.is_ascii_digit() || c == '-'));
    }
}

#[test]
fn parses_nixos_os_release_id() {
    assert_eq!(
        parse_os_release_id("NAME=NixOS\nID=nixos\nPRETTY_NAME=NixOS\n"),
        Some("nixos".to_string())
    );
    assert_eq!(
        parse_os_release_id("NAME=\"Fedora Linux\"\nID=\"fedora\"\n"),
        Some("fedora".to_string())
    );
    assert_eq!(parse_os_release_id("NAME=x\nVERSION_ID=3\n"), None);
}

#[test]
fn detects_non_squashfs_appimage_message() {
    assert!(nixos_unsupported_appimage_message(
        "FATAL ERROR: Can't find a valid SQUASHFS superblock on /tmp/demo.AppImage"
    )
    .is_some());
    assert!(nixos_unsupported_appimage_message("extract failed").is_none());
}

#[test]
fn stderr_detail_shows_first_line_only() {
    assert_eq!(format_stderr_detail(""), "");
    assert_eq!(format_stderr_detail("boom\nmore"), " (boom)");
    assert_eq!(first_line("a\r\nb"), "a");
    assert_eq!(first_line(""), "");
}

#[test]
fn tilde_expands_with_home() {
    assert_eq!(expand_tilde("~/.local/bin", Some("/home/u")), "/home/u/.local/bin");
    assert_eq!(expand_tilde("~/x", Some("/home/u/")), "/home/u/x");
    assert_eq!(expand_tilde("~/x", None), "~/x");
    assert_eq!(expand_tilde("/opt/x", Some("/home/u")), "/opt/x");
    assert_eq!(join_path_exec("/a", "/b"), "/b");
    assert_eq!(join_path_exec("", "b"), "b");
}

fn app(name: &str) -> AppConfig {
    AppConfig {
        config_dir: String::new(),
        name: name.to_string(),
        ignore: None,
        zsync: None,
        integration: None,
        create_symlink: None,
        segmented_downloads: None,
        respect_rate_limits: None,
        github_proxy: None,
        github_proxy_prefix: None,
        storage_dir: None,
        naming_format: None,
        inner_asset_match: None,
        strategy: StrategyConfig::Direct {
            url: "https://example.com/My.AppImage".to_string(),
            check_method: CheckMethod::Etag,
        },
    }
}

#[test]
fn legacy_names_skip_the_current_name() {
    let state = AppState { sanitized_name: Some("my-app".to_string()), ..AppState::default() };
    assert!(legacy_desktop_asset_names(&app("my-app"), Some(&state), "my-app").is_empty());
}

#[test]
fn file_extensions_follow_path_rules() {
    assert_eq!(file_extension_exec("app.desktop"), Some("desktop".to_string()));
    assert_eq!(file_extension_exec("a.tar.gz"), Some("gz".to_string()));
    assert_eq!(file_extension_exec(".desktop"), None);
    assert_eq!(file_extension_exec("noext"), None);
    assert_eq!(file_extension_exec("trailing."), Some(String::new()));
    assert_eq!(file_extension_exec(".."), None);
    assert!(has_extension_in("App.DESKTOP", &["desktop"]));
    assert!(has_extension_in("icon.Png", &["svg", "png", "xpm"]));
    assert!(!has_extension_in("icon.jpg", &["svg", "png", "xpm"]));
    assert!(!has_extension_in(".desktop", &["desktop"]));
}

#[test]
fn desktop_entry_values() {
    assert_eq!(desktop_exec_value("app %U --flag", "/home/u/Apps/app.AppImage"), "/home/u/Apps/app.AppImage %U --flag");
    assert_eq!(desktop_exec_value("app", "/p/app.AppImage"), "/p/app.AppImage");
    assert_eq!(desktop_exec_value("", "/p/app.AppImage"), "/p/app.AppImage");
    assert_eq!(desktop_entry_file_name("my-app"), "my-app.desktop");
    assert_eq!(icon_file_name("my-app", "svg"), "my-app.svg");
}

#[test]
fn extraction_failure_messages() {
    assert_eq!(direct_extract_failure_message(""), "AppImage extraction failed via --appimage-extract");
    assert_eq!(
        direct_extract_failure_message("  bad magic\nmore\n"),
        "AppImage extraction failed via --appimage-extract (bad magic)"
    );
    assert_eq!(appimage_run_failure_message("oops"), "appimage-run fallback failed (oops)");
    assert!(appimage_run_failure_message("Can't find a valid SquashFS superblock").contains("not supported on NixOS"));
}

#[test]
fn sanitized_names_keep_the_letters_and_digits_in_order() {
    assert_eq!(sanitized_app_name("OBS Studio 30"), "obs-studio-30");
    assert_eq!(sanitized_app_name("--A.b_C--"), "a-b-c");
    assert_eq!(sanitized_app_name("...---"), "app");
}

fn names(v: &[&str]) -> Vec<String> {
    v.iter().map(|s| s.to_string()).collect()
}

#[test]
fn desktop_entries_and_icons_are_chosen_by_the_rules() {
    let files = names(&["AppRun", "app.DESKTOP", "icons/x.png", "myapp.png", "myapp.svg", "myapp.tar.png"]);
    assert_eq!(first_file_with_extension(&files, &["desktop"]), Some(1));
    assert_eq!(first_file_with_extension(&names(&["a", "b.txt"]), &["desktop"]), None);
    // The named path is a file.
    assert_eq!(choose_icon(true, true, Some("myapp"), &files), IconChoice::Direct);
    // A name without extension prefers .svg over .png.
    assert_eq!(choose_icon(true, false, Some("myapp"), &files), IconChoice::Listed(4));
    // A name with an extension is looked up as it is.
    assert_eq!(choose_icon(true, false, Some("myapp.png"), &files), IconChoice::Listed(3));
    // The name with `.png` added.
    assert_eq!(choose_icon(true, false, Some("myapp.tar"), &files), IconChoice::Listed(5));
    // Found by its stem, the extension in another case.
    assert_eq!(choose_icon(true, false, Some("logo"), &names(&["a.png", "logo.XPM"])), IconChoice::Listed(1));
    // Nothing by that name: the first icon file.
    assert_eq!(choose_icon(true, false, Some("other"), &files), IconChoice::Listed(2));
    assert_eq!(choose_icon(false, false, None, &files), IconChoice::Listed(2));
    assert_eq!(choose_icon(false, false, None, &names(&["AppRun"])), IconChoice::NoIcon);
}

#[test]
fn symlinks_are_named_by_the_sanitized_name_when_wanted() {
    let mut app = app("My App");
    let mut global = fp_appimage_updater::config::GlobalConfig::default();
    global.create_symlinks = false;
    assert_eq!(symlink_name(&app, &global), None);
    app.create_symlink = Some(true);
    assert_eq!(symlink_name(&app, &global).as_deref(), Some("my-app"));
    global.create_symlinks = true;
    app.create_symlink = None;
    assert_eq!(symlink_name(&app, &global).as_deref(), Some("my-app"));
    app.create_symlink = Some(false);
    assert_eq!(symlink_name(&app, &global), None);
}
