use fp_appimage_updater::extractor::{is_zip_magic, choose_zip_entry, missing_zip_asset_message, ZipEntrySummary, ZipSelectError};

fn entry(name: &str, is_file: bool, header: Option<&[u8]>) -> ZipEntrySummary {
    ZipEntrySummary { name: name.to_string(), is_file, header: header.map(|h| h.to_vec()) }
}

#[test]
fn zip_entry_by_pattern() {
    let entries = vec![entry("docs/", false, None), entry("App-x86_64.AppImage", true, None), entry("App-arm.AppImage", true, None)];
    assert!(matches!(choose_zip_entry(&entries, Some("*x86_64*")), Ok(1)));
    assert!(matches!(choose_zip_entry(&entries, Some("*riscv*")), Err(ZipSelectError::NoSuitableAsset)));
    assert!(matches!(choose_zip_entry(&entries, Some("[")), Err(ZipSelectError::InvalidPattern(_))));
}

#[test]
fn zip_entry_by_appimage_name_then_elf_header() {
    let elf: &[u8] = b"\x7fELF";
    let entries = vec![entry("readme.txt", true, Some(b"read")), entry("tool", true, Some(elf)), entry("Tool.AppImage", true, Some(b"abcd"))];
    assert!(matches!(choose_zip_entry(&entries, None), Ok(2)));
    let no_appimage = vec![entry("readme.txt", true, Some(b"read")), entry("bin/", false, Some(elf)), entry("tool", true, Some(elf))];
    assert!(matches!(choose_zip_entry(&no_appimage, None), Ok(2)));
    let nothing = vec![entry("readme.txt", true, Some(b"read")), entry("x.AppImage", false, None)];
    assert!(matches!(choose_zip_entry(&nothing, None), Err(ZipSelectError::NoSuitableAsset)));
}

#[test]
fn missing_zip_asset_lists_entries() {
    let names = vec!["a.txt".to_string(), "b/".to_string()];
    assert_eq!(
        missing_zip_asset_message("/tmp/x.zip", &names),
        "Could not find a suitable asset in zip /tmp/x.zip. Available files: a.txt, b/"
    );
}

#[test]
fn zip_archives_are_told_by_their_first_bytes() {
    assert!(is_zip_magic(b"PK\x03\x04"));
    assert!(!is_zip_magic(b"\x7fELF"));
    assert!(!is_zip_magic(b"PK\x03"));
}
