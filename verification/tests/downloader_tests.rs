use fp_appimage_updater::downloader::progress::human_bytes;
use fp_appimage_updater::config::ZsyncConfig;
use fp_appimage_updater::downloader::http::{
    is_retryable_chunk_completion_error, parse_total_length_from_content_range, range_header,
    segment_ranges, segmented_next, segmented_outcome, segmented_support_from_error, SegmentProbe,
    SegmentedEvent, SegmentedStep,
};
use fp_appimage_updater::downloader::progress::{green, ProgressGuard, ProgressHandle, ProgressUi};
use fp_appimage_updater::downloader::{
    detect_elf_machine_arch_from_bytes, download_file_name, ensure_arch_matches_host, may_be_archive,
    next_download_method, DownloadMethod,
    host_elf_machine_arch, zsync_url, ElfMachineArch,
};

fn elf_header_for_machine(machine: u16) -> [u8; 20] {
    let mut header = [0u8; 20];
    header[..4].copy_from_slice(b"\x7FELF");
    header[4] = 2;
    header[5] = 1;
    header[18..20].copy_from_slice(&machine.to_le_bytes());
    header
}

#[test]
fn detects_x86_64_elf_machine() {
    let arch = detect_elf_machine_arch_from_bytes(&elf_header_for_machine(62)).expect("missing arch");
    assert_eq!(arch, ElfMachineArch::X86_64);
}

#[test]
fn detects_aarch64_elf_machine() {
    let arch = detect_elf_machine_arch_from_bytes(&elf_header_for_machine(183)).expect("missing arch");
    assert_eq!(arch, ElfMachineArch::AArch64);
}

#[test]
fn skips_non_elf_files() {
    let err = detect_elf_machine_arch_from_bytes(b"not an elf").expect_err("expected non-elf file to fail");
    assert!(err.contains("not an ELF executable"));
}

#[test]
fn big_endian_headers_and_unknown_machines() {
    let mut header = elf_header_for_machine(0);
    header[5] = 2;
    header[18] = 0;
    header[19] = 40;
    assert_eq!(detect_elf_machine_arch_from_bytes(&header), Ok(ElfMachineArch::Arm));
    header[5] = 3;
    assert_eq!(detect_elf_machine_arch_from_bytes(&header), Err("Unsupported ELF data encoding: 3".to_string()));
    assert_eq!(
        detect_elf_machine_arch_from_bytes(&elf_header_for_machine(999)),
        Err("Unsupported ELF machine type: 999".to_string())
    );
    assert_eq!(ElfMachineArch::Riscv64.label(), "riscv64");
}

#[test]
fn host_architecture_checks() {
    assert_eq!(host_elf_machine_arch("x86_64"), Ok(ElfMachineArch::X86_64));
    assert!(host_elf_machine_arch("sparc").is_err());
    assert_eq!(ensure_arch_matches_host(None, "sparc"), Ok(()));
    assert_eq!(ensure_arch_matches_host(Some(ElfMachineArch::X86_64), "x86_64"), Ok(()));
    assert_eq!(
        ensure_arch_matches_host(Some(ElfMachineArch::AArch64), "x86_64"),
        Err("Downloaded AppImage targets aarch64, but this machine is x86_64. The update was skipped and the existing AppImage was left unchanged.".to_string())
    );
}

#[test]
fn file_names_and_zsync_manifests() {
    assert_eq!(download_file_name("{name}-{version}.AppImage", "app", "1.0"), "app-1.0.AppImage");
    assert_eq!(download_file_name("{name}.AppImage", "app", "1.0"), "app.AppImage");
    assert_eq!(zsync_url(&Some(ZsyncConfig::Enabled(true)), "https://x/a"), Some("https://x/a.zsync".to_string()));
    assert_eq!(zsync_url(&Some(ZsyncConfig::Enabled(false)), "https://x/a"), None);
    assert_eq!(zsync_url(&Some(ZsyncConfig::Url("https://m/z".to_string())), "https://x/a"), Some("https://m/z".to_string()));
    assert_eq!(zsync_url(&None, "https://x/a"), None);
}

#[test]
fn content_range_totals() {
    assert_eq!(parse_total_length_from_content_range("bytes 0-0/16"), Ok(16));
    assert_eq!(
        parse_total_length_from_content_range("bytes 0-0/*"),
        Err("Content-Range did not include a total length".to_string())
    );
    assert_eq!(
        parse_total_length_from_content_range("garbage"),
        Err("Invalid Content-Range header: garbage".to_string())
    );
    assert_eq!(
        parse_total_length_from_content_range("bytes 0-0/x"),
        Err("Invalid total length in Content-Range: bytes 0-0/x".to_string())
    );
}

#[test]
fn segments_cover_the_file_exactly() {
    assert_eq!(segment_ranges(16), Ok(vec![(0, 3), (4, 7), (8, 11), (12, 15)]));
    assert_eq!(segment_ranges(10), Ok(vec![(0, 2), (3, 5), (6, 8), (9, 9)]));
    assert_eq!(segment_ranges(3), Ok(vec![(0, 0), (1, 1), (2, 2)]));
    assert_eq!(segment_ranges(5), Ok(vec![(0, 1), (2, 3), (4, 4)]));
    assert_eq!(segment_ranges(1), Err("File too small for segmented download".to_string()));
    for total in 2..200u64 {
        let ranges = segment_ranges(total).unwrap();
        assert_eq!(ranges[0].0, 0);
        assert_eq!(ranges.last().unwrap().1, total - 1);
        for w in ranges.windows(2) {
            assert_eq!(w[1].0, w[0].1 + 1);
        }
    }
    assert_eq!(range_header(4, 7), "bytes=4-7");
}

#[test]
fn range_refusals_and_retryable_errors() {
    assert_eq!(segmented_support_from_error("Server returned 200 instead of 206 for bytes=0-3"), Some(false));
    assert_eq!(segmented_support_from_error("timed out"), None);
    assert!(is_retryable_chunk_completion_error("Chunk Length Is Not ASCII"));
    assert!(!is_retryable_chunk_completion_error("404 not found"));
}

#[test]
fn progress_bars_track_downloads() {
    let mut ui = ProgressUi::new(true);
    assert_eq!(ui.begin(0, "empty"), None);
    let h = ui.begin(100, "app").unwrap();
    assert_eq!(h, ProgressHandle { id: 0 });
    assert!(!ui.inc(h.id, 3, false));
    assert!(ui.inc(h.id, 3, false));
    assert!(ui.inc(h.id, 0, true));
    assert!(!ui.inc(42, 50, true));
    assert_eq!(ui.bar_count(), 1);
    assert!(ui.abandon(h.id));
    assert!(!ui.abandon(h.id));
    assert_eq!(ui.bar_count(), 0);
    ui.set_rendered(2);
    assert_eq!(ui.clear_all(), 2);
    assert_eq!(ui.clear_rendered(), 0);
    let mut off = ProgressUi::new(false);
    assert_eq!(off.begin(10, "x"), None);
}

#[test]
fn progress_guard_finishes_once() {
    let mut guard = ProgressGuard::new(Some(ProgressHandle { id: 7 }), "app", "1.0");
    assert_eq!(guard.finish(), Some(ProgressHandle { id: 7 }));
    assert_eq!(guard.finish(), None);
    assert_eq!(green("ok"), "\u{1b}[32mok\u{1b}[0m");
}

#[test]
fn byte_counts_for_people() {
    assert_eq!(human_bytes(0), "0B");
    assert_eq!(human_bytes(1023), "1023B");
    assert_eq!(human_bytes(1024), "1.0KiB");
    assert_eq!(human_bytes(1536), "1.5KiB");
    assert_eq!(human_bytes(1280 * 1024), "1.2MiB");
    assert_eq!(human_bytes(1048575), "1024.0KiB");
    assert_eq!(human_bytes(3 * 1024 * 1024 * 1024), "3.0GiB");
    assert_eq!(human_bytes(5 * 1024 * 1024 * 1024 * 1024 * 1024), "5120.0TiB");
}

#[test]
fn segmented_downloads_follow_what_is_known_of_ranges() {
    assert_eq!(segmented_next(Some(false), &SegmentedEvent::Start), SegmentedStep::GiveUp(Some(false)));
    assert_eq!(segmented_next(Some(true), &SegmentedEvent::Start), SegmentedStep::AskLength);
    assert_eq!(segmented_next(None, &SegmentedEvent::Start), SegmentedStep::Probe);
    assert_eq!(segmented_next(Some(true), &SegmentedEvent::Length(Some(1000))), SegmentedStep::Download(1000));
    assert_eq!(segmented_next(Some(true), &SegmentedEvent::Length(None)), SegmentedStep::Probe);
    assert_eq!(
        segmented_next(None, &SegmentedEvent::Probed(Some(SegmentProbe::Supported(5000)))),
        SegmentedStep::Download(5000)
    );
    assert_eq!(
        segmented_next(None, &SegmentedEvent::Probed(Some(SegmentProbe::Supported(1)))),
        SegmentedStep::GiveUp(Some(true))
    );
    assert_eq!(
        segmented_next(None, &SegmentedEvent::Probed(Some(SegmentProbe::Unsupported))),
        SegmentedStep::GiveUp(Some(false))
    );
    assert_eq!(segmented_next(Some(true), &SegmentedEvent::Probed(None)), SegmentedStep::GiveUp(Some(true)));
    assert_eq!(segmented_next(None, &SegmentedEvent::Probed(None)), SegmentedStep::GiveUp(None));
}

#[test]
fn segmented_outcome_records_refused_ranges() {
    assert_eq!(segmented_outcome(None), (true, Some(true)));
    assert_eq!(segmented_outcome(Some("Server returned 200 OK instead of 206 for bytes=0-9")), (false, Some(false)));
    assert_eq!(segmented_outcome(Some("connection reset")), (false, Some(true)));
}

#[test]
fn downloads_fall_back_from_zsync_to_segments_to_plain_http() {
    assert_eq!(next_download_method(true, true, None), Some(DownloadMethod::Zsync));
    assert_eq!(next_download_method(false, true, None), Some(DownloadMethod::Segmented));
    assert_eq!(next_download_method(false, false, None), Some(DownloadMethod::Plain));
    assert_eq!(next_download_method(true, true, Some((DownloadMethod::Zsync, false))), Some(DownloadMethod::Segmented));
    assert_eq!(next_download_method(true, false, Some((DownloadMethod::Zsync, false))), Some(DownloadMethod::Plain));
    assert_eq!(next_download_method(true, true, Some((DownloadMethod::Segmented, false))), Some(DownloadMethod::Plain));
    assert_eq!(next_download_method(true, true, Some((DownloadMethod::Zsync, true))), None);
    assert_eq!(next_download_method(false, true, Some((DownloadMethod::Plain, true))), None);
    assert!(!may_be_archive(DownloadMethod::Zsync));
    assert!(may_be_archive(DownloadMethod::Segmented));
    assert!(may_be_archive(DownloadMethod::Plain));
}
