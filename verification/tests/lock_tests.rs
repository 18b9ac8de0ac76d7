use fp_appimage_updater::lock::{boot_id_from, boot_time_from_stat, lock_state_of, unreadable_lock_state, LockMetadata, LockState};

fn meta(pid: u32, boot: &str) -> LockMetadata {
    LockMetadata { pid, boot_id: boot.to_string() }
}

#[test]
fn lockfile_round_trips() {
    let m = meta(4242, "0b1c-77");
    let text = m.serialize();
    assert_eq!(text, "pid=4242\nboot_id=0b1c-77\n");
    match LockMetadata::parse(&text) {
        Ok(back) => {
            assert_eq!(back.pid, 4242);
            assert_eq!(back.boot_id, "0b1c-77");
        },
        Err(e) => panic!("{e}"),
    }
}

#[test]
fn lockfile_parse_errors() {
    assert_eq!(LockMetadata::parse("boot_id=x\n").err(), Some("Missing pid in lockfile".to_string()));
    assert_eq!(LockMetadata::parse("pid=3\nboot_id=  \n").err(), Some("Missing boot_id in lockfile".to_string()));
    assert_eq!(LockMetadata::parse("pid=abc\n").err(), Some("Invalid pid value in lockfile: abc".to_string()));
    assert_eq!(LockMetadata::parse("pid=99999999999\nboot_id=b\n").err(), Some("Invalid pid value in lockfile: 99999999999".to_string()));
    let later = LockMetadata::parse("pid=1\npid= 2 \nboot_id=a\nboot_id=b\n").ok().unwrap();
    assert_eq!(later.pid, 2);
    assert_eq!(later.boot_id, "b");
}

#[test]
fn lock_states() {
    match lock_state_of(&meta(7, "old"), "new", true) {
        LockState::Stale { reason } => assert_eq!(reason, "lockfile belongs to a previous boot (pid 7)"),
        _ => panic!("expected stale"),
    }
    match lock_state_of(&meta(0, "b"), "b", true) {
        LockState::Stale { reason } => assert_eq!(reason, "lockfile contains an invalid pid"),
        _ => panic!("expected stale"),
    }
    assert!(matches!(lock_state_of(&meta(7, "b"), "b", true), LockState::Active { pid: 7 }));
    match lock_state_of(&meta(7, "b"), "b", false) {
        LockState::Stale { reason } => assert_eq!(reason, "pid 7 is no longer running"),
        _ => panic!("expected stale"),
    }
    match unreadable_lock_state(true) {
        LockState::Stale { reason } => assert_eq!(reason, "legacy lockfile from before the current boot"),
        _ => panic!("expected stale"),
    }
    match unreadable_lock_state(false) {
        LockState::Stale { reason } => assert_eq!(reason, "lockfile has an invalid format"),
        _ => panic!("expected stale"),
    }
}

#[test]
fn boot_information_is_read_from_proc() {
    assert_eq!(boot_time_from_stat("cpu 1 2\nbtime 1700000000\nprocesses 5\n"), Ok(1_700_000_000));
    assert_eq!(boot_time_from_stat("cpu 1\n"), Err("Failed to find system boot time".to_string()));
    assert_eq!(boot_time_from_stat("btime x\n"), Err("Failed to parse system boot time".to_string()));
    assert_eq!(boot_id_from(" 1234-abcd\n"), "1234-abcd");
}
