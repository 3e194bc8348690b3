use disk_scan::preflight::{
    confirm_destruction, enforce_fs_checks, size_from_metadata, size_from_probe, DeviceHead,
    HeadReader, SizeProbe, Startup, StartupAction, DESTRUCTIVE_WARNING, MAX_SCAN_BYTES,
};

fn head(name: &str, size: u64, parts: &[(usize, &[u8])]) -> DeviceHead {
    let mut bytes = vec![0u8; 2048];
    for (at, part) in parts {
        bytes[*at..*at + part.len()].copy_from_slice(part);
    }
    DeviceHead { name: name.to_string(), size, bytes }
}

fn used(name: &str) -> DeviceHead {
    head(name, 4096, &[(446, &[1]), (510, &[0x55, 0xaa])])
}

const REFUSAL: &str = "Existing partition table or filesystem detected:\n\
- /dev/b: MBR partition table\n\
- /dev/c: ext2/3/4 filesystem\n\
Refusing to continue to protect data. Back up important data, then wipe the partition table/filesystem (e.g. `wipefs -a <device>` or `dd if=/dev/zero of=<device> bs=1M count=10`), or rerun with --skip-fs-check to force continue.";

#[test]
fn devices_in_use_are_refused() {
    let devices = [
        head("/dev/a", 4096, &[]),
        used("/dev/b"),
        head("/dev/c", 4096, &[(1080, &[0x53, 0xef])]),
    ];
    assert_eq!(enforce_fs_checks(&devices), Err(REFUSAL.to_string()));
    assert_eq!(enforce_fs_checks(&devices[..1]), Ok(()));
    assert_eq!(enforce_fs_checks(&[]), Ok(()));
}

#[test]
fn wiped_devices_are_accepted() {
    let devices = [head("/dev/a", u64::MAX, &[]), head("/dev/b", 4096, &[])];
    assert_eq!(enforce_fs_checks(&devices), Ok(()));
}

#[test]
fn device_of_size_zero_is_not_in_use() {
    let mut device = used("/dev/a");
    assert_eq!(device.detect_existing_fs(), Some("MBR partition table".to_string()));
    device.size = 0;
    assert_eq!(device.detect_existing_fs(), None);
}

#[test]
fn start_of_a_device_is_collected() {
    let mut reader = HeadReader::new(5);
    assert_eq!(reader.next_read(), Some(5));
    reader.accept(&[1, 2]);
    assert_eq!(reader.next_read(), Some(3));
    reader.accept(&[3, 4, 5]);
    assert_eq!(reader.next_read(), None);
    let head = reader.into_head("/dev/a".to_string(), 5);
    assert_eq!(head.name, "/dev/a");
    assert_eq!(head.size, 5);
    assert_eq!(head.bytes, vec![1, 2, 3, 4, 5]);
}

#[test]
fn start_of_a_device_ends_with_it() {
    let mut reader = HeadReader::new(5);
    reader.accept(&[1, 2]);
    reader.accept(&[]);
    assert_eq!(reader.next_read(), None);
    assert_eq!(reader.into_head(String::new(), 5).bytes, vec![1, 2]);
}

#[test]
fn start_of_a_device_is_limited() {
    assert_eq!(MAX_SCAN_BYTES, 1024 * 1024);
    assert_eq!(HeadReader::new(u64::MAX).next_read(), Some(MAX_SCAN_BYTES));
    assert_eq!(HeadReader::new(0).next_read(), None);
}

#[test]
fn size_of_a_device() {
    assert_eq!(size_from_metadata(12), Some(12));
    assert_eq!(size_from_metadata(0), None);
    assert_eq!(size_from_probe("/dev/a", SizeProbe::Linux { status: 0, size: 99 }), Ok(99));
    assert_eq!(
        size_from_probe("/dev/a", SizeProbe::Linux { status: -1, size: 99 }),
        Err("unable to determine size for /dev/a (ioctl BLKGETSIZE64 failed)".to_string())
    );
    assert_eq!(size_from_probe("/dev/a", SizeProbe::FreeBsd { status: 0, media_size: 98 }), Ok(98));
    assert_eq!(
        size_from_probe("/dev/a", SizeProbe::FreeBsd { status: 0, media_size: -1 }),
        Ok(u64::MAX)
    );
    assert_eq!(
        size_from_probe("/dev/a", SizeProbe::FreeBsd { status: -1, media_size: 98 }),
        Err("unable to determine size for /dev/a (ioctl DIOCGMEDIASIZE failed)".to_string())
    );
    assert_eq!(
        size_from_probe("/dev/a", SizeProbe::Unsupported),
        Err("unable to determine size for /dev/a (unsupported platform)".to_string())
    );
}

#[test]
fn only_yes_is_a_confirmation() {
    for line in ["YES", "YES\n", "  YES\r\n", "\u{a0}\u{3000}YES\t"] {
        assert_eq!(line.trim(), "YES");
        assert_eq!(confirm_destruction(line), Ok(()));
    }
    for line in ["", "\n", "yes\n", "YE", "YESS", "YES YES", "Y ES", "NO", "\u{200b}YES"] {
        assert_ne!(line.trim(), "YES");
        assert_eq!(confirm_destruction(line), Err("aborted by user".to_string()));
    }
}

#[test]
fn white_space_is_that_of_the_standard_library() {
    for code in 0u32..0x11_0000 {
        if let Some(ch) = char::from_u32(code) {
            let line = format!("{}YES", ch);
            assert_eq!(confirm_destruction(&line).is_ok(), ch.is_whitespace(), "{:x}", code);
        }
    }
}

#[test]
fn startup_needs_a_device() {
    let startup = Startup { skip_fs_check: true, skip_warning: true };
    assert_eq!(
        startup.begin(0),
        Err("At least one -d/--device must be provided".to_string())
    );
    assert_eq!(startup.begin(1), Ok(StartupAction::Scan));
}

#[test]
fn startup_checks_and_asks() {
    let startup = Startup { skip_fs_check: false, skip_warning: false };
    assert_eq!(startup.begin(2), Ok(StartupAction::Probe));
    assert_eq!(startup.after_probe(&[head("/dev/a", 4096, &[])]), Ok(StartupAction::Ask));
    assert!(startup.after_probe(&[used("/dev/a")]).is_err());
    assert_eq!(startup.after_answer("YES\n"), Ok(StartupAction::Scan));
    assert_eq!(startup.after_answer("y\n"), Err("aborted by user".to_string()));
}

#[test]
fn startup_skips_what_is_not_wanted() {
    let startup = Startup { skip_fs_check: true, skip_warning: false };
    assert_eq!(startup.begin(2), Ok(StartupAction::Ask));
    let startup = Startup { skip_fs_check: false, skip_warning: true };
    assert_eq!(startup.begin(2), Ok(StartupAction::Probe));
    assert_eq!(startup.after_probe(&[head("/dev/a", 4096, &[])]), Ok(StartupAction::Scan));
}

#[test]
fn nothing_is_destroyed_unasked() {
    for skip_fs_check in [false, true] {
        for skip_warning in [false, true] {
            let startup = Startup { skip_fs_check, skip_warning };
            assert!(startup.decide(&[], "YES").is_err());
            for in_use in [false, true] {
                for line in ["YES", "no"] {
                    let heads =
                        [if in_use { used("/dev/a") } else { head("/dev/a", 4096, &[]) }];
                    assert_eq!(
                        startup.decide(&heads, line).is_ok(),
                        (skip_fs_check || !in_use) && (skip_warning || line == "YES")
                    );
                }
            }
        }
    }
}

#[test]
fn first_reason_against_a_scan_is_given() {
    let startup = Startup { skip_fs_check: false, skip_warning: false };
    let heads = [used("/dev/b"), head("/dev/c", 4096, &[(1080, &[0x53, 0xef])])];
    assert_eq!(
        startup.decide(&[], "no"),
        Err("At least one -d/--device must be provided".to_string())
    );
    assert_eq!(startup.decide(&heads, "no"), Err(REFUSAL.to_string()));
    let startup = Startup { skip_fs_check: true, skip_warning: false };
    assert_eq!(startup.decide(&heads, "no"), Err("aborted by user".to_string()));
    assert_eq!(startup.decide(&heads, "YES\n"), Ok(()));
}

#[test]
fn refusal_names_the_option() {
    let message = enforce_fs_checks(&[used("/a")]).unwrap_err();
    assert!(message.contains("--skip-fs-check"));
    assert!(!message.contains("skip_fs_check"));
}

#[test]
fn warning_is_clear() {
    assert_eq!(
        DESTRUCTIVE_WARNING,
        "WARNING: This operation overwrites data on the specified block devices. All data will be destroyed."
    );
}
