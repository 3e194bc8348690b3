use disk_scan::signature::{
    detect_signature, has_apfs, has_exfat, has_ext, has_fat32, has_gpt_with_partitions,
    has_mbr_with_partitions, has_ntfs, has_zfs,
};

const MIB: u64 = 1024 * 1024;

fn with(len: usize, parts: &[(usize, &[u8])]) -> Vec<u8> {
    let mut buf = vec![0u8; len];
    for (at, bytes) in parts {
        buf[*at..*at + bytes.len()].copy_from_slice(bytes);
    }
    buf
}

fn gpt(lba: u64, count: u32, entry_size: u32) -> Vec<u8> {
    with(
        4096,
        &[
            (72, &lba.to_le_bytes()),
            (80, &count.to_le_bytes()),
            (84, &entry_size.to_le_bytes()),
            (512, b"EFI PART"),
        ],
    )
}

#[test]
fn gpt_with_an_entry_in_use() {
    let mut buf = gpt(2, 128, 128);
    assert!(!has_gpt_with_partitions(&buf));
    buf[1024 + 511] = 1;
    assert!(has_gpt_with_partitions(&buf));
    assert_eq!(detect_signature(&buf, 4096), Some("GPT partition table".to_string()));
}

#[test]
fn gpt_looks_at_four_entries() {
    let mut buf = gpt(2, 128, 128);
    buf[1024 + 512] = 1;
    assert!(!has_gpt_with_partitions(&buf));
}

#[test]
fn gpt_looks_at_no_more_entries_than_there_are() {
    let mut buf = gpt(2, 2, 16);
    buf[1024 + 32] = 1;
    assert!(!has_gpt_with_partitions(&buf));
    buf[1024 + 31] = 1;
    assert!(has_gpt_with_partitions(&buf));
}

#[test]
fn gpt_without_entries() {
    let mut buf = gpt(2, 0, 128);
    buf[1024] = 1;
    assert!(!has_gpt_with_partitions(&buf));
}

#[test]
fn gpt_with_entries_out_of_sight() {
    assert!(has_gpt_with_partitions(&gpt(8, 1, 128)));
    assert!(has_gpt_with_partitions(&gpt(u64::MAX, 1, 128)));
    assert!(!has_gpt_with_partitions(&gpt(7, 1, 128)));
}

#[test]
fn gpt_entry_size_of_zero_counts_as_one() {
    let mut buf = gpt(2, 3, 0);
    buf[1024 + 3] = 1;
    assert!(!has_gpt_with_partitions(&buf));
    buf[1024 + 2] = 1;
    assert!(has_gpt_with_partitions(&buf));
}

#[test]
fn gpt_with_huge_numbers() {
    let mut buf = gpt(2, u32::MAX, u32::MAX);
    assert!(!has_gpt_with_partitions(&buf));
    buf[4095] = 1;
    assert!(has_gpt_with_partitions(&buf));
}

#[test]
fn gpt_needs_its_header() {
    assert!(!has_gpt_with_partitions(&[]));
    assert!(!has_gpt_with_partitions(&gpt(2, 1, 128)[..519]));
    assert!(has_gpt_with_partitions(&gpt(2, 1, 128)[..520]));
}

#[test]
fn mbr_with_an_entry_in_use() {
    let empty = with(512, &[(510, &[0x55, 0xaa])]);
    assert!(!has_mbr_with_partitions(&empty));
    for at in [446, 509] {
        let mut buf = empty.clone();
        buf[at] = 1;
        assert!(has_mbr_with_partitions(&buf));
        assert_eq!(detect_signature(&buf, 512), Some("MBR partition table".to_string()));
        assert_eq!(detect_signature(&buf, 511), None);
        assert!(!has_mbr_with_partitions(&buf[..511]));
        buf[511] = 0xab;
        assert!(!has_mbr_with_partitions(&buf));
    }
    let mut boot_code = empty;
    boot_code[445] = 1;
    assert!(!has_mbr_with_partitions(&boot_code));
}

#[test]
fn ntfs_boot_sector() {
    let buf = with(11, &[(3, b"NTFS    ")]);
    assert!(has_ntfs(&buf));
    assert!(!has_ntfs(&buf[..10]));
    assert_eq!(detect_signature(&buf, MIB), Some("NTFS filesystem".to_string()));
    assert_eq!(detect_signature(&buf, MIB - 1), None);
}

#[test]
fn exfat_boot_sector() {
    let buf = with(11, &[(3, b"EXFAT   ")]);
    assert!(has_exfat(&buf) && !has_ntfs(&buf));
    assert_eq!(detect_signature(&buf, MIB), Some("exFAT filesystem".to_string()));
    assert_eq!(detect_signature(&buf, MIB - 1), None);
}

#[test]
fn fat32_boot_sector() {
    let buf = with(90, &[(82, b"FAT32   ")]);
    assert!(has_fat32(&buf));
    assert!(!has_fat32(&buf[..89]));
    assert_eq!(detect_signature(&buf, 32 * MIB), Some("FAT32 filesystem".to_string()));
    assert_eq!(detect_signature(&buf, 32 * MIB - 1), None);
}

#[test]
fn ext_superblock() {
    let buf = with(1082, &[(1080, &[0x53, 0xef])]);
    assert!(has_ext(&buf));
    assert!(!has_ext(&buf[..1081]));
    assert_eq!(detect_signature(&buf, 2048), Some("ext2/3/4 filesystem".to_string()));
    assert_eq!(detect_signature(&buf, 2047), None);
}

#[test]
fn apfs_anywhere() {
    for at in [0, 32, 96] {
        let buf = with(100, &[(at, b"NXSB")]);
        assert!(has_apfs(&buf));
        assert_eq!(detect_signature(&buf, MIB), Some("APFS filesystem".to_string()));
        assert_eq!(detect_signature(&buf, MIB - 1), None);
    }
    assert!(!has_apfs(b"NXS"));
    assert!(!has_apfs(b"NXSNXS"));
}

#[test]
fn zfs_anywhere() {
    for at in [0, 5, 91] {
        let buf = with(100, &[(at, b"ZFS LABEL")]);
        assert!(has_zfs(&buf));
        assert_eq!(detect_signature(&buf, 64 * MIB), Some("ZFS pool".to_string()));
        assert_eq!(detect_signature(&buf, 64 * MIB - 1), None);
    }
    assert!(!has_zfs(b"ZFS LABE"));
}

#[test]
fn first_kind_counts() {
    let buf = with(
        2048,
        &[(3, b"NTFS    "), (446, &[1]), (510, &[0x55, 0xaa]), (1080, &[0x53, 0xef])],
    );
    assert_eq!(detect_signature(&buf, 64 * MIB), Some("MBR partition table".to_string()));
    let buf = with(2048, &[(3, b"NTFS    "), (82, b"FAT32   "), (1080, &[0x53, 0xef])]);
    assert_eq!(detect_signature(&buf, 64 * MIB), Some("NTFS filesystem".to_string()));
    assert_eq!(detect_signature(&buf, 4096), Some("ext2/3/4 filesystem".to_string()));
}

#[test]
fn blank_device_is_clear() {
    for len in [0usize, 1, 512, 4096] {
        assert_eq!(detect_signature(&vec![0; len], u64::MAX), None);
    }
}

#[test]
fn tiny_device_is_clear() {
    let buf = with(2048, &[(3, b"NTFS    "), (446, &[1]), (510, &[0x55, 0xaa])]);
    assert_eq!(detect_signature(&buf, 100), None);
}
