//! Recognition of partition tables and filesystems by what lies at the start of a device.

use vstd::prelude::*;

verus! {

/// The smallest device that can hold a GPT.
pub const MIN_GPT_SIZE: u64 = 1024;

/// The smallest device that can hold an MBR.
pub const MIN_MBR_SIZE: u64 = 512;

/// The smallest device that can hold an NTFS filesystem.
pub const MIN_NTFS_SIZE: u64 = 1048576;

/// The smallest device that can hold an exFAT filesystem.
pub const MIN_EXFAT_SIZE: u64 = 1048576;

/// The smallest device that can hold a FAT32 filesystem.
pub const MIN_FAT32_SIZE: u64 = 33554432;

/// The smallest device that can hold an ext2, ext3 or ext4 filesystem.
pub const MIN_EXT_SIZE: u64 = 2048;

/// The smallest device that can hold an APFS filesystem.
pub const MIN_APFS_SIZE: u64 = 1048576;

/// The smallest device that can hold a ZFS pool.
pub const MIN_ZFS_SIZE: u64 = 67108864;

/// "EFI PART"
pub const EFI_PART: [u8; 8] = [0x45, 0x46, 0x49, 0x20, 0x50, 0x41, 0x52, 0x54];

/// "NTFS    "
pub const NTFS: [u8; 8] = [0x4e, 0x54, 0x46, 0x53, 0x20, 0x20, 0x20, 0x20];

/// "EXFAT   "
pub const EXFAT: [u8; 8] = [0x45, 0x58, 0x46, 0x41, 0x54, 0x20, 0x20, 0x20];

/// "FAT32   "
pub const FAT32: [u8; 8] = [0x46, 0x41, 0x54, 0x33, 0x32, 0x20, 0x20, 0x20];

/// The magic number of ext2, ext3 and ext4.
pub const EXT_MAGIC: [u8; 2] = [0x53, 0xef];

/// The boot signature of an MBR.
pub const BOOT_SIGNATURE: [u8; 2] = [0x55, 0xaa];

/// "NXSB"
pub const NXSB: [u8; 4] = [0x4e, 0x58, 0x53, 0x42];

/// "ZFS LABEL"
pub const ZFS_LABEL: [u8; 9] = [0x5a, 0x46, 0x53, 0x20, 0x4c, 0x41, 0x42, 0x45, 0x4c];

/// Whether `buf` holds `magic` at `at`.
pub open spec fn has_at(buf: Seq<u8>, at: int, magic: Seq<u8>) -> bool {
    &&& 0 <= at
    &&& at + magic.len() <= buf.len()
    &&& buf.subrange(at, at + magic.len()) == magic
}

/// Whether `buf` holds `magic` anywhere.
pub open spec fn has_anywhere(buf: Seq<u8>, magic: Seq<u8>) -> bool {
    exists|at: int| #[trigger] has_at(buf, at, magic)
}

/// Whether a byte of `buf` in the range from `from` to `to` is not zero.
pub open spec fn has_nonzero(buf: Seq<u8>, from: int, to: int) -> bool {
    exists|i: int| from <= i < to && #[trigger] buf[i] != 0
}

/// The number that bytes stand for, least significant byte first.
pub open spec fn le_value(bytes: Seq<u8>) -> nat
    decreases bytes.len(),
{
    if bytes.len() == 0 {
        0
    } else {
        bytes[0] as nat + 256 * le_value(bytes.drop_first())
    }
}

/// `256` to the power of `n`.
pub open spec fn pow256(n: nat) -> nat
    decreases n,
{
    if n == 0 {
        1
    } else {
        256 * pow256((n - 1) as nat)
    }
}

/// Whether `buf` holds `magic` at `at`.
fn matches_at(buf: &[u8], at: usize, magic: &[u8]) -> (found: bool)
    ensures
        found == has_at(buf@, at as int, magic@),
{
    if magic.len() > buf.len() || at > buf.len() - magic.len() {
        return false;
    }
    let mut i: usize = 0;
    while i < magic.len()
        invariant
            at + magic@.len() <= buf@.len() <= usize::MAX,
            i <= magic@.len(),
            forall|j: int| 0 <= j < i ==> buf@[at + j] == #[trigger] magic@[j],
        decreases magic@.len() - i,
    {
        if buf[at + i] != magic[i] {
            assert(buf@.subrange(at as int, at + magic@.len())[i as int] != magic@[i as int]);
            return false;
        }
        i = i + 1;
    }
    assert(buf@.subrange(at as int, at + magic@.len()) =~= magic@);
    true
}

/// Whether `buf` holds `magic` anywhere.
fn contains(buf: &[u8], magic: &[u8]) -> (found: bool)
    ensures
        found == has_anywhere(buf@, magic@),
{
    if magic.len() > buf.len() {
        return false;
    }
    let last: usize = buf.len() - magic.len();
    let mut at: usize = 0;
    while at <= last
        invariant
            last + magic@.len() == buf@.len() <= usize::MAX,
            0 <= at <= last + 1,
            forall|i: int| 0 <= i < at ==> !#[trigger] has_at(buf@, i, magic@),
        decreases last + 1 - at,
    {
        if matches_at(buf, at, magic) {
            return true;
        }
        if at == last {
            return false;
        }
        at = at + 1;
    }
    false
}

/// Whether a byte of `buf` in the range from `from` to `to` is not zero.
fn any_nonzero(buf: &[u8], from: usize, to: usize) -> (found: bool)
    requires
        to <= buf@.len(),
    ensures
        found == has_nonzero(buf@, from as int, to as int),
{
    let mut i: usize = from;
    while i < to
        invariant
            from <= i,
            to <= buf@.len(),
            forall|j: int| from <= j < i && j < to ==> buf@[j] == 0,
        decreases to - i,
    {
        if buf[i] != 0 {
            return true;
        }
        i = i + 1;
    }
    false
}

proof fn lemma_pow256(n: nat)
    ensures
        pow256(0) == 1,
        pow256(4) == 0x1_0000_0000,
        pow256(8) == 0x1_0000_0000_0000_0000,
        pow256(n) >= 1,
        n <= 8 ==> pow256(n) <= 0x1_0000_0000_0000_0000,
    decreases n,
{
    reveal_with_fuel(pow256, 9);
    if n > 0 {
        lemma_pow256((n - 1) as nat);
    }
}

/// The number in the `count` bytes of `buf` at `at`.
fn read_le(buf: &[u8], at: usize, count: usize) -> (value: u64)
    requires
        at + count <= buf@.len(),
        count <= 8,
    ensures
        value == le_value(buf@.subrange(at as int, at + count)),
        value < pow256(count as nat),
{
    let mut value: u64 = 0;
    let mut i: usize = count;
    proof {
        lemma_pow256(0);
        assert(buf@.len() == buf.len());
    }
    while i > 0
        invariant
            i <= count <= 8,
            at + count <= buf@.len() <= usize::MAX,
            value == le_value(buf@.subrange(at + i, at + count)),
            value < pow256((count - i) as nat),
        decreases i,
    {
        let byte: u8 = buf[at + i - 1];
        proof {
            lemma_pow256((count - i + 1) as nat);
            assert(pow256((count - i + 1) as nat) == 256 * pow256((count - i) as nat));
            let s = buf@.subrange(at + i - 1, at + count);
            assert(s.drop_first() =~= buf@.subrange(at + i, at + count));
        }
        value = value * 256 + byte as u64;
        i = i - 1;
    }
    value
}

/// The index of the first byte of the partition entries, which are placed in sectors of 512
/// bytes by the number in bytes 72 to 80.
pub open spec fn gpt_entries_start(buf: Seq<u8>) -> int {
    vstd::math::min(512 * le_value(buf.subrange(72, 80)) as int, u64::MAX as int) as u64 as usize as int
}

/// The number of partition entries, in bytes 80 to 84.
pub open spec fn gpt_entries_count(buf: Seq<u8>) -> nat {
    le_value(buf.subrange(80, 84))
}

/// The size of a partition entry, in bytes 84 to 88, and at least one byte.
pub open spec fn gpt_entry_size(buf: Seq<u8>) -> nat {
    let size = le_value(buf.subrange(84, 88));
    if size < 1 {
        1
    } else {
        size
    }
}

/// The number of bytes of the partition entries that are looked at: those of the first four
/// entries, as far as they are there.
pub open spec fn gpt_sample_len(buf: Seq<u8>) -> int {
    let entries = vstd::math::min(
        gpt_entries_count(buf) as int * gpt_entry_size(buf) as int,
        u32::MAX as int,
    );
    let available = buf.len() - gpt_entries_start(buf);
    vstd::math::min(vstd::math::min(entries, available), 4 * gpt_entry_size(buf) as int)
}

/// Whether there is a GPT with partitions. Where the entries lie outside of `buf` they are taken
/// to be in use.
pub open spec fn gpt_with_partitions(buf: Seq<u8>) -> bool {
    &&& has_at(buf, 512, EFI_PART@)
    &&& gpt_entries_count(buf) > 0
    &&& {
        ||| gpt_entries_start(buf) >= buf.len()
        ||| has_nonzero(
            buf,
            gpt_entries_start(buf),
            gpt_entries_start(buf) + gpt_sample_len(buf),
        )
    }
}

/// Whether there is an MBR with an entry that is not empty.
pub open spec fn mbr_with_partitions(buf: Seq<u8>) -> bool {
    has_at(buf, 510, BOOT_SIGNATURE@) && has_nonzero(buf, 446, 510)
}

/// Whether `buf`, the start of a device, holds a GPT with partitions.
pub fn has_gpt_with_partitions(buf: &[u8]) -> (found: bool)
    ensures
        found == gpt_with_partitions(buf@),
{
    if !matches_at(buf, 512, &EFI_PART) {
        return false;
    }
    let entries_lba: u64 = read_le(buf, 72, 8);
    let entries_count: u64 = read_le(buf, 80, 4);
    let raw_size: u64 = read_le(buf, 84, 4);
    let entry_size: u64 = if raw_size < 1 {
        1
    } else {
        raw_size
    };
    if entries_count == 0 {
        return false;
    }
    proof {
        lemma_pow256(0);
    }
    let entries_offset: usize = match entries_lba.checked_mul(512) {
        Some(offset) => offset as usize,
        None => u64::MAX as usize,
    };
    if entries_offset >= buf.len() {
        return true;
    }
    assert(entries_count * entry_size <= 0xffff_ffff * 0x1_0000_0000) by (nonlinear_arith)
        requires
            entries_count <= 0xffff_ffff,
            entry_size <= 0x1_0000_0000,
    ;
    let product: u64 = entries_count * entry_size;
    let bytes_needed: u64 = if product > u32::MAX as u64 {
        u32::MAX as u64
    } else {
        product
    };
    let available: u64 = (buf.len() - entries_offset) as u64;
    let mut sample: u64 = if available < bytes_needed {
        available
    } else {
        bytes_needed
    };
    if 4 * entry_size < sample {
        sample = 4 * entry_size;
    }
    any_nonzero(buf, entries_offset, entries_offset + sample as usize)
}

/// Whether `buf`, the start of a device, holds an MBR with partitions.
pub fn has_mbr_with_partitions(buf: &[u8]) -> (found: bool)
    ensures
        found == mbr_with_partitions(buf@),
{
    matches_at(buf, 510, &BOOT_SIGNATURE) && any_nonzero(buf, 446, 510)
}

/// Whether `buf`, the start of a device, holds an NTFS boot sector.
pub fn has_ntfs(buf: &[u8]) -> (found: bool)
    ensures
        found == has_at(buf@, 3, NTFS@),
{
    matches_at(buf, 3, &NTFS)
}

/// Whether `buf`, the start of a device, holds an exFAT boot sector.
pub fn has_exfat(buf: &[u8]) -> (found: bool)
    ensures
        found == has_at(buf@, 3, EXFAT@),
{
    matches_at(buf, 3, &EXFAT)
}

/// Whether `buf`, the start of a device, holds a FAT32 boot sector.
pub fn has_fat32(buf: &[u8]) -> (found: bool)
    ensures
        found == has_at(buf@, 82, FAT32@),
{
    matches_at(buf, 82, &FAT32)
}

/// Whether `buf`, the start of a device, holds an ext2, ext3 or ext4 superblock.
pub fn has_ext(buf: &[u8]) -> (found: bool)
    ensures
        found == has_at(buf@, 1080, EXT_MAGIC@),
{
    matches_at(buf, 1080, &EXT_MAGIC)
}

/// Whether `buf`, the start of a device, holds the magic of an APFS superblock.
pub fn has_apfs(buf: &[u8]) -> (found: bool)
    ensures
        found == has_anywhere(buf@, NXSB@),
{
    contains(buf, &NXSB)
}

/// Whether `buf`, the start of a device, holds a ZFS label.
pub fn has_zfs(buf: &[u8]) -> (found: bool)
    ensures
        found == has_anywhere(buf@, ZFS_LABEL@),
{
    contains(buf, &ZFS_LABEL)
}

/// What a device of `size` bytes that starts with `buf` is in use for. The first kind that fits
/// counts, and only kinds that a device of that size can hold.
pub open spec fn signature(buf: Seq<u8>, size: u64) -> Option<Seq<char>> {
    if size >= MIN_GPT_SIZE && gpt_with_partitions(buf) {
        Some("GPT partition table"@)
    } else if size >= MIN_MBR_SIZE && mbr_with_partitions(buf) {
        Some("MBR partition table"@)
    } else if size >= MIN_NTFS_SIZE && has_at(buf, 3, NTFS@) {
        Some("NTFS filesystem"@)
    } else if size >= MIN_EXFAT_SIZE && has_at(buf, 3, EXFAT@) {
        Some("exFAT filesystem"@)
    } else if size >= MIN_FAT32_SIZE && has_at(buf, 82, FAT32@) {
        Some("FAT32 filesystem"@)
    } else if size >= MIN_EXT_SIZE && has_at(buf, 1080, EXT_MAGIC@) {
        Some("ext2/3/4 filesystem"@)
    } else if size >= MIN_APFS_SIZE && has_anywhere(buf, NXSB@) {
        Some("APFS filesystem"@)
    } else if size >= MIN_ZFS_SIZE && has_anywhere(buf, ZFS_LABEL@) {
        Some("ZFS pool"@)
    } else {
        None
    }
}

/// What a device of `size` bytes that starts with `buf` is in use for.
pub fn detect_signature(buf: &[u8], size: u64) -> (kind: Option<String>)
    ensures
        crate::text::text_of(kind) == signature(buf@, size),
{
    if size >= MIN_GPT_SIZE && has_gpt_with_partitions(buf) {
        return Some("GPT partition table".to_owned());
    }
    if size >= MIN_MBR_SIZE && has_mbr_with_partitions(buf) {
        return Some("MBR partition table".to_owned());
    }
    if size >= MIN_NTFS_SIZE && has_ntfs(buf) {
        return Some("NTFS filesystem".to_owned());
    }
    if size >= MIN_EXFAT_SIZE && has_exfat(buf) {
        return Some("exFAT filesystem".to_owned());
    }
    if size >= MIN_FAT32_SIZE && has_fat32(buf) {
        return Some("FAT32 filesystem".to_owned());
    }
    if size >= MIN_EXT_SIZE && has_ext(buf) {
        return Some("ext2/3/4 filesystem".to_owned());
    }
    if size >= MIN_APFS_SIZE && has_apfs(buf) {
        return Some("APFS filesystem".to_owned());
    }
    if size >= MIN_ZFS_SIZE && has_zfs(buf) {
        return Some("ZFS pool".to_owned());
    }
    None
}

/// A device that starts with zeros is not in use. So a wiped device, or a sparse file, can be
/// scanned.
pub proof fn law_blank_device_is_clear(buf: Seq<u8>, size: u64)
    requires
        forall|i: int| 0 <= i < buf.len() ==> buf[i] == 0,
    ensures
        signature(buf, size) is None,
{
    assert forall|at: int, magic: Seq<u8>| magic.len() > 0 && magic[0] != 0 implies !#[trigger] has_at(
        buf,
        at,
        magic,
    ) by {
        if has_at(buf, at, magic) {
            assert(buf.subrange(at, at + magic.len())[0] == buf[at]);
        }
    }
}

/// A device that is smaller than a sector is not in use, whatever it holds.
pub proof fn law_tiny_device_is_clear(buf: Seq<u8>, size: u64)
    requires
        size < MIN_MBR_SIZE,
    ensures
        signature(buf, size) is None,
{
}

/// An NTFS boot sector is told by `NTFS` and four spaces at byte 3.
pub proof fn law_ntfs_is_told_by_its_name(buf: &[u8], found: bool)
    requires
        call_ensures(has_ntfs, (buf,), found),
    ensures
        found <==> buf@.len() >= 11 && buf@.subrange(3, 11) == seq![0x4eu8, 0x54, 0x46, 0x53, 0x20, 0x20, 0x20, 0x20],
{
    assert(NTFS@ =~= seq![0x4eu8, 0x54, 0x46, 0x53, 0x20, 0x20, 0x20, 0x20]);
}

/// An exFAT boot sector is told by `EXFAT` and three spaces at byte 3.
pub proof fn law_exfat_is_told_by_its_name(buf: &[u8], found: bool)
    requires
        call_ensures(has_exfat, (buf,), found),
    ensures
        found <==> buf@.len() >= 11 && buf@.subrange(3, 11) == seq![0x45u8, 0x58, 0x46, 0x41, 0x54, 0x20, 0x20, 0x20],
{
    assert(EXFAT@ =~= seq![0x45u8, 0x58, 0x46, 0x41, 0x54, 0x20, 0x20, 0x20]);
}

/// A FAT32 boot sector is told by `FAT32` and three spaces at byte 82.
pub proof fn law_fat32_is_told_by_its_name(buf: &[u8], found: bool)
    requires
        call_ensures(has_fat32, (buf,), found),
    ensures
        found <==> buf@.len() >= 90 && buf@.subrange(82, 90) == seq![0x46u8, 0x41, 0x54, 0x33, 0x32, 0x20, 0x20, 0x20],
{
    assert(FAT32@ =~= seq![0x46u8, 0x41, 0x54, 0x33, 0x32, 0x20, 0x20, 0x20]);
}

/// An ext superblock is told by its magic number at byte 1080.
pub proof fn law_ext_is_told_by_its_magic(buf: &[u8], found: bool)
    requires
        call_ensures(has_ext, (buf,), found),
    ensures
        found <==> buf@.len() >= 1082 && buf@.subrange(1080, 1082) == seq![0x53u8, 0xef],
{
    assert(EXT_MAGIC@ =~= seq![0x53u8, 0xef]);
}

/// An APFS superblock is told by `NXSB`, wherever it stands.
pub proof fn law_apfs_is_told_by_its_magic(buf: &[u8], found: bool)
    requires
        call_ensures(has_apfs, (buf,), found),
    ensures
        found <==> exists|at: int|
            0 <= at <= buf@.len() - 4 && #[trigger] buf@[at] == 0x4e && buf@[at + 1] == 0x58 && buf@[at + 2] == 0x53 && buf@[at + 3] == 0x42,
{
    let magic = seq![0x4eu8, 0x58, 0x53, 0x42];
    assert(NXSB@ =~= magic);
    assert forall|at: int| #[trigger] has_at(buf@, at, NXSB@) implies buf@[at + 0] == magic[0] && buf@[at + 1] == magic[1] && buf@[at + 2] == magic[2] && buf@[at + 3] == magic[3] by {
        let part = buf@.subrange(at, at + 4);
        assert(forall|k: int| 0 <= k < 4 ==> #[trigger] part[k] == buf@[at + k]);
        assert(part == magic);
    }
    assert forall|at: int|
        0 <= at <= buf@.len() - 4 && #[trigger] buf@[at] == 0x4e && buf@[at + 1] == 0x58 && buf@[at + 2] == 0x53 && buf@[at + 3] == 0x42 implies has_at(buf@, at, NXSB@) by {
        assert(buf@.subrange(at, at + 4) =~= magic);
    }
}

/// A ZFS label is told by `ZFS LABEL`, wherever it stands.
pub proof fn law_zfs_is_told_by_its_label(buf: &[u8], found: bool)
    requires
        call_ensures(has_zfs, (buf,), found),
    ensures
        found <==> exists|at: int|
            0 <= at <= buf@.len() - 9 && #[trigger] buf@[at] == 0x5a && buf@[at + 1] == 0x46 && buf@[at + 2] == 0x53 && buf@[at + 3] == 0x20 && buf@[at + 4] == 0x4c && buf@[at + 5] == 0x41 && buf@[at + 6] == 0x42 && buf@[at + 7] == 0x45 && buf@[at + 8] == 0x4c,
{
    let magic = seq![0x5au8, 0x46, 0x53, 0x20, 0x4c, 0x41, 0x42, 0x45, 0x4c];
    assert(ZFS_LABEL@ =~= magic);
    assert forall|at: int| #[trigger] has_at(buf@, at, ZFS_LABEL@) implies buf@[at + 0] == magic[0] && buf@[at + 1] == magic[1] && buf@[at + 2] == magic[2] && buf@[at + 3] == magic[3] && buf@[at + 4] == magic[4] && buf@[at + 5] == magic[5] && buf@[at + 6] == magic[6] && buf@[at + 7] == magic[7] && buf@[at + 8] == magic[8] by {
        let part = buf@.subrange(at, at + 9);
        assert(forall|k: int| 0 <= k < 9 ==> #[trigger] part[k] == buf@[at + k]);
        assert(part == magic);
    }
    assert forall|at: int|
        0 <= at <= buf@.len() - 9 && #[trigger] buf@[at] == 0x5a && buf@[at + 1] == 0x46 && buf@[at + 2] == 0x53 && buf@[at + 3] == 0x20 && buf@[at + 4] == 0x4c && buf@[at + 5] == 0x41 && buf@[at + 6] == 0x42 && buf@[at + 7] == 0x45 && buf@[at + 8] == 0x4c implies has_at(buf@, at, ZFS_LABEL@) by {
        assert(buf@.subrange(at, at + 9) =~= magic);
    }
}

/// An MBR has partitions if and only if it has its boot signature and one of its four entries is
/// not blank.
pub proof fn law_mbr_is_in_use_by_its_entries(buf: &[u8], found: bool)
    requires
        call_ensures(has_mbr_with_partitions, (buf,), found),
    ensures
        found <==> {
            &&& buf@.len() >= 512
            &&& buf@[510] == 0x55
            &&& buf@[511] == 0xaa
            &&& exists|i: int| 446 <= i < 510 && #[trigger] buf@[i] != 0
        },
{
    let magic = seq![0x55u8, 0xaa];
    assert(BOOT_SIGNATURE@ =~= magic);
    if buf@.len() >= 512 {
        let part = buf@.subrange(510, 512);
        assert(part[0] == buf@[510] && part[1] == buf@[511]);
        if buf@[510] == 0x55 && buf@[511] == 0xaa {
            assert(part =~= magic);
        }
    }
}

/// The number in `n` bytes, each of them worth 256 times the one before it.
pub open spec fn number_at(buf: Seq<u8>, at: int, n: nat) -> int
    decreases n,
{
    if n == 0 {
        0
    } else {
        number_at(buf, at, (n - 1) as nat) + buf[at + n - 1] * vstd::arithmetic::power::pow(
            256,
            (n - 1) as nat,
        )
    }
}

proof fn lemma_number_shift(buf: Seq<u8>, at: int, n: nat)
    requires
        n > 0,
    ensures
        number_at(buf, at, n) == buf[at] + 256 * number_at(buf, at + 1, (n - 1) as nat),
    decreases n,
{
    reveal(vstd::arithmetic::power::pow);
    reveal_with_fuel(number_at, 2);
    if n > 1 {
        lemma_number_shift(buf, at, (n - 1) as nat);
        let p = vstd::arithmetic::power::pow(256, (n - 2) as nat);
        let b = buf[at + n - 1] as int;
        assert(vstd::arithmetic::power::pow(256, (n - 1) as nat) == 256 * p);
        assert(b * (256 * p) == 256 * (b * p)) by (nonlinear_arith);
    } else {
        assert(vstd::arithmetic::power::pow(256, 0) == 1);
    }
}

proof fn lemma_le_value(buf: Seq<u8>, at: int, n: nat)
    requires
        0 <= at,
        at + n <= buf.len(),
    ensures
        le_value(buf.subrange(at, at + n)) == number_at(buf, at, n),
    decreases n,
{
    if n > 0 {
        let s = buf.subrange(at, at + n);
        assert(s.drop_first() =~= buf.subrange(at + 1, at + n));
        lemma_le_value(buf, at + 1, (n - 1) as nat);
        lemma_number_shift(buf, at, n);
    }
}

/// A GPT has partitions only if it has its header and counts entries. It has some if its entries
/// lie outside of what was read. Otherwise it has some if and only if a byte is not zero that
/// belongs to the first four entries and to what was read.
pub proof fn law_gpt_is_in_use_by_its_first_entries(buf: &[u8], found: bool)
    requires
        call_ensures(has_gpt_with_partitions, (buf,), found),
    ensures
        ({
            let header = buf@.len() >= 520 && buf@.subrange(512, 520)
                == seq![0x45u8, 0x46, 0x49, 0x20, 0x50, 0x41, 0x52, 0x54];
            let start = 512 * number_at(buf@, 72, 8);
            let count = number_at(buf@, 80, 4);
            let size = vstd::math::max(number_at(buf@, 84, 4), 1);
            &&& !header ==> !found
            &&& header && count == 0 ==> !found
            &&& header && count > 0 && start > u64::MAX ==> found
            &&& header && count > 0 && buf@.len() <= start <= usize::MAX ==> found
            &&& header && count > 0 && start < buf@.len() ==> (found <==> exists|i: int|
                {
                    &&& start <= i < buf@.len()
                    &&& i - start < 4 * size
                    &&& i - start < count * size
                    &&& i - start < u32::MAX
                    &&& #[trigger] buf@[i] != 0
                })
        }),
{
    assert(EFI_PART@ =~= seq![0x45u8, 0x46, 0x49, 0x20, 0x50, 0x41, 0x52, 0x54]);
    if buf@.len() >= 520 {
        lemma_le_value(buf@, 72, 8);
        lemma_le_value(buf@, 80, 4);
        lemma_le_value(buf@, 84, 4);
        assert(buf@.len() == buf.len());
        let len: usize = buf.len();
        assert(len <= 0xffff_ffff_ffff_ffffu64 as usize) by (bit_vector);
    }
}

/// A kind of use that shows on a device which is large enough for it is never missed: whatever
/// else the device holds, and however large it is, it is found to be in use. Nothing else makes
/// it so.
pub proof fn law_no_use_is_missed(
    buf: &[u8],
    size: u64,
    kind: Option<String>,
    gpt: bool,
    mbr: bool,
    ntfs: bool,
    exfat: bool,
    fat32: bool,
    ext: bool,
    apfs: bool,
    zfs: bool,
)
    requires
        call_ensures(detect_signature, (buf, size), kind),
        call_ensures(has_gpt_with_partitions, (buf,), gpt),
        call_ensures(has_mbr_with_partitions, (buf,), mbr),
        call_ensures(has_ntfs, (buf,), ntfs),
        call_ensures(has_exfat, (buf,), exfat),
        call_ensures(has_fat32, (buf,), fat32),
        call_ensures(has_ext, (buf,), ext),
        call_ensures(has_apfs, (buf,), apfs),
        call_ensures(has_zfs, (buf,), zfs),
    ensures
        gpt && size >= 1024 ==> kind is Some,
        mbr && size >= 512 ==> kind is Some,
        ntfs && size >= 1024 * 1024 ==> kind is Some,
        exfat && size >= 1024 * 1024 ==> kind is Some,
        fat32 && size >= 32 * 1024 * 1024 ==> kind is Some,
        ext && size >= 2048 ==> kind is Some,
        apfs && size >= 1024 * 1024 ==> kind is Some,
        zfs && size >= 64 * 1024 * 1024 ==> kind is Some,
        !gpt && !mbr && !ntfs && !exfat && !fat32 && !ext && !apfs && !zfs ==> kind is None,
        kind is Some ==> {
            ||| gpt && size >= 1024
            ||| mbr && size >= 512
            ||| ntfs && size >= 1024 * 1024
            ||| exfat && size >= 1024 * 1024
            ||| fat32 && size >= 32 * 1024 * 1024
            ||| ext && size >= 2048
            ||| apfs && size >= 1024 * 1024
            ||| zfs && size >= 64 * 1024 * 1024
        },
{
}

/// A device in use is named after what shows on it: partition tables before filesystems, and of
/// several filesystems the one that is looked for first.
pub proof fn law_use_is_named_after_what_shows(
    buf: &[u8],
    size: u64,
    kind: Option<String>,
    gpt: bool,
    mbr: bool,
    ntfs: bool,
    exfat: bool,
    fat32: bool,
    ext: bool,
    apfs: bool,
    zfs: bool,
)
    requires
        call_ensures(detect_signature, (buf, size), kind),
        call_ensures(has_gpt_with_partitions, (buf,), gpt),
        call_ensures(has_mbr_with_partitions, (buf,), mbr),
        call_ensures(has_ntfs, (buf,), ntfs),
        call_ensures(has_exfat, (buf,), exfat),
        call_ensures(has_fat32, (buf,), fat32),
        call_ensures(has_ext, (buf,), ext),
        call_ensures(has_apfs, (buf,), apfs),
        call_ensures(has_zfs, (buf,), zfs),
        kind is Some,
    ensures
        gpt && size >= 1024 ==> kind->0@ == "GPT partition table"@,
        mbr && !(gpt && size >= 1024) ==> kind->0@ == "MBR partition table"@,
        ntfs && size >= 1024 * 1024 && !gpt && !mbr ==> kind->0@ == "NTFS filesystem"@,
        exfat && size >= 1024 * 1024 && !gpt && !mbr ==> kind->0@ == "exFAT filesystem"@,
        fat32 && size >= 32 * 1024 * 1024 && !gpt && !mbr && !ntfs && !exfat ==> kind->0@
            == "FAT32 filesystem"@,
        ext && !gpt && !mbr && !(size >= 1024 * 1024 && (ntfs || exfat)) && !(size >= 32 * 1024
            * 1024 && fat32) ==> kind->0@ == "ext2/3/4 filesystem"@,
        apfs && !gpt && !mbr && !ntfs && !exfat && !(size >= 32 * 1024 * 1024 && fat32) && !ext
            ==> kind->0@ == "APFS filesystem"@,
        zfs && !gpt && !mbr && !ntfs && !exfat && !fat32 && !ext && !apfs ==> kind->0@
            == "ZFS pool"@,
{
    assert(!(ntfs && exfat)) by {
        if has_at(buf@, 3, NTFS@) && has_at(buf@, 3, EXFAT@) {
            assert(NTFS@[0] == EXFAT@[0]);
        }
    }
}

/// What is in use stays in use on a larger device: if a device is in use, so is every larger one
/// that starts with the same bytes.
pub proof fn law_larger_devices_are_in_use_too(
    buf: &[u8],
    size: u64,
    larger: u64,
    kind: Option<String>,
    other: Option<String>,
)
    requires
        call_ensures(detect_signature, (buf, size), kind),
        call_ensures(detect_signature, (buf, larger), other),
        size <= larger,
        kind is Some,
    ensures
        other is Some,
{
}

} // verus!
