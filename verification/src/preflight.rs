//! What is looked at before a scan may destroy the data on a device.

use crate::signature::detect_signature;
use crate::text::chars_of;
use vstd::prelude::*;

verus! {

/// The number of bytes at the start of a device in which signs of use are looked for.
pub const MAX_SCAN_BYTES: usize = 1048576;

/// What the user is told before the prompt.
pub const DESTRUCTIVE_WARNING: &'static str =
    "WARNING: This operation overwrites data on the specified block devices. All data will be destroyed.";

/// The start of a device.
#[derive(Debug)]
pub struct DeviceHead {
    pub name: String,
    pub size: u64,
    pub bytes: Vec<u8>,
}

impl DeviceHead {
    /// What the device is in use for.
    pub open spec fn use_found(self) -> Option<Seq<char>> {
        if self.size == 0 {
            None
        } else {
            crate::signature::signature(self.bytes@, self.size)
        }
    }

    /// What the device is in use for.
    pub fn detect_existing_fs(&self) -> (kind: Option<String>)
        ensures
            crate::text::text_of(kind) == self.use_found(),
    {
        if self.size == 0 {
            return None;
        }
        detect_signature(self.bytes.as_slice(), self.size)
    }
}

/// Collects the start of a device, read piece by piece.
#[derive(Debug)]
pub struct HeadReader {
    wanted: usize,
    bytes: Vec<u8>,
    at_end: bool,
}

/// The mathematical value of a [`HeadReader`].
#[verifier::ext_equal]
pub struct HeadReaderView {
    /// The number of bytes to collect.
    pub wanted: int,
    /// The bytes collected.
    pub bytes: Seq<u8>,
    /// Whether the device gave no more bytes.
    pub at_end: bool,
}

impl View for HeadReader {
    type V = HeadReaderView;

    closed spec fn view(&self) -> HeadReaderView {
        HeadReaderView { wanted: self.wanted as int, bytes: self.bytes@, at_end: self.at_end }
    }
}

impl HeadReader {
    /// No more is collected than wanted.
    pub closed spec fn wf(self) -> bool {
        self.bytes@.len() <= self.wanted <= MAX_SCAN_BYTES
    }

    /// Starts to collect from a device of the given size.
    pub fn new(size: u64) -> (reader: HeadReader)
        ensures
            reader.wf(),
            reader@.wanted == vstd::math::min(size as usize as int, MAX_SCAN_BYTES as int),
            reader@.bytes == Seq::<u8>::empty(),
            !reader@.at_end,
    {
        let whole: usize = size as usize;
        let wanted: usize = if whole < MAX_SCAN_BYTES {
            whole
        } else {
            MAX_SCAN_BYTES
        };
        HeadReader { wanted, bytes: Vec::new(), at_end: false }
    }

    /// The most bytes to read next, or none if enough was read.
    pub fn next_read(&self) -> (most: Option<usize>)
        requires
            self.wf(),
        ensures
            match most {
                Some(most) => {
                    &&& !self@.at_end
                    &&& most > 0
                    &&& most == self@.wanted - self@.bytes.len()
                },
                None => self@.at_end || self@.bytes.len() == self@.wanted,
            },
    {
        if self.at_end || self.bytes.len() == self.wanted {
            None
        } else {
            Some(self.wanted - self.bytes.len())
        }
    }

    /// Takes what was read. Nothing read means that the device has no more.
    pub fn accept(&mut self, piece: &[u8])
        requires
            old(self).wf(),
            old(self)@.bytes.len() + piece@.len() <= old(self)@.wanted,
        ensures
            final(self).wf(),
            final(self)@ == (HeadReaderView {
                bytes: old(self)@.bytes + piece@,
                at_end: old(self)@.at_end || piece@.len() == 0,
                ..old(self)@
            }),
    {
        self.bytes.extend_from_slice(piece);
        assert(self.bytes@ =~= old(self)@.bytes + piece@);
        if piece.is_empty() {
            self.at_end = true;
        }
    }

    /// The start of the device as far as it was read.
    pub fn into_head(self, name: String, size: u64) -> (head: DeviceHead)
        ensures
            head.name@ == name@,
            head.size == size,
            head.bytes@ == self@.bytes,
    {
        DeviceHead { name, size, bytes: self.bytes }
    }
}

/// A line for each device in use.
pub open spec fn use_lines(devices: Seq<DeviceHead>) -> Seq<char>
    decreases devices.len(),
{
    if devices.len() == 0 {
        Seq::empty()
    } else {
        let before = use_lines(devices.drop_last());
        match devices.last().use_found() {
            Some(kind) => before + "- "@ + devices.last().name@ + ": "@ + kind + "\n"@,
            None => before,
        }
    }
}

/// Whether no device is in use.
pub open spec fn none_in_use(devices: Seq<DeviceHead>) -> bool {
    forall|i: int| 0 <= i < devices.len() ==> (#[trigger] devices[i]).use_found() is None
}

/// The first line of a refusal.
pub const IN_USE_HEADING: &'static str = "Existing partition table or filesystem detected:\n";

/// The last line of a refusal.
pub const IN_USE_ADVICE: &'static str =
    "Refusing to continue to protect data. Back up important data, then wipe the partition table/filesystem (e.g. `wipefs -a <device>` or `dd if=/dev/zero of=<device> bs=1M count=10`), or rerun with --skip-fs-check to force continue.";

/// Refuses to go on if a device is in use, and says which are and for what.
pub fn enforce_fs_checks(devices: &[DeviceHead]) -> (checked: Result<(), String>)
    ensures
        match checked {
            Ok(_) => none_in_use(devices@),
            Err(message) => {
                &&& !none_in_use(devices@)
                &&& message@ == IN_USE_HEADING@ + use_lines(devices@) + IN_USE_ADVICE@
            },
        },
{
    let mut lines: String = String::new();
    let mut found: bool = false;
    let mut i: usize = 0;
    assert(devices@.take(0) =~= Seq::empty());
    while i < devices.len()
        invariant
            i <= devices@.len(),
            found == !none_in_use(devices@.take(i as int)),
            lines@ == use_lines(devices@.take(i as int)),
        decreases devices@.len() - i,
    {
        let device: &DeviceHead = &devices[i];
        let ghost before = devices@.take(i as int);
        let ghost after = devices@.take(i + 1);
        assert(after.drop_last() =~= before);
        assert(after.last() == *device);
        if let Some(kind) = device.detect_existing_fs() {
            lines.append("- ");
            lines.append(device.name.as_str());
            lines.append(": ");
            lines.append(kind.as_str());
            lines.append("\n");
            found = true;
            assert(after[i as int].use_found() is Some);
        } else {
            assert(none_in_use(before) ==> none_in_use(after));
            assert(none_in_use(after) ==> none_in_use(before)) by {
                assert(forall|j: int| 0 <= j < i ==> before[j] == after[j]);
            }
        }
        i = i + 1;
    }
    assert(devices@.take(devices@.len() as int) =~= devices@);
    if !found {
        return Ok(());
    }
    let mut message: String = IN_USE_HEADING.to_owned();
    message.append(lines.as_str());
    message.append(IN_USE_ADVICE);
    Err(message)
}

/// The size of a device, where the metadata of its path gives it. That of a block device is
/// given as zero, and has to be asked for.
pub fn size_from_metadata(len: u64) -> (size: Option<u64>)
    ensures
        size == if len > 0 {
            Some(len)
        } else {
            None
        },
{
    if len > 0 {
        Some(len)
    } else {
        None
    }
}

/// The answer of the system to a request for the size of a block device.
#[derive(Debug, Clone, Copy)]
pub enum SizeProbe {
    /// The status and the result of `BLKGETSIZE64`.
    Linux { status: i32, size: u64 },
    /// The status and the result of `DIOCGMEDIASIZE`.
    FreeBsd { status: i32, media_size: i64 },
    /// There is no such request.
    Unsupported,
}

/// Whether the system gave a size, and which.
pub open spec fn probed_size(probe: SizeProbe) -> Option<u64> {
    match probe {
        SizeProbe::Linux { status, size } => if status < 0 {
            None
        } else {
            Some(size)
        },
        SizeProbe::FreeBsd { status, media_size } => if status < 0 {
            None
        } else {
            Some(media_size as u64)
        },
        SizeProbe::Unsupported => None,
    }
}

/// Why the system gave no size.
pub open spec fn probe_failure(probe: SizeProbe) -> Seq<char> {
    match probe {
        SizeProbe::Linux { .. } => " (ioctl BLKGETSIZE64 failed)"@,
        SizeProbe::FreeBsd { .. } => " (ioctl DIOCGMEDIASIZE failed)"@,
        SizeProbe::Unsupported => " (unsupported platform)"@,
    }
}

/// The size of a block device from the answer of the system.
pub fn size_from_probe(path: &str, probe: SizeProbe) -> (size: Result<u64, String>)
    ensures
        match size {
            Ok(size) => probed_size(probe) == Some(size),
            Err(message) => {
                &&& probed_size(probe) is None
                &&& message@ == "unable to determine size for "@ + path@ + probe_failure(probe)
            },
        },
{
    let failure: &str = match probe {
        SizeProbe::Linux { status, size } => {
            if status >= 0 {
                return Ok(size);
            }
            " (ioctl BLKGETSIZE64 failed)"
        },
        SizeProbe::FreeBsd { status, media_size } => {
            if status >= 0 {
                return Ok(media_size as u64);
            }
            " (ioctl DIOCGMEDIASIZE failed)"
        },
        SizeProbe::Unsupported => " (unsupported platform)",
    };
    let mut message: String = "unable to determine size for ".to_owned();
    message.append(path);
    message.append(failure);
    Err(message)
}

/// Whether a character is white space in the sense of Unicode.
pub open spec fn white_space(ch: char) -> bool {
    ||| '\u{9}' <= ch <= '\u{d}'
    ||| ch == ' '
    ||| ch == '\u{85}'
    ||| ch == '\u{a0}'
    ||| ch == '\u{1680}'
    ||| '\u{2000}' <= ch <= '\u{200a}'
    ||| ch == '\u{2028}'
    ||| ch == '\u{2029}'
    ||| ch == '\u{202f}'
    ||| ch == '\u{205f}'
    ||| ch == '\u{3000}'
}

fn is_white_space(ch: char) -> (white: bool)
    ensures
        white == white_space(ch),
{
    ('\u{9}' <= ch && ch <= '\u{d}') || ch == ' ' || ch == '\u{85}' || ch == '\u{a0}' || ch
        == '\u{1680}' || ('\u{2000}' <= ch && ch <= '\u{200a}') || ch == '\u{2028}' || ch
        == '\u{2029}' || ch == '\u{202f}' || ch == '\u{205f}' || ch == '\u{3000}'
}

/// Whether a line is the word `YES`, with nothing but white space around it.
pub open spec fn says_yes(line: Seq<char>) -> bool {
    exists|at: int| #[trigger] yes_at(line, at)
}

/// Whether a line is the word `YES` at `at`, with nothing but white space around it.
pub open spec fn yes_at(line: Seq<char>, at: int) -> bool {
    &&& 0 <= at
    &&& at + 3 <= line.len()
    &&& line.subrange(at, at + 3) == seq!['Y', 'E', 'S']
    &&& forall|i: int| 0 <= i < at || at + 3 <= i < line.len() ==> white_space(#[trigger] line[i])
}

/// Goes on only if the user has typed `YES`.
pub fn confirm_destruction(line: &str) -> (confirmed: Result<(), String>)
    ensures
        match confirmed {
            Ok(_) => says_yes(line@),
            Err(message) => !says_yes(line@) && message@ == "aborted by user"@,
        },
{
    let chars: Vec<char> = chars_of(line);
    let mut at: usize = 0;
    while at < chars.len() && is_white_space(chars[at])
        invariant
            at <= chars@.len(),
            forall|i: int| 0 <= i < at ==> white_space(#[trigger] chars@[i]),
        decreases chars@.len() - at,
    {
        at = at + 1;
    }
    let mut yes: bool = chars.len() - at >= 3 && chars[at] == 'Y' && chars[at + 1] == 'E'
        && chars[at + 2] == 'S';
    if yes {
        let mut i: usize = at + 3;
        while i < chars.len() && is_white_space(chars[i])
            invariant
                at + 3 <= i <= chars@.len(),
                forall|j: int| at + 3 <= j < i ==> white_space(#[trigger] chars@[j]),
            decreases chars@.len() - i,
        {
            i = i + 1;
        }
        yes = i == chars.len();
    }
    proof {
        if yes {
            assert(line@.subrange(at as int, at + 3) =~= seq!['Y', 'E', 'S']);
            assert(yes_at(line@, at as int));
        } else {
            assert forall|other: int| !#[trigger] yes_at(line@, other) by {
                if yes_at(line@, other) {
                    let word = line@.subrange(other, other + 3);
                    assert(word[0] == line@[other] && word[1] == line@[other + 1] && word[2]
                        == line@[other + 2]);
                    if other < at {
                        assert(white_space(line@[other]));
                    } else if other > at {
                        assert(white_space(line@[at as int]));
                    }
                }
            }
        }
    }
    if yes {
        Ok(())
    } else {
        Err("aborted by user".to_owned())
    }
}

/// What is to be done on the way to a scan.
#[derive(Debug, Clone, Copy, PartialEq, Eq, Structural)]
pub enum StartupAction {
    /// Read the starts of the devices.
    Probe,
    /// Warn the user and read a line.
    Ask,
    /// Scan the devices.
    Scan,
}

/// What the user has chosen to go without.
#[derive(Debug, Clone, Copy, PartialEq, Eq, Structural)]
pub struct Startup {
    pub skip_fs_check: bool,
    pub skip_warning: bool,
}

impl Startup {
    /// What is to be done once the devices may be scanned as far as their contents go.
    pub open spec fn past_check(self) -> StartupAction {
        if self.skip_warning {
            StartupAction::Scan
        } else {
            StartupAction::Ask
        }
    }

    /// What is to be done first.
    pub open spec fn first_action(self) -> StartupAction {
        if self.skip_fs_check {
            self.past_check()
        } else {
            StartupAction::Probe
        }
    }

    /// Whether it comes to a scan of the given number of devices, if `heads` is what they start
    /// with and `line` is what the user types.
    pub open spec fn comes_to_scan(self, count: int, heads: Seq<DeviceHead>, line: Seq<char>) -> bool {
        &&& count > 0
        &&& {
            let second = match self.first_action() {
                StartupAction::Probe => if none_in_use(heads) {
                    Some(self.past_check())
                } else {
                    None
                },
                action => Some(action),
            };
            match second {
                Some(StartupAction::Ask) => says_yes(line),
                Some(action) => action is Scan,
                None => false,
            }
        }
    }

    /// What the user is told where it does not come to a scan of the devices that start with
    /// `heads`. That there are none, or that one is in use, counts before the answer.
    pub open spec fn refusal(self, heads: Seq<DeviceHead>) -> Seq<char> {
        if heads.len() == 0 {
            "At least one -d/--device must be provided"@
        } else if !self.skip_fs_check && !none_in_use(heads) {
            IN_USE_HEADING@ + use_lines(heads) + IN_USE_ADVICE@
        } else {
            "aborted by user"@
        }
    }

    /// What is to be done first. A scan needs a device.
    pub fn begin(&self, count: usize) -> (action: Result<StartupAction, String>)
        ensures
            match action {
                Ok(action) => count > 0 && action == self.first_action(),
                Err(message) => count == 0 && message@
                    == "At least one -d/--device must be provided"@,
            },
    {
        if count == 0 {
            return Err("At least one -d/--device must be provided".to_owned());
        }
        if self.skip_fs_check {
            Ok(self.go_past_check())
        } else {
            Ok(StartupAction::Probe)
        }
    }

    fn go_past_check(&self) -> (action: StartupAction)
        ensures
            action == self.past_check(),
    {
        if self.skip_warning {
            StartupAction::Scan
        } else {
            StartupAction::Ask
        }
    }

    /// What is to be done when the starts of the devices were read. A device in use ends it.
    pub fn after_probe(&self, devices: &[DeviceHead]) -> (action: Result<StartupAction, String>)
        ensures
            match action {
                Ok(action) => none_in_use(devices@) && action == self.past_check(),
                Err(message) => {
                    &&& !none_in_use(devices@)
                    &&& message@ == IN_USE_HEADING@ + use_lines(devices@) + IN_USE_ADVICE@
                },
            },
    {
        match enforce_fs_checks(devices) {
            Ok(_) => Ok(self.go_past_check()),
            Err(message) => Err(message),
        }
    }

    /// What is to be done when the user has typed a line. Anything but `YES` ends it.
    pub fn after_answer(&self, line: &str) -> (action: Result<StartupAction, String>)
        ensures
            match action {
                Ok(action) => says_yes(line@) && action is Scan,
                Err(message) => !says_yes(line@) && message@ == "aborted by user"@,
            },
    {
        match confirm_destruction(line) {
            Ok(_) => Ok(StartupAction::Scan),
            Err(message) => Err(message),
        }
    }

    /// Whether it comes to a scan of the given devices, if `line` is what the user types, or why
    /// it does not. What is skipped is not looked at.
    pub fn decide(&self, devices: &[DeviceHead], line: &str) -> (go: Result<(), String>)
        ensures
            go is Ok <==> self.comes_to_scan(devices@.len() as int, devices@, line@),
            go is Err ==> go->Err_0@ == self.refusal(devices@),
    {
        let mut action: StartupAction = match self.begin(devices.len()) {
            Ok(action) => action,
            Err(message) => return Err(message),
        };
        if let StartupAction::Probe = action {
            action =
            match self.after_probe(devices) {
                Ok(action) => action,
                Err(message) => return Err(message),
            };
        }
        if let StartupAction::Ask = action {
            return match self.after_answer(line) {
                Ok(_) => Ok(()),
                Err(message) => Err(message),
            };
        }
        Ok(())
    }
}

/// Nothing is destroyed unasked: it comes to a scan if and only if a device was given, no device
/// is in use or the check is skipped, and the user has said yes or the warning is skipped.
pub proof fn law_nothing_is_destroyed_unasked(
    startup: Startup,
    count: int,
    heads: Seq<DeviceHead>,
    line: Seq<char>,
)
    ensures
        startup.comes_to_scan(count, heads, line) <==> {
            &&& count > 0
            &&& startup.skip_fs_check || none_in_use(heads)
            &&& startup.skip_warning || says_yes(line)
        },
{
}

/// Whether `text` holds `word`.
pub open spec fn mentions(text: Seq<char>, word: Seq<char>) -> bool {
    exists|at: int|
        0 <= at && at + word.len() <= text.len() && #[trigger] text.subrange(at, at + word.len())
            == word
}

/// A refusal says how to go on: it names the option of the command line that skips the check.
pub proof fn law_refusal_names_the_option(startup: Startup, heads: Seq<DeviceHead>)
    requires
        heads.len() > 0,
        !startup.skip_fs_check,
        !none_in_use(heads),
    ensures
        mentions(startup.refusal(heads), "--skip-fs-check"@),
{
    let option = "--skip-fs-check"@;
    let before = IN_USE_HEADING@ + use_lines(heads);
    reveal_strlit("--skip-fs-check");
    reveal_strlit(
        "Refusing to continue to protect data. Back up important data, then wipe the partition table/filesystem (e.g. `wipefs -a <device>` or `dd if=/dev/zero of=<device> bs=1M count=10`), or rerun with --skip-fs-check to force continue.",
    );
    let at: int = 194;
    assert(IN_USE_ADVICE@.subrange(at, at + option.len()) =~= option);
    assert((before + IN_USE_ADVICE@).subrange(before.len() + at, before.len() + at + option.len())
        =~= option);
}

/// Devices whose starts were wiped can be scanned: none of them is refused.
pub proof fn law_wiped_devices_are_accepted(devices: Seq<DeviceHead>)
    requires
        forall|i: int, j: int|
            0 <= i < devices.len() && 0 <= j < devices[i].bytes@.len()
                ==> #[trigger] devices[i].bytes@[j] == 0,
    ensures
        none_in_use(devices),
{
    assert forall|i: int| 0 <= i < devices.len() implies (
    #[trigger] devices[i]).use_found() is None by {
        crate::signature::law_blank_device_is_clear(devices[i].bytes@, devices[i].size);
    }
}

/// A device is in use for what its start shows, unless it is empty.
pub proof fn law_use_shows_at_the_start(
    head: DeviceHead,
    start: &[u8],
    kind: Option<String>,
    shown: Option<String>,
)
    requires
        start@ == head.bytes@,
        call_ensures(DeviceHead::detect_existing_fs, (&head,), kind),
        call_ensures(detect_signature, (start, head.size), shown),
    ensures
        head.size == 0 ==> kind is None,
        head.size > 0 ==> (kind is Some <==> shown is Some),
        head.size > 0 && kind is Some ==> kind->0@ == shown->0@,
        kind is Some <==> head.use_found() is Some,
        kind is Some ==> kind->0@ == head.use_found()->0,
{
}

/// One device in use is enough for a refusal, wherever it stands among the others, and it takes
/// one.
pub proof fn law_one_device_in_use_is_enough(
    devices: &[DeviceHead],
    kinds: Seq<Option<String>>,
    checked: Result<(), String>,
)
    requires
        kinds.len() == devices@.len(),
        forall|i: int|
            0 <= i < kinds.len() ==> call_ensures(
                DeviceHead::detect_existing_fs,
                (&devices@[i],),
                #[trigger] kinds[i],
            ),
        call_ensures(enforce_fs_checks, (devices,), checked),
    ensures
        checked is Err <==> exists|i: int| 0 <= i < kinds.len() && #[trigger] kinds[i] is Some,
{
    assert forall|i: int| 0 <= i < kinds.len() implies (devices@[i].use_found() is Some
        <==> #[trigger] kinds[i] is Some) by {}
    if exists|i: int| 0 <= i < kinds.len() && #[trigger] kinds[i] is Some {
        let i = choose|i: int| 0 <= i < kinds.len() && #[trigger] kinds[i] is Some;
        assert(devices@[i].use_found() is Some);
    }
    if checked is Err {
        let i = choose|i: int|
            0 <= i < devices@.len() && (#[trigger] devices@[i]).use_found() is Some;
        assert(kinds[i] is Some);
    }
}

/// A refusal lists the devices in use, in their order, one line for each, and no other device:
/// the list for some devices and others is that for the ones followed by that for the others.
pub proof fn law_refusal_lists_the_devices_in_use(
    some: Seq<DeviceHead>,
    others: Seq<DeviceHead>,
    device: DeviceHead,
    kind: Option<String>,
)
    requires
        call_ensures(DeviceHead::detect_existing_fs, (&device,), kind),
    ensures
        use_lines(some + others) == use_lines(some) + use_lines(others),
        use_lines(Seq::empty()) == Seq::<char>::empty(),
        kind is None ==> use_lines(seq![device]) == Seq::<char>::empty(),
        kind is Some ==> use_lines(seq![device]) == "- "@ + device.name@ + ": "@ + kind->0@
            + "\n"@,
    decreases others.len(),
{
    let one = seq![device];
    assert(one.drop_last() =~= Seq::empty());
    assert(one.last() == device);
    reveal_with_fuel(use_lines, 2);
    assert(Seq::<char>::empty() + "- "@ =~= "- "@);
    if others.len() == 0 {
        assert(some + others =~= some);
        assert(use_lines(some) + use_lines(others) =~= use_lines(some));
    } else {
        let rest = others.drop_last();
        law_refusal_lists_the_devices_in_use(some, rest, device, kind);
        assert((some + others).drop_last() =~= some + rest);
        assert((some + others).last() == others.last());
        assert(use_lines(some + others) =~= use_lines(some) + use_lines(others));
    }
}

/// A refusal is a heading, the list of the devices in use, and how to go on.
pub proof fn law_refusal_is_heading_list_and_advice(
    devices: &[DeviceHead],
    checked: Result<(), String>,
)
    requires
        call_ensures(enforce_fs_checks, (devices,), checked),
        checked is Err,
    ensures
        checked->Err_0@ == "Existing partition table or filesystem detected:\n"@ + use_lines(
            devices@,
        )
            + "Refusing to continue to protect data. Back up important data, then wipe the partition table/filesystem (e.g. `wipefs -a <device>` or `dd if=/dev/zero of=<device> bs=1M count=10`), or rerun with --skip-fs-check to force continue."@,
{
}

/// The start of a device is read until it is long enough or the device has no more: so much is
/// asked for as is missing of the size of the device, or of a mebibyte if that is less.
pub proof fn law_head_is_read_until_it_is_long_enough(
    size: u64,
    fresh: HeadReader,
    first: Option<usize>,
    reader: &mut HeadReader,
    piece: &[u8],
    most: Option<usize>,
    next: Option<usize>,
)
    requires
        call_ensures(HeadReader::new, (size,), fresh),
        call_ensures(HeadReader::next_read, (&fresh,), first),
        old(reader).wf(),
        call_ensures(HeadReader::next_read, (&*old(reader),), most),
        most is Some,
        piece@.len() <= most->0,
        call_ensures(HeadReader::accept, (reader, piece), ()),
        call_ensures(HeadReader::next_read, (&*final(reader),), next),
    ensures
        fresh.wf(),
        first is Some <==> size as usize > 0,
        first is Some ==> first->0 == vstd::math::min(size as usize as int, 0x10_0000),
        final(reader).wf(),
        next is Some <==> 0 < piece@.len() < most->0,
        next is Some ==> next->0 == most->0 - piece@.len(),
{
}

/// The start of a device is all that was read, in the order in which it was read.
pub proof fn law_head_is_all_that_was_read(
    size: u64,
    fresh: HeadReader,
    name: String,
    empty: DeviceHead,
    reader: &mut HeadReader,
    piece: &[u8],
    before: DeviceHead,
    after: DeviceHead,
)
    requires
        call_ensures(HeadReader::new, (size,), fresh),
        call_ensures(HeadReader::into_head, (fresh, name, size), empty),
        call_ensures(HeadReader::accept, (reader, piece), ()),
        call_ensures(HeadReader::into_head, (*old(reader), name, size), before),
        call_ensures(HeadReader::into_head, (*final(reader), name, size), after),
    ensures
        empty.bytes@ == Seq::<u8>::empty(),
        after.bytes@ == before.bytes@ + piece@,
        after.name@ == name@,
        after.size == size,
{
}

/// The size in the metadata counts, unless it is zero.
pub proof fn law_size_in_the_metadata_counts(len: u64, size: Option<u64>)
    requires
        call_ensures(size_from_metadata, (len,), size),
    ensures
        size is None <==> len == 0,
        size is Some ==> size->0 == len,
{
}

/// The size that the system gives counts, unless its status is negative.
pub proof fn law_size_from_the_system_counts(
    path: &str,
    status: i32,
    size: u64,
    media_size: i64,
    linux: Result<u64, String>,
    free_bsd: Result<u64, String>,
    unsupported: Result<u64, String>,
)
    requires
        call_ensures(size_from_probe, (path, SizeProbe::Linux { status, size }), linux),
        call_ensures(size_from_probe, (path, SizeProbe::FreeBsd { status, media_size }), free_bsd),
        call_ensures(size_from_probe, (path, SizeProbe::Unsupported), unsupported),
    ensures
        status >= 0 ==> linux is Ok && linux->Ok_0 == size,
        status >= 0 ==> free_bsd is Ok && free_bsd->Ok_0 == media_size as u64,
        status < 0 ==> linux is Err && linux->Err_0@ == "unable to determine size for "@ + path@
            + " (ioctl BLKGETSIZE64 failed)"@,
        status < 0 ==> free_bsd is Err && free_bsd->Err_0@ == "unable to determine size for "@
            + path@ + " (ioctl DIOCGMEDIASIZE failed)"@,
        unsupported is Err && unsupported->Err_0@ == "unable to determine size for "@ + path@
            + " (unsupported platform)"@,
{
}

/// White space is what Unicode takes for it.
pub proof fn law_white_space_is_that_of_unicode(ch: char)
    ensures
        white_space(ch) <==> {
            let code = ch as int;
            ||| 9 <= code <= 13
            ||| 0x2000 <= code <= 0x200a
            ||| set![0x20int, 0x85, 0xa0, 0x1680, 0x2028, 0x2029, 0x202f, 0x205f, 0x3000].contains(
                code,
            )
        },
{
}

/// Only `YES` is a confirmation, and it is one with any white space before and behind it: a line
/// that is such white space around a word is confirmed if and only if the word is `YES`.
pub proof fn law_only_yes_confirms(
    line: &str,
    before: Seq<char>,
    word: Seq<char>,
    behind: Seq<char>,
    confirmed: Result<(), String>,
)
    requires
        call_ensures(confirm_destruction, (line,), confirmed),
        line@ == before + word + behind,
        forall|i: int| 0 <= i < before.len() ==> white_space(#[trigger] before[i]),
        forall|i: int| 0 <= i < behind.len() ==> white_space(#[trigger] behind[i]),
        word.len() > 0 ==> !white_space(word[0]) && !white_space(word.last()),
    ensures
        confirmed is Ok <==> word == seq!['Y', 'E', 'S'],
        confirmed is Err ==> confirmed->Err_0@ == "aborted by user"@,
{
    let n = before.len() as int;
    if word == seq!['Y', 'E', 'S'] {
        assert(line@.subrange(n, n + 3) =~= word);
        assert forall|i: int| 0 <= i < n || n + 3 <= i < line@.len() implies white_space(
            #[trigger] line@[i],
        ) by {
            if i < n {
                assert(line@[i] == before[i]);
            } else {
                assert(line@[i] == behind[i - n - 3]);
            }
        }
        assert(yes_at(line@, n));
    }
    if says_yes(line@) {
        let at = choose|at: int| #[trigger] yes_at(line@, at);
        let yes = line@.subrange(at, at + 3);
        assert(yes[0] == line@[at] && yes[1] == line@[at + 1] && yes[2] == line@[at + 2]);
        let end = n + word.len();
        assert(forall|i: int| 0 <= i < n ==> line@[i] == before[i]);
        assert(forall|i: int| end <= i < line@.len() ==> line@[i] == behind[i - end]);
        assert(forall|i: int| n <= i < end ==> line@[i] == word[i - n]);
        if at < n {
            assert(white_space(before[at]));
        }
        if at + 2 >= end {
            assert(white_space(behind[at + 2 - end]));
        }
        assert(n <= at && at + 3 <= end);
        assert(line@[n] == word[0] && line@[end - 1] == word.last());
        if at > n {
            assert(white_space(line@[n]));
        }
        if at + 3 < end {
            assert(white_space(line@[end - 1]));
        }
        assert(word =~= yes);
    }
}

/// Without a device there is nothing to do. Otherwise what comes first is the check, or if that is
/// skipped the warning, or if that is skipped too the scan.
pub proof fn law_startup_skips_only_what_it_is_told_to(
    startup: Startup,
    count: usize,
    action: Result<StartupAction, String>,
)
    requires
        call_ensures(Startup::begin, (&startup, count), action),
    ensures
        count == 0 ==> action is Err && action->Err_0@
            == "At least one -d/--device must be provided"@,
        count > 0 ==> action is Ok,
        count > 0 ==> (action->Ok_0 is Probe <==> !startup.skip_fs_check),
        count > 0 ==> (action->Ok_0 is Ask <==> startup.skip_fs_check && !startup.skip_warning),
        count > 0 ==> (action->Ok_0 is Scan <==> startup.skip_fs_check && startup.skip_warning),
{
}

/// Behind the check comes the warning, or if that is skipped the scan, but only if the devices
/// pass. Behind the warning comes the scan, but only if the user confirms.
pub proof fn law_startup_goes_on_only_past_each_gate(
    startup: Startup,
    devices: &[DeviceHead],
    line: &str,
    checked: Result<(), String>,
    probed: Result<StartupAction, String>,
    confirmed: Result<(), String>,
    answered: Result<StartupAction, String>,
)
    requires
        call_ensures(enforce_fs_checks, (devices,), checked),
        call_ensures(Startup::after_probe, (&startup, devices), probed),
        call_ensures(confirm_destruction, (line,), confirmed),
        call_ensures(Startup::after_answer, (&startup, line), answered),
    ensures
        probed is Ok <==> checked is Ok,
        probed is Err ==> probed->Err_0@ == checked->Err_0@,
        probed is Ok ==> probed->Ok_0 == if startup.skip_warning {
            StartupAction::Scan
        } else {
            StartupAction::Ask
        },
        answered is Ok <==> confirmed is Ok,
        answered is Err ==> answered->Err_0@ == confirmed->Err_0@,
        answered is Ok ==> answered->Ok_0 is Scan,
{
}

/// It comes to a scan if and only if there is a device, and the devices pass the check or it is
/// skipped, and the user confirms or the warning is skipped. What stands against it first is what
/// the user is told.
pub proof fn law_scan_needs_every_gate(
    startup: Startup,
    devices: &[DeviceHead],
    line: &str,
    checked: Result<(), String>,
    confirmed: Result<(), String>,
    go: Result<(), String>,
)
    requires
        call_ensures(enforce_fs_checks, (devices,), checked),
        call_ensures(confirm_destruction, (line,), confirmed),
        call_ensures(Startup::decide, (&startup, devices, line), go),
    ensures
        go is Ok <==> {
            &&& devices@.len() > 0
            &&& startup.skip_fs_check || checked is Ok
            &&& startup.skip_warning || confirmed is Ok
        },
        devices@.len() == 0 ==> go->Err_0@ == "At least one -d/--device must be provided"@,
        devices@.len() > 0 && !startup.skip_fs_check && checked is Err ==> go->Err_0@
            == checked->Err_0@,
        devices@.len() > 0 && (startup.skip_fs_check || checked is Ok) && go is Err ==> go->Err_0@
            == confirmed->Err_0@,
{
}

} // verus!
