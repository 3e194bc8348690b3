//! The report after a scan.

use crate::board::{Board, DeviceRow};
use crate::event::{ErrorKind, ErrorRecord};
use crate::text::push_decimal;
use vstd::prelude::*;

verus! {

/// The speeds of a device in megabits per second.
#[derive(Debug)]
pub struct ReportSpeeds {
    pub write: String,
    pub read: String,
}

/// The name of a kind of error.
pub open spec fn kind_name(kind: ErrorKind) -> Seq<char> {
    match kind {
        ErrorKind::Write => "Write"@,
        ErrorKind::Read => "Read"@,
        ErrorKind::Value => "Value"@,
    }
}

/// The line of an error.
pub open spec fn error_text(error: ErrorRecord) -> Seq<char> {
    "  - chunk "@ + crate::text::decimal(error.chunk_idx as nat) + " @ "@ + crate::text::decimal(
        error.offset as nat,
    ) + " (sector "@ + crate::text::decimal((error.offset / 512) as nat) + "): "@ + kind_name(
        error.kind,
    ) + " ("@ + error.message@ + ")"@
}

/// The line of a device.
pub open spec fn device_text(row: DeviceRow, speeds: ReportSpeeds) -> Seq<char> {
    row.name@ + ": "@ + crate::text::decimal(row.state.total_bytes as nat) + " bytes, write "@
        + speeds.write@ + " Mbps, read "@ + speeds.read@ + " Mbps, "@ + crate::text::decimal(
        row.state.errors@.len(),
    ) + " total errors (write "@ + crate::text::decimal(row.state.write_errors as nat) + ", read "@
        + crate::text::decimal(row.state.read_errors as nat) + ", value "@ + crate::text::decimal(
        row.state.value_errors as nat,
    ) + ")"@
}

/// The lines of the errors of a device.
pub open spec fn error_texts(errors: Seq<ErrorRecord>) -> Seq<Seq<char>> {
    Seq::new(errors.len(), |i: int| error_text(errors[i]))
}

/// The lines of the devices, each followed by those of its errors.
pub open spec fn device_texts(rows: Seq<DeviceRow>, speeds: Seq<ReportSpeeds>) -> Seq<Seq<char>>
    decreases rows.len(),
{
    if rows.len() == 0 {
        Seq::empty()
    } else {
        device_texts(rows.drop_last(), speeds.drop_last()).push(
            device_text(rows.last(), speeds.last()),
        ) + error_texts(rows.last().state.errors@)
    }
}

/// The lines of the report.
pub open spec fn report_texts(rows: Seq<DeviceRow>, speeds: Seq<ReportSpeeds>) -> Seq<Seq<char>> {
    seq!["\nScan complete."@] + device_texts(rows, speeds)
}

fn error_line(error: &ErrorRecord) -> (line: String)
    ensures
        line@ == error_text(*error),
{
    let mut line: String = "  - chunk ".to_owned();
    push_decimal(&mut line, error.chunk_idx);
    line.append(" @ ");
    push_decimal(&mut line, error.offset);
    line.append(" (sector ");
    push_decimal(&mut line, error.offset / 512);
    line.append("): ");
    line.append(
        match error.kind {
            ErrorKind::Write => "Write",
            ErrorKind::Read => "Read",
            ErrorKind::Value => "Value",
        },
    );
    line.append(" (");
    line.append(error.message.as_str());
    line.append(")");
    line
}

fn device_line(row: &DeviceRow, speeds: &ReportSpeeds) -> (line: String)
    requires
        row.state.wf(),
    ensures
        line@ == device_text(*row, *speeds),
{
    let total: u64 = row.state.total_errors();
    let mut line: String = row.name.clone();
    line.append(": ");
    push_decimal(&mut line, row.state.total_bytes);
    line.append(" bytes, write ");
    line.append(speeds.write.as_str());
    line.append(" Mbps, read ");
    line.append(speeds.read.as_str());
    line.append(" Mbps, ");
    push_decimal(&mut line, total);
    line.append(" total errors (write ");
    push_decimal(&mut line, row.state.write_errors);
    line.append(", read ");
    push_decimal(&mut line, row.state.read_errors);
    line.append(", value ");
    push_decimal(&mut line, row.state.value_errors);
    line.append(")");
    line
}

impl Board {
    /// The lines of the report on all devices.
    pub fn report(&self, speeds: &Vec<ReportSpeeds>) -> (lines: Vec<String>)
        requires
            self.wf(),
            speeds@.len() == self.rows@.len(),
        ensures
            crate::table::texts(lines@) == report_texts(self.rows@, speeds@),
    {
        let mut lines: Vec<String> = Vec::new();
        lines.push("\nScan complete.".to_owned());
        let mut i: usize = 0;
        proof {
            assert(self.rows@.take(0) =~= Seq::empty());
            assert(crate::table::texts(lines@) =~= report_texts(
                self.rows@.take(0),
                speeds@.take(0),
            ));
        }
        while i < self.rows.len()
            invariant
                self.wf(),
                i <= self.rows@.len() == speeds@.len(),
                crate::table::texts(lines@) == report_texts(
                    self.rows@.take(i as int),
                    speeds@.take(i as int),
                ),
            decreases self.rows@.len() - i,
        {
            let row: &DeviceRow = &self.rows[i];
            let ghost before = crate::table::texts(lines@);
            assert(row.state.wf());
            lines.push(device_line(row, &speeds[i]));
            let ghost headed = before.push(device_text(*row, speeds@[i as int]));
            assert(crate::table::texts(lines@) =~= headed);
            let errors: &Vec<ErrorRecord> = &row.state.errors;
            let mut j: usize = 0;
            assert(headed =~= headed + error_texts(errors@.take(0)));
            while j < errors.len()
                invariant
                    j <= errors@.len(),
                    crate::table::texts(lines@) == headed + error_texts(errors@.take(j as int)),
                decreases errors@.len() - j,
            {
                let ghost so_far = crate::table::texts(lines@);
                lines.push(error_line(&errors[j]));
                proof {
                    let line = error_text(errors@[j as int]);
                    assert(crate::table::texts(lines@) =~= so_far.push(line));
                    assert(error_texts(errors@.take(j + 1)) =~= error_texts(
                        errors@.take(j as int),
                    ).push(line));
                    assert(so_far.push(line) =~= headed + error_texts(errors@.take(j + 1)));
                }
                j = j + 1;
            }
            proof {
                assert(errors@.take(errors@.len() as int) =~= errors@);
                let rows = self.rows@.take(i + 1);
                let some = speeds@.take(i + 1);
                assert(rows.drop_last() =~= self.rows@.take(i as int));
                assert(some.drop_last() =~= speeds@.take(i as int));
                assert(crate::table::texts(lines@) =~= report_texts(rows, some));
            }
            i = i + 1;
        }
        assert(self.rows@.take(self.rows@.len() as int) =~= self.rows@);
        assert(speeds@.take(speeds@.len() as int) =~= speeds@);
        lines
    }
}

/// The report has a line for every device, with the numbers of its errors, and a line for every
/// error of every device.
pub proof fn law_report_is_complete(rows: Seq<DeviceRow>, speeds: Seq<ReportSpeeds>, i: int)
    requires
        rows.len() == speeds.len(),
        0 <= i < rows.len(),
    ensures
        report_texts(rows, speeds).contains(device_text(rows[i], speeds[i])),
        forall|j: int|
            0 <= j < rows[i].state.errors@.len() ==> report_texts(rows, speeds).contains(
                error_text(#[trigger] rows[i].state.errors@[j]),
            ),
{
    lemma_devices_complete(rows, speeds, i);
    let lines = report_texts(rows, speeds);
    let part = device_texts(rows, speeds);
    assert forall|line: Seq<char>| part.contains(line) implies #[trigger] lines.contains(line) by {
        let k = choose|k: int| 0 <= k < part.len() && part[k] == line;
        assert(lines[k + 1] == line);
    }
}

proof fn lemma_devices_complete(rows: Seq<DeviceRow>, speeds: Seq<ReportSpeeds>, i: int)
    requires
        rows.len() == speeds.len(),
        0 <= i < rows.len(),
    ensures
        device_texts(rows, speeds).contains(device_text(rows[i], speeds[i])),
        forall|j: int|
            0 <= j < rows[i].state.errors@.len() ==> device_texts(rows, speeds).contains(
                error_text(#[trigger] rows[i].state.errors@[j]),
            ),
    decreases rows.len(),
{
    let before = device_texts(rows.drop_last(), speeds.drop_last());
    let headed = before.push(device_text(rows.last(), speeds.last()));
    let errors = error_texts(rows.last().state.errors@);
    let all = device_texts(rows, speeds);
    assert(all == headed + errors);
    if i == rows.len() - 1 {
        assert(all[before.len() as int] == device_text(rows[i], speeds[i]));
        assert forall|j: int| 0 <= j < rows[i].state.errors@.len() implies all.contains(
            error_text(#[trigger] rows[i].state.errors@[j]),
        ) by {
            assert(all[before.len() + 1 + j] == errors[j]);
        }
    } else {
        lemma_devices_complete(rows.drop_last(), speeds.drop_last(), i);
        assert forall|line: Seq<char>| before.contains(line) implies #[trigger] all.contains(
            line,
        ) by {
            let k = choose|k: int| 0 <= k < before.len() && before[k] == line;
            assert(all[k] == line);
        }
    }
}

/// The number of the line of device `i` in a report: behind the first line, and behind the lines
/// of the devices and the errors before it.
pub open spec fn line_of_device(rows: Seq<DeviceRow>, i: int) -> int
    decreases i,
{
    if i <= 0 {
        1
    } else {
        line_of_device(rows, i - 1) + 1 + rows[i - 1].state.errors@.len()
    }
}

proof fn lemma_report_places(rows: Seq<DeviceRow>, speeds: Seq<ReportSpeeds>, i: int)
    requires
        rows.len() == speeds.len(),
        0 <= i <= rows.len(),
    ensures
        report_texts(rows, speeds).len() == line_of_device(rows, rows.len() as int),
        1 <= line_of_device(rows, i) <= report_texts(rows, speeds).len(),
        i < rows.len() ==> {
            let at = line_of_device(rows, i);
            &&& at + rows[i].state.errors@.len() < report_texts(rows, speeds).len()
            &&& report_texts(rows, speeds)[at] == device_text(rows[i], speeds[i])
            &&& forall|j: int|
                0 <= j < rows[i].state.errors@.len() ==> report_texts(rows, speeds)[#[trigger] (at
                    + 1 + j)] == error_text(rows[i].state.errors@[j])
        },
    decreases rows.len(),
{
    if rows.len() > 0 {
        let fewer = rows.drop_last();
        let some = speeds.drop_last();
        let last = rows.len() - 1;
        lemma_report_places(fewer, some, if i < last {
            i
        } else {
            last
        });
        lemma_same_place(rows, fewer, last);
        lemma_same_place(rows, fewer, if i < last {
            i
        } else {
            last
        });
        let before = device_texts(fewer, some);
        let all = device_texts(rows, speeds);
        let errors = error_texts(rows.last().state.errors@);
        assert(all == before.push(device_text(rows.last(), speeds.last())) + errors);
        assert(line_of_device(rows, rows.len() as int) == line_of_device(rows, last) + 1
            + rows[last].state.errors@.len());
        let whole = report_texts(rows, speeds);
        let shorter = report_texts(fewer, some);
        assert(shorter.len() == line_of_device(rows, last));
        assert(forall|k: int| 0 <= k < shorter.len() ==> whole[k] == shorter[k]);
        if i < last {
            assert(fewer[i] == rows[i] && some[i] == speeds[i]);
        } else if i == last {
            let at = line_of_device(rows, i);
            assert(whole[at] == all[at - 1]);
            assert forall|j: int| 0 <= j < rows[i].state.errors@.len() implies whole[#[trigger] (at
                + 1 + j)] == error_text(rows[i].state.errors@[j]) by {
                assert(whole[at + 1 + j] == all[at + j]);
                assert(all[at + j] == errors[j]);
            }
        }
    }
}

proof fn lemma_same_place(rows: Seq<DeviceRow>, fewer: Seq<DeviceRow>, i: int)
    requires
        rows.len() > 0,
        fewer == rows.drop_last(),
        i < rows.len(),
    ensures
        line_of_device(rows, i) == line_of_device(fewer, i),
        line_of_device(rows, i) >= 1,
    decreases i,
{
    if i > 0 {
        lemma_same_place(rows, fewer, i - 1);
        assert(fewer[i - 1] == rows[i - 1]);
    }
}

/// The report has a first line, and then for each device, in the order of the rows, its line and
/// one for each of its errors. It has no other lines.
pub proof fn law_report_has_a_line_for_each_device_and_error(
    board: Board,
    speeds: Vec<ReportSpeeds>,
    lines: Vec<String>,
)
    requires
        board.wf(),
        speeds@.len() == board.rows@.len(),
        call_ensures(Board::report, (&board, &speeds), lines),
    ensures
        lines@.len() == line_of_device(board.rows@, board.rows@.len() as int),
        lines@[0]@ == "\nScan complete."@,
{
    lemma_report_places(board.rows@, speeds@, 0);
    assert(crate::table::texts(lines@).len() == lines@.len());
    assert(lines@[0]@ == crate::table::texts(lines@)[0]);
}

/// The line of a device has its name, its size, its speeds and the number of its errors, of all of
/// them and of each kind: those that could not be written behind `write`, those that could not be
/// read behind `read`, and those that were read with other bytes behind `value`.
pub proof fn law_device_is_reported_with_its_errors_by_kind(
    board: Board,
    speeds: Vec<ReportSpeeds>,
    lines: Vec<String>,
    i: int,
)
    requires
        board.wf(),
        speeds@.len() == board.rows@.len(),
        call_ensures(Board::report, (&board, &speeds), lines),
        0 <= i < board.rows@.len(),
    ensures
        ({
            let at = line_of_device(board.rows@, i);
            let row = board.rows@[i];
            let errors = row.state.errors@;
            &&& 0 <= at < lines@.len()
            &&& lines@[at]@ == row.name@ + ": "@ + crate::text::decimal(
                row.state.total_bytes as nat,
            ) + " bytes, write "@ + speeds@[i].write@ + " Mbps, read "@ + speeds@[i].read@
                + " Mbps, "@ + crate::text::decimal(errors.len()) + " total errors (write "@
                + crate::text::decimal(errors.filter(|e: ErrorRecord| e.kind is Write).len())
                + ", read "@ + crate::text::decimal(
                errors.filter(|e: ErrorRecord| e.kind is Read).len(),
            ) + ", value "@ + crate::text::decimal(
                errors.filter(|e: ErrorRecord| e.kind is Value).len(),
            ) + ")"@
        }),
{
    let at = line_of_device(board.rows@, i);
    lemma_report_places(board.rows@, speeds@, i);
    assert(crate::table::texts(lines@).len() == lines@.len());
    assert(lines@[at]@ == crate::table::texts(lines@)[at]);
    assert(board.rows@[i].state.wf());
    crate::state::law_counters_count_and_marks_are_the_last(board.rows@[i].state);
}

/// Each error of a device has a line behind that of the device, in the order in which they came,
/// with the number of the chunk, its offset, the sector of 512 bytes that it begins with, the kind
/// and the message.
pub proof fn law_error_is_reported_with_its_place(
    board: Board,
    speeds: Vec<ReportSpeeds>,
    lines: Vec<String>,
    i: int,
    j: int,
)
    requires
        board.wf(),
        speeds@.len() == board.rows@.len(),
        call_ensures(Board::report, (&board, &speeds), lines),
        0 <= i < board.rows@.len(),
        0 <= j < board.rows@[i].state.errors@.len(),
    ensures
        ({
            let at = line_of_device(board.rows@, i) + 1 + j;
            let error = board.rows@[i].state.errors@[j];
            let sector = error.offset as nat / 512;
            let kind = if error.kind is Write {
                "Write"@
            } else if error.kind is Read {
                "Read"@
            } else {
                "Value"@
            };
            &&& 0 <= at < lines@.len()
            &&& lines@[at]@ == "  - chunk "@ + crate::text::decimal(error.chunk_idx as nat)
                + " @ "@ + crate::text::decimal(error.offset as nat) + " (sector "@
                + crate::text::decimal(sector) + "): "@ + kind + " ("@ + error.message@ + ")"@
        }),
{
    let at = line_of_device(board.rows@, i) + 1 + j;
    lemma_report_places(board.rows@, speeds@, i);
    assert(crate::table::texts(lines@).len() == lines@.len());
    assert(lines@[at]@ == crate::table::texts(lines@)[at]);
}

} // verus!
