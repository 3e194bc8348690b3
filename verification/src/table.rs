//! The table that the display shows while devices are scanned.

use crate::bar::{build_progress_bar, BarFigures, UiMode};
use crate::board::{Board, DeviceRow};
use crate::eta::{compute_eta, format_eta};
use crate::text::{push_left_aligned, push_right_aligned, push_run, to_decimal};
use vstd::prelude::*;

verus! {

/// What of a row is worked out from fractions.
#[derive(Debug)]
pub struct RowFigures {
    pub bar: BarFigures,
    /// The speed in megabits per second.
    pub speed: String,
    /// The seconds that are left, where the speed is known.
    pub eta_seconds: u64,
}

/// The texts of strings.
pub open spec fn texts(lines: Seq<String>) -> Seq<Seq<char>> {
    Seq::new(lines.len(), |i: int| lines[i]@)
}

/// The length in bytes of the longest name.
pub open spec fn longest_name(rows: Seq<DeviceRow>) -> int
    decreases rows.len(),
{
    if rows.len() == 0 {
        0
    } else {
        vstd::math::max(
            longest_name(rows.drop_last()),
            vstd::utf8::encode_utf8(rows.last().name@).len() as int,
        )
    }
}

/// The width of the column of names: that of the longest, but at least that of the heading, and
/// at most 30.
pub open spec fn name_width(rows: Seq<DeviceRow>) -> int {
    vstd::math::min(vstd::math::max(longest_name(rows), 4), 30)
}

/// The width of the bars: what the other columns leave of the terminal, but at least 10.
pub open spec fn bar_width_of(rows: Seq<DeviceRow>, terminal: int) -> int {
    vstd::math::max(terminal - (name_width(rows) + 35), 10)
}

/// The heading of the table.
pub open spec fn header(names: int, bars: int) -> Seq<char> {
    crate::text::left_aligned("Disk"@, names) + " | "@ + crate::text::left_aligned(
        "Progress"@,
        bars,
    ) + " | Mbps |        Eta | Errs "@
}

/// The line below the heading.
pub open spec fn separator(names: int, bars: int) -> Seq<char> {
    crate::text::run('-', names) + "-+-"@ + crate::text::run('-', bars) + "-+------+-"@
        + crate::text::run('-', 10) + "-+------"@
}

/// The line of a device.
pub open spec fn row_text(
    row: DeviceRow,
    figures: RowFigures,
    names: int,
    bars: int,
    mode: UiMode,
    now: u64,
) -> Seq<char> {
    crate::text::left_aligned(row.name@, names) + " | "@ + crate::bar::bar_text(
        mode,
        figures.bar,
        row.state.error_marks@,
        bars as nat,
    ) + " | "@ + crate::text::right_aligned(figures.speed@, ' ', 4) + " | "@
        + crate::text::right_aligned(
        crate::eta::eta_text(crate::eta::eta_plan(row.state, now), figures.eta_seconds),
        ' ',
        10,
    ) + " | "@ + crate::text::right_aligned(
        crate::text::decimal(row.state.errors@.len()),
        ' ',
        5,
    )
}

/// The lines of the table: a heading, and a line for each device.
pub open spec fn table_lines(
    rows: Seq<DeviceRow>,
    figures: Seq<RowFigures>,
    terminal: int,
    mode: UiMode,
    now: u64,
) -> Seq<Seq<char>> {
    let names = name_width(rows);
    let bars = bar_width_of(rows, terminal);
    seq![header(names, bars), separator(names, bars)] + Seq::new(
        rows.len(),
        |i: int| row_text(rows[i], figures[i], names, bars, mode, now),
    )
}

fn name_column(rows: &Vec<DeviceRow>) -> (width: usize)
    ensures
        width == name_width(rows@),
{
    let mut longest: usize = 0;
    let mut i: usize = 0;
    assert(rows@.take(0) =~= Seq::empty());
    while i < rows.len()
        invariant
            i <= rows@.len(),
            longest == longest_name(rows@.take(i as int)),
        decreases rows@.len() - i,
    {
        let len: usize = rows[i].name.as_str().as_bytes().len();
        assert(rows@.take(i + 1).drop_last() =~= rows@.take(i as int));
        if len > longest {
            longest = len;
        }
        i = i + 1;
    }
    assert(rows@.take(rows@.len() as int) =~= rows@);
    if longest < 4 {
        4
    } else if longest > 30 {
        30
    } else {
        longest
    }
}

fn bar_column(names: usize, terminal: usize) -> (width: usize)
    requires
        names <= 30,
    ensures
        width == vstd::math::max(terminal - (names + 35), 10),
{
    let left: usize = terminal.saturating_sub(names + 35);
    if left < 10 {
        10
    } else {
        left
    }
}

impl Board {
    /// The width of the bars on a terminal of the given width.
    pub fn bar_width(&self, terminal: usize) -> (width: usize)
        ensures
            width == bar_width_of(self.rows@, terminal as int),
            width >= 10,
    {
        bar_column(name_column(&self.rows), terminal)
    }

    /// The lines of the table on a terminal of the given width.
    pub fn draw_ui(&self, figures: &Vec<RowFigures>, terminal: usize, mode: UiMode, now: u64) -> (
    lines: Vec<String>)
        requires
            self.wf(),
            figures@.len() == self.rows@.len(),
            forall|i: int|
                0 <= i < self.rows@.len() ==> crate::bar::figures_fit(
                    mode,
                    #[trigger] figures@[i].bar,
                    self.rows@[i].state.error_marks@,
                    bar_width_of(self.rows@, terminal as int) as nat,
                ),
        ensures
            texts(lines@) == table_lines(self.rows@, figures@, terminal as int, mode, now),
    {
        let names: usize = name_column(&self.rows);
        let bars: usize = bar_column(names, terminal);
        let mut lines: Vec<String> = Vec::new();
        lines.push(header_line(names, bars));
        lines.push(separator_line(names, bars));
        let ghost whole = table_lines(self.rows@, figures@, terminal as int, mode, now);
        let mut i: usize = 0;
        while i < self.rows.len()
            invariant
                self.wf(),
                i <= self.rows@.len() == figures@.len(),
                names == name_width(self.rows@),
                bars == bar_width_of(self.rows@, terminal as int),
                forall|j: int|
                    0 <= j < self.rows@.len() ==> crate::bar::figures_fit(
                        mode,
                        #[trigger] figures@[j].bar,
                        self.rows@[j].state.error_marks@,
                        bars as nat,
                    ),
                whole == table_lines(self.rows@, figures@, terminal as int, mode, now),
                lines@.len() == i + 2,
                forall|j: int| 0 <= j < i + 2 ==> #[trigger] lines@[j]@ == whole[j],
            decreases self.rows@.len() - i,
        {
            let row: &DeviceRow = &self.rows[i];
            let figure: &RowFigures = &figures[i];
            assert(row.state.wf());
            assert(crate::bar::figures_fit(
                mode,
                figures@[i as int].bar,
                self.rows@[i as int].state.error_marks@,
                bars as nat,
            ));
            lines.push(row_line(row, figure, names, bars, mode, now));
            i = i + 1;
        }
        assert(texts(lines@) =~= whole);
        lines
    }

    /// The line of the terminal below the table, in which the prompt stands. Terminals have no
    /// more lines than a 16-bit number can count.
    pub fn prompt_row(&self) -> (row: u16)
        ensures
            row == (self.rows@.len() + 3) % 65536,
    {
        let low: u32 = (self.rows.len() % 65536) as u32;
        ((low + 3) % 65536) as u16
    }
}

fn header_line(names: usize, bars: usize) -> (line: String)
    ensures
        line@ == header(names as int, bars as int),
{
    let mut line: String = String::new();
    push_left_aligned(&mut line, "Disk", names);
    line.append(" | ");
    push_left_aligned(&mut line, "Progress", bars);
    line.append(" | Mbps |        Eta | Errs ");
    assert(line@ =~= header(names as int, bars as int));
    line
}

fn separator_line(names: usize, bars: usize) -> (line: String)
    ensures
        line@ == separator(names as int, bars as int),
{
    let mut line: String = String::new();
    push_run(&mut line, '-', names);
    line.append("-+-");
    push_run(&mut line, '-', bars);
    line.append("-+------+-");
    push_run(&mut line, '-', 10);
    line.append("-+------");
    assert(line@ =~= separator(names as int, bars as int));
    line
}

fn row_line(
    row: &DeviceRow,
    figures: &RowFigures,
    names: usize,
    bars: usize,
    mode: UiMode,
    now: u64,
) -> (line: String)
    requires
        row.state.wf(),
        crate::bar::figures_fit(mode, figures.bar, row.state.error_marks@, bars as nat),
    ensures
        line@ == row_text(*row, *figures, names as int, bars as int, mode, now),
{
    let bar: String = build_progress_bar(&row.state, &figures.bar, bars, mode);
    let eta: String = format_eta(compute_eta(&row.state, now), figures.eta_seconds);
    let errors: String = to_decimal(row.state.total_errors());
    let mut line: String = String::new();
    push_left_aligned(&mut line, row.name.as_str(), names);
    line.append(" | ");
    line.append(bar.as_str());
    line.append(" | ");
    push_right_aligned(&mut line, figures.speed.as_str(), ' ', 4);
    line.append(" | ");
    push_right_aligned(&mut line, eta.as_str(), ' ', 10);
    line.append(" | ");
    push_right_aligned(&mut line, errors.as_str(), ' ', 5);
    assert(line@ =~= row_text(*row, *figures, names as int, bars as int, mode, now));
    line
}

/// The lines of the table are equally long, as long as the entries fit into their columns.
pub proof fn law_table_is_aligned(
    row: DeviceRow,
    figures: RowFigures,
    names: int,
    bars: int,
    mode: UiMode,
    now: u64,
)
    requires
        names >= 4,
        bars >= 10,
        row.name@.len() <= names,
        figures.speed@.len() <= 4,
        crate::eta::eta_text(crate::eta::eta_plan(row.state, now), figures.eta_seconds).len() <= 10,
        crate::text::decimal(row.state.errors@.len()).len() <= 5,
    ensures
        header(names, bars).len() == names + bars + 31,
        separator(names, bars).len() == names + bars + 31,
        row_text(row, figures, names, bars, mode, now).len() == names + bars + 31,
{
    reveal_strlit("Disk");
    reveal_strlit("Progress");
    reveal_strlit(" | ");
    reveal_strlit(" | Mbps |        Eta | Errs ");
    reveal_strlit("-+-");
    reveal_strlit("-+------+-");
    reveal_strlit("-+------");
}

/// The table fits the terminal: unless the terminal is too narrow for the shortest bars, the
/// heading takes up all of its width but for four columns.
pub proof fn law_table_fits_the_terminal(rows: Seq<DeviceRow>, terminal: int)
    requires
        terminal >= name_width(rows) + 45,
    ensures
        header(name_width(rows), bar_width_of(rows, terminal)).len() == terminal - 4,
{
    reveal_strlit("Disk");
    reveal_strlit("Progress");
    reveal_strlit(" | ");
    reveal_strlit(" | Mbps |        Eta | Errs ");
}

/// Whether a width is the right one for the column of names in a table.
pub open spec fn is_name_column(rows: Seq<DeviceRow>, width: int) -> bool {
    &&& 4 <= width <= 30
    // No name is longer than the column, unless the column is as wide as it may be.
    &&& width < 30 ==> forall|i: int|
        0 <= i < rows.len() ==> vstd::utf8::encode_utf8((#[trigger] rows[i]).name@).len() <= width
    // The column is no wider than a name or the heading takes.
    &&& width > 4 ==> exists|i: int|
        0 <= i < rows.len() && vstd::utf8::encode_utf8((#[trigger] rows[i]).name@).len() >= width
}

proof fn lemma_longest_name(rows: Seq<DeviceRow>)
    ensures
        longest_name(rows) >= 0,
        forall|i: int|
            0 <= i < rows.len() ==> vstd::utf8::encode_utf8((#[trigger] rows[i]).name@).len()
                <= longest_name(rows),
        longest_name(rows) > 0 ==> exists|i: int|
            0 <= i < rows.len() && vstd::utf8::encode_utf8((#[trigger] rows[i]).name@).len()
                == longest_name(rows),
    decreases rows.len(),
{
    if rows.len() > 0 {
        let rest = rows.drop_last();
        lemma_longest_name(rest);
        let last = rows.len() - 1;
        assert forall|i: int| 0 <= i < rows.len() implies vstd::utf8::encode_utf8(
            (#[trigger] rows[i]).name@,
        ).len() <= longest_name(rows) by {
            if i < last {
                assert(rest[i] == rows[i]);
            }
        }
        if longest_name(rows) > 0 {
            if vstd::utf8::encode_utf8(rows[last].name@).len() < longest_name(rows) {
                let i = choose|i: int|
                    0 <= i < rest.len() && vstd::utf8::encode_utf8((#[trigger] rest[i]).name@).len()
                        == longest_name(rest);
                assert(rows[i] == rest[i]);
            } else {
                assert(vstd::utf8::encode_utf8(rows[last].name@).len() == longest_name(rows));
            }
        }
    }
}

/// The column of names takes the longest name, the heading at least and 30 characters at most.
pub proof fn law_names_have_the_room_they_need(rows: Seq<DeviceRow>)
    ensures
        is_name_column(rows, name_width(rows)),
{
    lemma_longest_name(rows);
}

/// The bars take what the other columns leave of the terminal: they and the names and 35 more
/// characters make up its width, unless that leaves less than ten characters to the bars.
pub proof fn law_bars_take_the_rest_of_the_terminal(board: Board, terminal: usize, width: usize)
    requires
        call_ensures(Board::bar_width, (&board, terminal), width),
    ensures
        width >= 10,
        width > 10 ==> name_width(board.rows@) + width + 35 == terminal,
        width == 10 ==> name_width(board.rows@) + 45 >= terminal,
        width == bar_width_of(board.rows@, terminal as int),
{
}

/// The table has a heading of two lines, and behind it one line for each device, in the order of
/// the rows.
pub proof fn law_table_has_a_heading(
    board: Board,
    figures: Vec<RowFigures>,
    terminal: usize,
    mode: UiMode,
    now: u64,
    width: usize,
    lines: Vec<String>,
)
    requires
        call_ensures(Board::bar_width, (&board, terminal), width),
        call_ensures(Board::draw_ui, (&board, &figures, terminal, mode, now), lines),
    ensures
        lines@.len() == board.rows@.len() + 2,
        ({
            let names = name_width(board.rows@);
            &&& lines@[0]@ == crate::text::left_aligned("Disk"@, names) + " | "@
                + crate::text::left_aligned("Progress"@, width as int)
                + " | Mbps |        Eta | Errs "@
            &&& lines@[1]@.len() == names + width + 31
            // The lines of the second row cross where the columns of the first are separated.
            &&& forall|i: int|
                0 <= i < lines@[1]@.len() ==> #[trigger] lines@[1]@[i] == if i == names + 1 || i
                    == names + width + 4 || i == names + width + 11 || i == names + width + 24 {
                    '+'
                } else {
                    '-'
                }
        }),
{
    let names = name_width(board.rows@);
    law_names_have_the_room_they_need(board.rows@);
    let whole = table_lines(board.rows@, figures@, terminal as int, mode, now);
    assert(texts(lines@).len() == whole.len());
    assert(lines@[0]@ == texts(lines@)[0]);
    assert(lines@[1]@ == texts(lines@)[1]);
    reveal_strlit("-+-");
    reveal_strlit("-+------+-");
    reveal_strlit("-+------");
}

/// The line of a device has its name, its bar, its speed, its estimate and the number of its
/// errors, each in its column and with bars between the columns.
pub proof fn law_line_has_every_column(
    board: Board,
    figures: Vec<RowFigures>,
    terminal: usize,
    mode: UiMode,
    now: u64,
    lines: Vec<String>,
    i: int,
    width: usize,
    bar: String,
    plan: crate::eta::EtaPlan,
    eta: String,
)
    requires
        board.wf(),
        call_ensures(Board::draw_ui, (&board, &figures, terminal, mode, now), lines),
        0 <= i < board.rows@.len() == figures@.len(),
        call_ensures(Board::bar_width, (&board, terminal), width),
        call_ensures(
            build_progress_bar,
            (&board.rows@[i].state, &figures@[i].bar, width, mode),
            bar,
        ),
        call_ensures(compute_eta, (&board.rows@[i].state, now), plan),
        call_ensures(format_eta, (plan, figures@[i].eta_seconds), eta),
    ensures
        lines@.len() > i + 2,
        lines@[i + 2]@ == crate::text::left_aligned(
            board.rows@[i].name@,
            name_width(board.rows@),
        ) + " | "@ + bar@ + " | "@ + crate::text::right_aligned(figures@[i].speed@, ' ', 4)
            + " | "@ + crate::text::right_aligned(eta@, ' ', 10) + " | "@
            + crate::text::right_aligned(
            crate::text::decimal(board.rows@[i].state.errors@.len()),
            ' ',
            5,
        ),
{
    let whole = table_lines(board.rows@, figures@, terminal as int, mode, now);
    assert(texts(lines@).len() == whole.len());
    assert(lines@[i + 2]@ == texts(lines@)[i + 2]);
    assert(whole[i + 2] == row_text(
        board.rows@[i],
        figures@[i],
        name_width(board.rows@),
        bar_width_of(board.rows@, terminal as int),
        mode,
        now,
    ));
}

/// The prompt stands two lines below the last line of the table.
pub proof fn law_prompt_stands_below_the_table(board: Board, row: u16)
    requires
        call_ensures(Board::prompt_row, (&board,), row),
    ensures
        board.rows@.len() + 3 <= u16::MAX ==> row == board.rows@.len() + 3,
        (board.rows@.len() + 3 - row) % 65536 == 0,
{
}

} // verus!
