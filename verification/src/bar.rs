//! The progress bar of a device.

use crate::event::{ErrorKind, ErrorRecord};
use crate::state::UiDeviceState;
use vstd::prelude::*;

verus! {

/// The characters that the display is made of.
#[derive(Debug, Clone, Copy, PartialEq, Eq, Structural)]
pub enum UiMode {
    /// Unicode.
    Rich,
    /// ASCII only.
    Basic,
}

/// Where the bar of a device begins and ends, in cells.
#[derive(Debug)]
pub struct BarFigures {
    /// The number of cells that the bytes written fill.
    pub write_fill: usize,
    /// The number of cells that the bytes read fill.
    pub read_fill: usize,
    /// How far the bytes written reach into the cell behind those that they fill, in sevenths,
    /// if they do.
    pub tail: Option<usize>,
    /// The cell of each error mark of the device.
    pub mark_cells: Vec<usize>,
}

/// The characters of a cell that is filled in part, the least filled first.
pub const PARTIALS: [char; 7] = ['▏', '▎', '▍', '▌', '▋', '▊', '▉'];

/// The character of a cell that is written.
pub open spec fn write_char(mode: UiMode) -> char {
    match mode {
        UiMode::Rich => '█',
        UiMode::Basic => '#',
    }
}

/// The character of a cell that is read back.
pub open spec fn read_char(mode: UiMode) -> char {
    match mode {
        UiMode::Rich => '░',
        UiMode::Basic => '=',
    }
}

/// The character of an error.
pub open spec fn symbol(kind: ErrorKind) -> char {
    match kind {
        ErrorKind::Write => 'X',
        ErrorKind::Read => 'E',
        ErrorKind::Value => 'V',
    }
}

/// The kind of the last error that is marked in cell `i`.
pub open spec fn last_mark(
    cells: Seq<usize>,
    marks: Seq<ErrorRecord>,
    i: int,
) -> Option<ErrorKind>
    decreases marks.len(),
{
    if marks.len() == 0 {
        None
    } else if cells.last() == i {
        Some(marks.last().kind)
    } else {
        last_mark(cells.drop_last(), marks.drop_last(), i)
    }
}

/// Cell `i` without marks.
pub open spec fn plain_cell(mode: UiMode, write_fill: int, read_fill: int, i: int) -> char {
    if i < read_fill {
        read_char(mode)
    } else if i < write_fill {
        write_char(mode)
    } else {
        ' '
    }
}

/// Cell `i` with its mark, if it has one.
pub open spec fn marked_cell(
    mode: UiMode,
    figures: BarFigures,
    marks: Seq<ErrorRecord>,
    i: int,
) -> char {
    match last_mark(figures.mark_cells@, marks, i) {
        Some(kind) => symbol(kind),
        None => plain_cell(mode, figures.write_fill as int, figures.read_fill as int, i),
    }
}

/// The cell in which the bytes written end.
pub open spec fn tail_cell(figures: BarFigures, width: int) -> int {
    vstd::math::min(figures.write_fill as int, width - 1)
}

/// Whether the bar shows that a cell is filled in part.
pub open spec fn has_tail(mode: UiMode, figures: BarFigures) -> bool {
    mode is Rich && figures.tail is Some && figures.tail->0 < 7
}

/// Cell `i` of a bar. The end of what is written shows in a cell that is not read back and has
/// no mark.
pub open spec fn bar_cell(
    mode: UiMode,
    figures: BarFigures,
    marks: Seq<ErrorRecord>,
    width: int,
    i: int,
) -> char {
    let cell = marked_cell(mode, figures, marks, i);
    if has_tail(mode, figures) && i == tail_cell(figures, width) && (cell == write_char(mode)
        || cell == ' ') {
        PARTIALS@[figures.tail->0 as int]
    } else {
        cell
    }
}

/// The text of a bar.
pub open spec fn bar_text(
    mode: UiMode,
    figures: BarFigures,
    marks: Seq<ErrorRecord>,
    width: nat,
) -> Seq<char> {
    Seq::new(width, |i: int| bar_cell(mode, figures, marks, width as int, i))
}

/// Whether the figures are those of a bar with the given marks: every mark has a cell.
pub open spec fn figures_fit(
    mode: UiMode,
    figures: BarFigures,
    marks: Seq<ErrorRecord>,
    width: nat,
) -> bool {
    &&& figures.mark_cells@.len() == marks.len()
    &&& forall|i: int| 0 <= i < marks.len() ==> (#[trigger] figures.mark_cells@[i]) < width
    &&& has_tail(mode, figures) ==> width > 0
}

/// The progress bar of a device.
pub fn build_progress_bar(
    state: &UiDeviceState,
    figures: &BarFigures,
    width: usize,
    mode: UiMode,
) -> (bar: String)
    requires
        figures_fit(mode, *figures, state.error_marks@, width as nat),
    ensures
        bar@ == bar_text(mode, *figures, state.error_marks@, width as nat),
{
    let written: char = match mode {
        UiMode::Rich => '█',
        UiMode::Basic => '#',
    };
    let read: char = match mode {
        UiMode::Rich => '░',
        UiMode::Basic => '=',
    };
    let ghost marks = state.error_marks@;
    let ghost cells = figures.mark_cells@;
    let mut bar: Vec<char> = Vec::new();
    while bar.len() < width
        invariant
            written == write_char(mode),
            read == read_char(mode),
            bar@.len() <= width,
            forall|j: int|
                0 <= j < bar@.len() ==> #[trigger] bar@[j] == plain_cell(
                    mode,
                    figures.write_fill as int,
                    figures.read_fill as int,
                    j,
                ),
        decreases width - bar@.len(),
    {
        let i: usize = bar.len();
        let cell: char = if i < figures.read_fill {
            read
        } else if i < figures.write_fill {
            written
        } else {
            ' '
        };
        bar.push(cell);
    }
    let mut n: usize = 0;
    while n < state.error_marks.len()
        invariant
            bar@.len() == width,
            n <= marks.len(),
            marks == state.error_marks@,
            cells == figures.mark_cells@,
            cells.len() == marks.len(),
            forall|i: int| 0 <= i < marks.len() ==> (#[trigger] cells[i]) < width,
            forall|j: int|
                0 <= j < width ==> #[trigger] bar@[j] == match last_mark(
                    cells.take(n as int),
                    marks.take(n as int),
                    j,
                ) {
                    Some(kind) => symbol(kind),
                    None => plain_cell(
                        mode,
                        figures.write_fill as int,
                        figures.read_fill as int,
                        j,
                    ),
                },
        decreases marks.len() - n,
    {
        let mark: char = match state.error_marks[n].kind {
            ErrorKind::Write => 'X',
            ErrorKind::Read => 'E',
            ErrorKind::Value => 'V',
        };
        let cell: usize = figures.mark_cells[n];
        assert(cell == cells[n as int]);
        bar[cell] = mark;
        proof {
            assert(cells.take(n + 1).drop_last() =~= cells.take(n as int));
            assert(marks.take(n + 1).drop_last() =~= marks.take(n as int));
        }
        n = n + 1;
    }
    assert(cells.take(marks.len() as int) =~= cells);
    assert(marks.take(marks.len() as int) =~= marks);
    let ghost marked = bar@;
    if let UiMode::Rich = mode {
        if let Some(tail) = figures.tail {
            if tail < PARTIALS.len() {
                let pos: usize = if figures.write_fill < width - 1 {
                    figures.write_fill
                } else {
                    width - 1
                };
                if bar[pos] == written || bar[pos] == ' ' {
                    bar[pos] = PARTIALS[tail];
                }
            }
        }
    }
    let mut text: String = String::new();
    let mut i: usize = 0;
    while i < bar.len()
        invariant
            i <= bar@.len(),
            text@ == bar@.take(i as int),
        decreases bar@.len() - i,
    {
        text.push(bar[i]);
        i = i + 1;
        assert(text@ =~= bar@.take(i as int));
    }
    assert(text@ =~= bar_text(mode, *figures, marks, width as nat));
    text
}

/// An error that is marked shows: its cell holds the character of the last error marked there,
/// in both modes, however far the scan has come.
pub proof fn law_marked_errors_show(
    mode: UiMode,
    figures: BarFigures,
    marks: Seq<ErrorRecord>,
    width: nat,
    n: int,
)
    requires
        figures_fit(mode, figures, marks, width),
        0 <= n < marks.len(),
    ensures
        ({
            let cell = figures.mark_cells@[n] as int;
            &&& last_mark(figures.mark_cells@, marks, cell) is Some
            &&& bar_text(mode, figures, marks, width)[cell] == symbol(
                last_mark(figures.mark_cells@, marks, cell)->0,
            )
        }),
        // The last error of all is never hidden by another.
        n == marks.len() - 1 ==> bar_text(mode, figures, marks, width)[figures.mark_cells@[n] as int]
            == symbol(marks[n].kind),
{
    lemma_has_mark(figures.mark_cells@, marks, n);
}

proof fn lemma_has_mark(cells: Seq<usize>, marks: Seq<ErrorRecord>, n: int)
    requires
        cells.len() == marks.len(),
        0 <= n < marks.len(),
    ensures
        last_mark(cells, marks, cells[n] as int) is Some,
        n == marks.len() - 1 ==> last_mark(cells, marks, cells[n] as int) == Some(marks[n].kind),
    decreases marks.len(),
{
    if n < marks.len() - 1 {
        lemma_has_mark(cells.drop_last(), marks.drop_last(), n);
    }
}

/// In the basic mode a bar is made of ASCII characters.
pub proof fn law_basic_bar_is_ascii(figures: BarFigures, marks: Seq<ErrorRecord>, width: nat)
    ensures
        vstd::utf8::is_ascii_chars(bar_text(UiMode::Basic, figures, marks, width)),
{
}

/// Reading shows over writing: a cell without a mark is shaded as soon as it is read back, and
/// solid if it is written only. The last cell of the bar is left out of the latter, as the end of
/// what is written may show in it.
pub proof fn law_reading_covers_writing(
    mode: UiMode,
    figures: BarFigures,
    marks: Seq<ErrorRecord>,
    width: nat,
    i: int,
)
    requires
        0 <= i < width,
        last_mark(figures.mark_cells@, marks, i) is None,
    ensures
        i < figures.read_fill ==> bar_text(mode, figures, marks, width)[i] == read_char(mode),
        figures.read_fill <= i < figures.write_fill && i < width - 1 ==> bar_text(
            mode,
            figures,
            marks,
            width,
        )[i] == write_char(mode),
{
}

proof fn lemma_no_mark(cells: Seq<usize>, marks: Seq<ErrorRecord>, i: int)
    requires
        cells.len() == marks.len(),
        forall|n: int| 0 <= n < cells.len() ==> #[trigger] cells[n] != i,
    ensures
        last_mark(cells, marks, i) is None,
    decreases marks.len(),
{
    if marks.len() > 0 {
        assert(cells.last() == cells[cells.len() - 1]);
        assert(forall|n: int| 0 <= n < cells.len() - 1 ==> cells.drop_last()[n] == cells[n]);
        lemma_no_mark(cells.drop_last(), marks.drop_last(), i);
    }
}

proof fn lemma_last_mark(cells: Seq<usize>, marks: Seq<ErrorRecord>, n: int)
    requires
        cells.len() == marks.len(),
        0 <= n < marks.len(),
        forall|m: int| n < m < cells.len() ==> #[trigger] cells[m] != cells[n],
    ensures
        last_mark(cells, marks, cells[n] as int) == Some(marks[n].kind),
    decreases marks.len(),
{
    if n < marks.len() - 1 {
        assert(cells.last() == cells[cells.len() - 1]);
        assert(forall|m: int| 0 <= m < cells.len() - 1 ==> cells.drop_last()[m] == cells[m]);
        lemma_last_mark(cells.drop_last(), marks.drop_last(), n);
    }
}

/// A cell with marks shows the last of the errors that are marked in it: `X` if it could not be
/// written, `E` if it could not be read, `V` if it was read with other bytes. This holds in both
/// modes, whatever is written or read.
pub proof fn law_bar_shows_the_last_error_of_a_cell(
    state: UiDeviceState,
    figures: BarFigures,
    width: usize,
    mode: UiMode,
    bar: String,
    n: int,
)
    requires
        figures_fit(mode, figures, state.error_marks@, width as nat),
        call_ensures(build_progress_bar, (&state, &figures, width, mode), bar),
        0 <= n < state.error_marks@.len(),
        forall|m: int|
            n < m < state.error_marks@.len() ==> #[trigger] figures.mark_cells@[m]
                != figures.mark_cells@[n],
    ensures
        bar@.len() == width,
        state.error_marks@[n].kind is Write ==> bar@[figures.mark_cells@[n] as int] == 'X',
        state.error_marks@[n].kind is Read ==> bar@[figures.mark_cells@[n] as int] == 'E',
        state.error_marks@[n].kind is Value ==> bar@[figures.mark_cells@[n] as int] == 'V',
{
    lemma_last_mark(figures.mark_cells@, state.error_marks@, n);
}

/// A cell without a mark is shaded if it is read, solid if it is written only, and blank if it is
/// neither. The one exception is the cell in which the bytes written end, in the rich mode: unless
/// it is read, it shows how far the bytes reach into it, in sevenths, if they do.
pub proof fn law_bar_shows_what_is_written_and_read(
    state: UiDeviceState,
    figures: BarFigures,
    width: usize,
    mode: UiMode,
    bar: String,
    i: int,
)
    requires
        figures_fit(mode, figures, state.error_marks@, width as nat),
        call_ensures(build_progress_bar, (&state, &figures, width, mode), bar),
        0 <= i < width,
        forall|n: int| 0 <= n < figures.mark_cells@.len() ==> #[trigger] figures.mark_cells@[n] != i,
    ensures
        ({
            let ends_here = i == figures.write_fill || i == width - 1 && figures.write_fill >= width;
            let partial = mode is Rich && figures.tail is Some && figures.tail->0 < 7 && ends_here;
            &&& mode is Rich && i < figures.read_fill ==> bar@[i] as int == 0x2591
            &&& mode is Basic && i < figures.read_fill ==> bar@[i] == '='
            &&& i >= figures.read_fill && partial ==> bar@[i] as int == 0x258f - figures.tail->0
            &&& i >= figures.read_fill && !partial && i < figures.write_fill ==> bar@[i] as int
                == if mode is Rich {
                0x2588int
            } else {
                '#' as int
            }
            &&& i >= figures.read_fill && !partial && i >= figures.write_fill ==> bar@[i] == ' '
        }),
{
    lemma_no_mark(figures.mark_cells@, state.error_marks@, i);
    assert(PARTIALS@ =~= seq!['▏', '▎', '▍', '▌', '▋', '▊', '▉']);
}

/// A bar is as wide as it is asked to be, with or without marks.
pub proof fn law_bar_is_as_wide_as_asked(
    state: UiDeviceState,
    figures: BarFigures,
    width: usize,
    mode: UiMode,
    bar: String,
)
    requires
        figures_fit(mode, figures, state.error_marks@, width as nat),
        call_ensures(build_progress_bar, (&state, &figures, width, mode), bar),
    ensures
        bar@.len() == width,
{
}

/// Any figures that give each mark a cell of the bar can be drawn, on any bar that is not of width
/// zero.
pub proof fn law_figures_with_a_cell_for_each_mark_fit(
    mode: UiMode,
    figures: BarFigures,
    marks: Seq<ErrorRecord>,
    width: nat,
)
    requires
        width > 0,
    ensures
        figures_fit(mode, figures, marks, width) <==> figures.mark_cells@.len() == marks.len()
            && forall|n: int|
            0 <= n < figures.mark_cells@.len() ==> (#[trigger] figures.mark_cells@[n]) < width,
{
}

} // verus!
