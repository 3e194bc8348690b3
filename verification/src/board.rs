//! What the display knows of all devices, and what it does with the reports on them.

use crate::event::WorkerEvent;
use crate::order::comes_before;
use crate::state::UiDeviceState;
use vstd::prelude::*;

verus! {

/// The least time between two drawings of the display, in nanoseconds.
pub const RENDER_INTERVAL: u64 = 100_000_000;

/// A device on the board.
#[derive(Debug)]
pub struct DeviceRow {
    pub name: String,
    pub state: UiDeviceState,
}

/// The devices that have reported, in the order of their names.
#[derive(Debug)]
pub struct Board {
    pub rows: Vec<DeviceRow>,
    /// When the display was last drawn.
    pub last_render: u64,
}

/// What the loop of the display gets to see.
#[derive(Debug)]
pub enum LoopInput {
    /// The user has cancelled the scan.
    Cancelled,
    /// A worker has reported.
    Event(WorkerEvent),
    /// No worker has reported for a while.
    Idle,
    /// No worker is left.
    Closed,
}

/// What the loop of the display does next.
#[derive(Debug)]
pub struct LoopOutcome {
    /// A message for the user.
    pub notice: Option<String>,
    /// Whether to draw the display.
    pub redraw: bool,
    /// Whether to leave the loop.
    pub stop: bool,
}

/// Whether the rows are in the order of their names. So no name occurs twice.
pub open spec fn in_order(rows: Seq<DeviceRow>) -> bool {
    forall|i: int, j: int|
        0 <= i < j < rows.len() ==> crate::order::name_before(
            #[trigger] rows[i].name@,
            #[trigger] rows[j].name@,
        )
}

/// Whether row `i` is that of the device `name`.
pub open spec fn is_row(rows: Seq<DeviceRow>, name: Seq<char>, i: int) -> bool {
    0 <= i < rows.len() && rows[i].name@ == name
}

impl View for Board {
    type V = Map<Seq<char>, UiDeviceState>;

    /// The states of the devices by their names.
    open spec fn view(&self) -> Map<Seq<char>, UiDeviceState> {
        Map::new(
            |name: Seq<char>| exists|i: int| is_row(self.rows@, name, i),
            |name: Seq<char>| self.rows@[choose|i: int| is_row(self.rows@, name, i)].state,
        )
    }
}

/// What the board shows of a device after an event that came in at `now`.
pub open spec fn observed(
    old_states: Map<Seq<char>, UiDeviceState>,
    event: WorkerEvent,
    now: u64,
    new_states: Map<Seq<char>, UiDeviceState>,
) -> bool {
    match event {
        WorkerEvent::Init(init) => {
            &&& new_states.dom() == old_states.dom().insert(init.device@)
            &&& new_states[init.device@].is_fresh(init.total_bytes, init.total_chunks, now)
            &&& same_but_for(old_states, new_states, init.device@)
        },
        WorkerEvent::Progress(update) => {
            &&& new_states.dom() == old_states.dom()
            &&& old_states.contains_key(update.device@) ==> crate::state::progressed(
                old_states[update.device@],
                update,
                now,
                new_states[update.device@],
            )
            &&& same_but_for(old_states, new_states, update.device@)
        },
        WorkerEvent::Finish(done) => {
            &&& new_states.dom() == old_states.dom()
            &&& old_states.contains_key(done.device@) ==> new_states[done.device@] == (
            UiDeviceState {
                stage: crate::event::Stage::Done,
                read_end: Some(now),
                ..old_states[done.device@]
            })
            &&& same_but_for(old_states, new_states, done.device@)
        },
        WorkerEvent::Fatal { .. } => new_states == old_states,
    }
}

/// Whether all states but that of `name` are the same.
pub open spec fn same_but_for(
    a: Map<Seq<char>, UiDeviceState>,
    b: Map<Seq<char>, UiDeviceState>,
    name: Seq<char>,
) -> bool {
    forall|other: Seq<char>| other != name && #[trigger] a.contains_key(other) ==> b[other] == a[other]
}

/// The message on an event.
pub open spec fn notice_of(event: WorkerEvent) -> Option<Seq<char>> {
    match event {
        WorkerEvent::Fatal { device, message } => Some(
            "fatal error for "@ + device@ + ": "@ + message@,
        ),
        _ => None,
    }
}

impl Board {
    /// The devices are in order, and the state of each is sound.
    pub open spec fn wf(self) -> bool {
        &&& in_order(self.rows@)
        &&& forall|i: int| 0 <= i < self.rows@.len() ==> (#[trigger] self.rows@[i]).state.wf()
    }

    /// A board without devices.
    pub fn new(now: u64) -> (board: Board)
        ensures
            board.wf(),
            board@ == Map::<Seq<char>, UiDeviceState>::empty(),
            board.rows@ == Seq::<DeviceRow>::empty(),
            board.last_render == now,
    {
        let board: Board = Board { rows: Vec::new(), last_render: now };
        assert(board@ =~= Map::empty());
        board
    }

    /// The row of a device.
    fn position(&self, name: &String) -> (found: Option<usize>)
        ensures
            match found {
                Some(i) => is_row(self.rows@, name@, i as int),
                None => forall|i: int| !#[trigger] is_row(self.rows@, name@, i),
            },
    {
        let mut i: usize = 0;
        while i < self.rows.len()
            invariant
                i <= self.rows@.len(),
                forall|j: int| 0 <= j < i ==> !#[trigger] is_row(self.rows@, name@, j),
            decreases self.rows@.len() - i,
        {
            if self.rows[i].name == *name {
                return Some(i);
            }
            i = i + 1;
        }
        None
    }

    /// Gives a device a state. A device that is not on the board is put at its place.
    fn put(&mut self, name: String, state: UiDeviceState)
        requires
            old(self).wf(),
            state.wf(),
        ensures
            final(self).wf(),
            final(self).last_render == old(self).last_render,
            final(self)@ == old(self)@.insert(name@, state),
    {
        let mut at: usize = 0;
        while at < self.rows.len() && comes_before(self.rows[at].name.as_str(), name.as_str())
            invariant
                *self == *old(self),
                at <= self.rows@.len(),
                forall|j: int|
                    0 <= j < at ==> crate::order::name_before(
                        #[trigger] self.rows@[j].name@,
                        name@,
                    ),
            decreases self.rows@.len() - at,
        {
            at = at + 1;
        }
        let ghost before = *self;
        if at < self.rows.len() && self.rows[at].name == name {
            self.rows[at].state = state;
            proof {
                lemma_replaced(before, *self, at as int, state);
            }
        } else {
            self.rows.insert(at, DeviceRow { name, state });
            proof {
                lemma_inserted(before, *self, at as int);
            }
        }
    }

    /// Takes note of a report that comes in at `now`. Gives the message on it, if there is one.
    pub fn observe(&mut self, event: WorkerEvent, now: u64) -> (notice: Option<String>)
        requires
            old(self).wf(),
        ensures
            final(self).wf(),
            final(self).last_render == old(self).last_render,
            observed(old(self)@, event, now, final(self)@),
            crate::text::text_of(notice) == notice_of(event),
    {
        let ghost before = *self;
        match event {
            WorkerEvent::Init(init) => {
                let state: UiDeviceState = UiDeviceState::new(
                    init.total_bytes,
                    init.total_chunks,
                    now,
                );
                self.put(init.device, state);
                None
            },
            WorkerEvent::Progress(update) => {
                if let Some(i) = self.position(&update.device) {
                    self.rows[i].state.apply_progress(update, now);
                    proof {
                        lemma_replaced(before, *self, i as int, self.rows@[i as int].state);
                        assert(self@.dom() =~= before@.dom());
                    }
                }
                None
            },
            WorkerEvent::Finish(done) => {
                if let Some(i) = self.position(&done.device) {
                    self.rows[i].state.finish(now);
                    proof {
                        lemma_replaced(before, *self, i as int, self.rows@[i as int].state);
                        assert(self@.dom() =~= before@.dom());
                    }
                }
                None
            },
            WorkerEvent::Fatal { device, message } => {
                let mut notice: String = "fatal error for ".to_owned();
                notice.append(device.as_str());
                notice.append(": ");
                notice.append(message.as_str());
                Some(notice)
            },
        }
    }

    /// One round of the loop of the display. A report is taken note of, and the display is to be
    /// drawn if it was not for a while. The loop ends when the scan is cancelled, or when no
    /// worker is left.
    pub fn step(&mut self, input: LoopInput, now: u64) -> (outcome: LoopOutcome)
        requires
            old(self).wf(),
        ensures
            final(self).wf(),
            final(self).last_render == old(self).last_render,
            match input {
                LoopInput::Event(event) => {
                    &&& observed(old(self)@, event, now, final(self)@)
                    &&& crate::text::text_of(outcome.notice) == notice_of(event)
                },
                _ => *final(self) == *old(self) && outcome.notice is None,
            },
            outcome.stop == (input is Cancelled || input is Closed),
            outcome.redraw == (!outcome.stop && crate::state::time_between(
                old(self).last_render,
                now,
            ) >= RENDER_INTERVAL),
    {
        let redraw: bool = now.saturating_sub(self.last_render) >= RENDER_INTERVAL;
        match input {
            LoopInput::Cancelled => LoopOutcome { notice: None, redraw: false, stop: true },
            LoopInput::Closed => LoopOutcome { notice: None, redraw: false, stop: true },
            LoopInput::Idle => LoopOutcome { notice: None, redraw, stop: false },
            LoopInput::Event(event) => {
                let notice: Option<String> = self.observe(event, now);
                LoopOutcome { notice, redraw, stop: false }
            },
        }
    }

    /// Takes note that the display was drawn.
    pub fn rendered(&mut self, now: u64)
        ensures
            *final(self) == (Board { last_render: now, ..*old(self) }),
    {
        self.last_render = now;
    }
}

/// The state of a row is the state of its device.
pub proof fn lemma_row_state(board: Board, i: int)
    requires
        in_order(board.rows@),
        0 <= i < board.rows@.len(),
    ensures
        board@.contains_key(board.rows@[i].name@),
        board@[board.rows@[i].name@] == board.rows@[i].state,
{
    let name = board.rows@[i].name@;
    assert(is_row(board.rows@, name, i));
    let j = choose|j: int| is_row(board.rows@, name, j);
    crate::order::law_names_are_ordered(name, name, name);
    if j < i {
        assert(crate::order::name_before(board.rows@[j].name@, board.rows@[i].name@));
    } else if i < j {
        assert(crate::order::name_before(board.rows@[i].name@, board.rows@[j].name@));
    }
}

proof fn lemma_replaced(before: Board, after: Board, at: int, state: UiDeviceState)
    requires
        before.wf(),
        0 <= at < before.rows@.len(),
        after.rows@.len() == before.rows@.len(),
        forall|i: int|
            0 <= i < before.rows@.len() && i != at ==> #[trigger] after.rows@[i] == before.rows@[i],
        after.rows@[at].name == before.rows@[at].name,
        after.rows@[at].state == state,
    ensures
        in_order(after.rows@),
        after@ == before@.insert(before.rows@[at].name@, state),
        before@.contains_key(before.rows@[at].name@),
        before@[before.rows@[at].name@] == before.rows@[at].state,
{
    let name = before.rows@[at].name@;
    assert(forall|i: int| 0 <= i < before.rows@.len() ==> #[trigger] after.rows@[i].name@
        == before.rows@[i].name@);
    lemma_row_state(before, at);
    assert forall|other: Seq<char>| #[trigger]
        after@.contains_key(other) == before@.insert(name, state).contains_key(other) by {
        if after@.contains_key(other) {
            let i = choose|i: int| is_row(after.rows@, other, i);
            assert(is_row(before.rows@, other, i));
        }
        if before@.contains_key(other) {
            let i = choose|i: int| is_row(before.rows@, other, i);
            assert(is_row(after.rows@, other, i));
        }
    }
    assert forall|other: Seq<char>| #[trigger] after@.contains_key(other) implies after@[other]
        == before@.insert(name, state)[other] by {
        let i = choose|i: int| is_row(after.rows@, other, i);
        lemma_row_state(after, i);
        lemma_row_state(before, i);
        crate::order::law_names_are_ordered(name, other, other);
    }
    assert(after@ =~= before@.insert(name, state));
}

proof fn lemma_inserted(before: Board, after: Board, at: int)
    requires
        before.wf(),
        0 <= at <= before.rows@.len(),
        after.rows@ == before.rows@.insert(at, after.rows@[at]),
        forall|i: int|
            0 <= i < at ==> crate::order::name_before(
                #[trigger] before.rows@[i].name@,
                after.rows@[at].name@,
            ),
        at < before.rows@.len() ==> {
            &&& !crate::order::name_before(before.rows@[at].name@, after.rows@[at].name@)
            &&& before.rows@[at].name@ != after.rows@[at].name@
        },
    ensures
        in_order(after.rows@),
        after@ == before@.insert(after.rows@[at].name@, after.rows@[at].state),
{
    let name = after.rows@[at].name@;
    let state = after.rows@[at].state;
    let old_rows = before.rows@;
    let new_rows = after.rows@;
    old_rows.insert_ensures(at, new_rows[at]);
    assert forall|i: int| at <= i < old_rows.len() implies crate::order::name_before(
        name,
        #[trigger] old_rows[i].name@,
    ) by {
        crate::order::law_names_are_ordered(old_rows[at].name@, name, name);
        if at < i {
            assert(crate::order::name_before(old_rows[at].name@, old_rows[i].name@));
            crate::order::law_names_are_ordered(name, old_rows[at].name@, old_rows[i].name@);
        }
    }
    assert forall|i: int, j: int| 0 <= i < j < new_rows.len() implies crate::order::name_before(
        #[trigger] new_rows[i].name@,
        #[trigger] new_rows[j].name@,
    ) by {
        let i0 = if i < at {
            i
        } else {
            i - 1
        };
        let j0 = if j < at {
            j
        } else {
            j - 1
        };
        if i != at {
            assert(new_rows[i] == old_rows[i0]);
        }
        if j != at {
            assert(new_rows[j] == old_rows[j0]);
        }
    }
    assert forall|other: Seq<char>| #[trigger]
        after@.contains_key(other) == before@.insert(name, state).contains_key(other) by {
        if after@.contains_key(other) {
            let i = choose|i: int| is_row(new_rows, other, i);
            if i < at {
                assert(is_row(old_rows, other, i));
            } else if i > at {
                assert(new_rows[i] == old_rows[i - 1]);
                assert(is_row(old_rows, other, i - 1));
            }
        }
        if before@.contains_key(other) {
            let i = choose|i: int| is_row(old_rows, other, i);
            if i < at {
                assert(is_row(new_rows, other, i));
            } else {
                assert(new_rows[i + 1] == old_rows[i]);
                assert(is_row(new_rows, other, i + 1));
            }
        }
        assert(is_row(new_rows, name, at));
    }
    assert forall|other: Seq<char>| #[trigger] after@.contains_key(other) implies after@[other]
        == before@.insert(name, state)[other] by {
        let i = choose|i: int| is_row(new_rows, other, i);
        lemma_row_state(after, i);
        crate::order::law_names_are_ordered(name, other, other);
        if i < at {
            lemma_row_state(before, i);
        } else if i > at {
            assert(new_rows[i] == old_rows[i - 1]);
            lemma_row_state(before, i - 1);
        }
    }
    assert(after@ =~= before@.insert(name, state));
}

/// The name of the device that an event is on.
pub open spec fn subject(event: WorkerEvent) -> Seq<char> {
    match event {
        WorkerEvent::Init(init) => init.device@,
        WorkerEvent::Progress(update) => update.device@,
        WorkerEvent::Finish(done) => done.device@,
        WorkerEvent::Fatal { device, .. } => device@,
    }
}

/// Whether two states show the same of a device.
pub open spec fn shows_same(a: UiDeviceState, b: UiDeviceState) -> bool {
    &&& a.total_bytes == b.total_bytes
    &&& a.total_chunks == b.total_chunks
    &&& a.written_bytes == b.written_bytes
    &&& a.read_bytes == b.read_bytes
    &&& a.write_errors == b.write_errors
    &&& a.read_errors == b.read_errors
    &&& a.value_errors == b.value_errors
    &&& a.stage == b.stage
    &&& a.write_start == b.write_start
    &&& a.read_start == b.read_start
    &&& a.last_stage_bytes == b.last_stage_bytes
    &&& a.last_stage_instant == b.last_stage_instant
    &&& a.speed == b.speed
    &&& a.errors@ == b.errors@
    &&& a.error_marks@ == b.error_marks@
    &&& a.write_end == b.write_end
    &&& a.read_end == b.read_end
}

/// The devices on the board are those that have a row, and the state of each is that in its row.
pub proof fn law_rows_are_the_devices(board: Board)
    requires
        board.wf(),
    ensures
        forall|name: Seq<char>| #[trigger]
            board@.contains_key(name) <==> exists|i: int|
                0 <= i < board.rows@.len() && #[trigger] board.rows@[i].name@ == name,
        forall|i: int|
            0 <= i < board.rows@.len() ==> board@[#[trigger] board.rows@[i].name@]
                == board.rows@[i].state,
{
    assert forall|name: Seq<char>| #[trigger]
        board@.contains_key(name) <==> exists|i: int|
            0 <= i < board.rows@.len() && #[trigger] board.rows@[i].name@ == name by {
        if board@.contains_key(name) {
            let i = choose|i: int| is_row(board.rows@, name, i);
            assert(board.rows@[i].name@ == name);
        }
        if exists|i: int| 0 <= i < board.rows@.len() && #[trigger] board.rows@[i].name@ == name {
            let i = choose|i: int|
                0 <= i < board.rows@.len() && #[trigger] board.rows@[i].name@ == name;
            assert(is_row(board.rows@, name, i));
        }
    }
    assert forall|i: int| 0 <= i < board.rows@.len() implies board@[
    #[trigger] board.rows@[i].name@] == board.rows@[i].state by {
        lemma_row_state(board, i);
    }
}

/// Of two rows the upper one has the name that comes first.
pub proof fn law_rows_are_in_order(
    board: Board,
    i: int,
    j: int,
    upper: &str,
    lower: &str,
    before: bool,
)
    requires
        board.wf(),
        0 <= i < j < board.rows@.len(),
        upper@ == board.rows@[i].name@,
        lower@ == board.rows@[j].name@,
        call_ensures(comes_before, (upper, lower), before),
    ensures
        before,
        board.rows@[i].state.wf(),
{
    crate::order::law_names_are_ordered(upper@, lower@, lower@);
}

/// A board starts without devices.
pub proof fn law_board_starts_empty(now: u64, board: Board)
    requires
        call_ensures(Board::new, (now,), board),
    ensures
        board.wf(),
        board.rows@.len() == 0,
        forall|name: Seq<char>| !#[trigger] board@.contains_key(name),
        board.last_render == now,
{
}

/// A report changes nothing of the devices that it is not on: none of them comes, goes or gets
/// another state.
pub proof fn law_report_is_on_one_device(
    board: &mut Board,
    event: WorkerEvent,
    now: u64,
    notice: Option<String>,
    other: Seq<char>,
)
    requires
        old(board).wf(),
        call_ensures(Board::observe, (board, event, now), notice),
        other != subject(event),
    ensures
        final(board).wf(),
        final(board).last_render == old(board).last_render,
        final(board)@.contains_key(other) <==> old(board)@.contains_key(other),
        old(board)@.contains_key(other) ==> final(board)@[other] == old(board)@[other],
{
}

/// A device that reports for the first time, or starts again, is on the board with a state of its
/// own that is new.
pub proof fn law_starting_device_gets_a_new_state(
    board: &mut Board,
    init: crate::event::InitEvent,
    now: u64,
    notice: Option<String>,
    state: UiDeviceState,
)
    requires
        old(board).wf(),
        call_ensures(Board::observe, (board, WorkerEvent::Init(init), now), notice),
        call_ensures(UiDeviceState::new, (init.total_bytes, init.total_chunks, now), state),
    ensures
        notice is None,
        final(board)@.contains_key(init.device@),
        shows_same(final(board)@[init.device@], state),
{
    let name = init.device@;
    lemma_state_is_sound(*final(board), name);
}

/// A report on a chunk is taken note of in the state of its device. One on a device that is not on
/// the board changes nothing.
pub proof fn law_report_goes_to_its_device(
    board: &mut Board,
    update: crate::event::ProgressEvent,
    now: u64,
    notice: Option<String>,
    state: &mut UiDeviceState,
)
    requires
        old(board).wf(),
        call_ensures(Board::observe, (board, WorkerEvent::Progress(update), now), notice),
        old(board)@.contains_key(update.device@) ==> *old(state) == old(board)@[update.device@],
        call_ensures(UiDeviceState::apply_progress, (state, update, now), ()),
    ensures
        notice is None,
        final(board)@.contains_key(update.device@) <==> old(board)@.contains_key(update.device@),
        old(board)@.contains_key(update.device@) ==> shows_same(
            final(board)@[update.device@],
            *final(state),
        ),
{
    if old(board)@.contains_key(update.device@) {
        lemma_state_is_sound(*final(board), update.device@);
    }
}

/// The last report of a worker ends its device, and no other.
pub proof fn law_end_goes_to_its_device(
    board: &mut Board,
    done: crate::event::FinishEvent,
    now: u64,
    notice: Option<String>,
    state: &mut UiDeviceState,
)
    requires
        old(board).wf(),
        call_ensures(Board::observe, (board, WorkerEvent::Finish(done), now), notice),
        old(board)@.contains_key(done.device@) ==> *old(state) == old(board)@[done.device@],
        call_ensures(UiDeviceState::finish, (state, now), ()),
    ensures
        notice is None,
        final(board)@.contains_key(done.device@) <==> old(board)@.contains_key(done.device@),
        old(board)@.contains_key(done.device@) ==> shows_same(
            final(board)@[done.device@],
            *final(state),
        ),
{
}

/// A worker that gave up is announced with its device and its message, and changes nothing on the
/// board.
pub proof fn law_giving_up_is_announced(
    board: &mut Board,
    device: String,
    message: String,
    now: u64,
    notice: Option<String>,
)
    requires
        old(board).wf(),
        call_ensures(Board::observe, (board, WorkerEvent::Fatal { device, message }, now), notice),
    ensures
        notice is Some,
        notice->0@ == "fatal error for "@ + device@ + ": "@ + message@,
        final(board)@ == old(board)@,
{
}

/// A round of the loop takes note of a report as `observe` does. The loop ends when the scan is
/// cancelled or no worker is left, and in no other case.
pub proof fn law_loop_goes_on_until_it_is_over(
    board: &mut Board,
    input: LoopInput,
    now: u64,
    outcome: LoopOutcome,
)
    requires
        old(board).wf(),
        call_ensures(Board::step, (board, input, now), outcome),
    ensures
        final(board).wf(),
        outcome.stop <==> input is Cancelled || input is Closed,
        !(input is Event) ==> *final(board) == *old(board) && outcome.notice is None,
        input is Event ==> (outcome.notice is Some <==> input->Event_0 is Fatal),
        final(board).last_render == old(board).last_render,
{
}

/// A report has the same effect in a round of the loop as by itself.
pub proof fn law_loop_takes_note_of_reports(
    board: &mut Board,
    event: WorkerEvent,
    now: u64,
    outcome: LoopOutcome,
    other: &mut Board,
    notice: Option<String>,
    name: Seq<char>,
)
    requires
        old(board).wf(),
        *old(other) == *old(board),
        call_ensures(Board::step, (board, LoopInput::Event(event), now), outcome),
        call_ensures(Board::observe, (other, event, now), notice),
    ensures
        outcome.notice is Some <==> notice is Some,
        notice is Some ==> outcome.notice->0@ == notice->0@,
        final(board)@.contains_key(name) <==> final(other)@.contains_key(name),
        final(board)@.contains_key(name) ==> shows_same(
            final(board)@[name],
            final(other)@[name],
        ),
{
    if final(board)@.contains_key(name) {
        lemma_state_is_sound(*final(board), name);
        lemma_state_is_sound(*final(other), name);
    }
}

/// The display is drawn in every round that comes a tenth of a second or more after it was last
/// drawn, unless the loop ends with the round.
pub proof fn law_display_is_drawn_ten_times_a_second(
    board: &mut Board,
    drawn: u64,
    other: &mut Board,
    input: LoopInput,
    now: u64,
    outcome: LoopOutcome,
)
    requires
        call_ensures(Board::rendered, (board, drawn), ()),
        *old(other) == *final(board),
        call_ensures(Board::step, (other, input, now), outcome),
    ensures
        final(board).rows == old(board).rows,
        outcome.redraw <==> !outcome.stop && now - drawn >= 100_000_000,
{
}

proof fn lemma_state_is_sound(board: Board, name: Seq<char>)
    requires
        board.wf(),
        board@.contains_key(name),
    ensures
        board@[name].wf(),
{
    let i = choose|i: int| is_row(board.rows@, name, i);
    assert(is_row(board.rows@, name, i));
    lemma_row_state(board, i);
}

} // verus!
