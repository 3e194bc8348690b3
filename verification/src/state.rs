//! What the display knows of a device.
//!
//! Points in time are nanoseconds since a start that all of them share.

use crate::event::{ErrorKind, ErrorRecord, ProgressEvent, Stage};
use std::collections::VecDeque;
use vstd::prelude::*;

verus! {

/// The number of errors that are marked on the bar of a device.
pub const ERROR_MARKS_LIMIT: usize = 1024;

/// The least time between two measurements of the speed.
pub const SPEED_INTERVAL: u64 = 200_000_000;

/// A measurement of the speed: so many bytes in so many nanoseconds.
#[derive(Debug, Clone, Copy, PartialEq, Eq, Structural)]
pub struct SpeedSample {
    pub bytes: u64,
    pub nanos: u64,
}

/// The state of a device.
#[derive(Debug)]
pub struct UiDeviceState {
    pub total_bytes: u64,
    pub total_chunks: u64,
    pub written_bytes: u64,
    pub read_bytes: u64,
    pub write_errors: u64,
    pub read_errors: u64,
    pub value_errors: u64,
    pub stage: Stage,
    pub write_start: u64,
    pub read_start: Option<u64>,
    pub last_stage_bytes: u64,
    pub last_stage_instant: u64,
    /// The last measurement of the speed, if there was one.
    pub speed: Option<SpeedSample>,
    /// All errors, in the order in which they came.
    pub errors: Vec<ErrorRecord>,
    /// The errors that are marked on the bar: the last ones.
    pub error_marks: VecDeque<ErrorRecord>,
    pub write_end: Option<u64>,
    pub read_end: Option<u64>,
}

/// The number of errors of a kind.
pub open spec fn count_of(errors: Seq<ErrorRecord>, kind: ErrorKind) -> nat
    decreases errors.len(),
{
    if errors.len() == 0 {
        0
    } else {
        count_of(errors.drop_last(), kind) + if errors.last().kind == kind {
            1nat
        } else {
            0
        }
    }
}

/// The last errors, as many as are marked on a bar.
pub open spec fn recent(errors: Seq<ErrorRecord>) -> Seq<ErrorRecord> {
    errors.skip(vstd::math::max(0, errors.len() - ERROR_MARKS_LIMIT))
}

/// The time from one point to another, or zero if the other is not later.
pub open spec fn time_between(from: u64, to: u64) -> u64 {
    if to < from {
        0
    } else {
        (to - from) as u64
    }
}

/// A sum of bytes, as far as it can be counted.
pub open spec fn bytes_sum(a: u64, b: u64) -> u64 {
    vstd::math::min(a + b, u64::MAX as int) as u64
}

/// What an event leaves as it was, and what it says of the stages.
pub open spec fn stages_progressed(
    old_state: UiDeviceState,
    update: ProgressEvent,
    now: u64,
    new_state: UiDeviceState,
) -> bool {
    let reading_starts = update.stage is Reading && old_state.read_start is None;
    &&& new_state.total_bytes == old_state.total_bytes
    &&& new_state.total_chunks == old_state.total_chunks
    &&& new_state.write_start == old_state.write_start
    &&& new_state.read_end == old_state.read_end
    &&& new_state.stage == match update.stage {
        Stage::Done => old_state.stage,
        stage => stage,
    }
    &&& new_state.written_bytes == if update.stage is Writing {
        bytes_sum(old_state.written_bytes, update.bytes)
    } else {
        old_state.written_bytes
    }
    &&& new_state.read_bytes == if update.stage is Reading {
        bytes_sum(old_state.read_bytes, update.bytes)
    } else {
        old_state.read_bytes
    }
    &&& new_state.read_start == if reading_starts {
        Some(now)
    } else {
        old_state.read_start
    }
    &&& new_state.write_end == if reading_starts {
        Some(now)
    } else {
        old_state.write_end
    }
}

/// What an event says of the errors.
pub open spec fn errors_progressed(
    old_state: UiDeviceState,
    update: ProgressEvent,
    new_state: UiDeviceState,
) -> bool {
    new_state.errors@ == match update.error {
        Some(error) => old_state.errors@.push(error),
        None => old_state.errors@,
    }
}

/// What an event says of the speed. It is measured over the bytes of the stage since the last
/// measurement, or since reading started, and not too often.
pub open spec fn speed_progressed(
    old_state: UiDeviceState,
    update: ProgressEvent,
    now: u64,
    new_state: UiDeviceState,
) -> bool {
    let reading_starts = update.stage is Reading && old_state.read_start is None;
    let since = if reading_starts {
        now
    } else {
        old_state.last_stage_instant
    };
    let bytes_then = if reading_starts {
        0
    } else {
        old_state.last_stage_bytes
    };
    let bytes_now = if new_state.stage is Writing {
        new_state.written_bytes
    } else {
        new_state.read_bytes
    };
    if time_between(since, now) >= SPEED_INTERVAL {
        &&& new_state.speed == Some(
            SpeedSample {
                bytes: if bytes_now < bytes_then {
                    0
                } else {
                    (bytes_now - bytes_then) as u64
                },
                nanos: time_between(since, now),
            },
        )
        &&& new_state.last_stage_bytes == bytes_now
        &&& new_state.last_stage_instant == now
    } else {
        &&& new_state.speed == old_state.speed
        &&& new_state.last_stage_bytes == bytes_then
        &&& new_state.last_stage_instant == since
    }
}

/// How an event that comes in at `now` changes the state of its device.
pub open spec fn progressed(
    old_state: UiDeviceState,
    update: ProgressEvent,
    now: u64,
    new_state: UiDeviceState,
) -> bool {
    &&& stages_progressed(old_state, update, now, new_state)
    &&& errors_progressed(old_state, update, new_state)
    &&& speed_progressed(old_state, update, now, new_state)
}

impl UiDeviceState {
    /// The counters count the errors, and the marks are the last of them.
    pub open spec fn wf(self) -> bool {
        &&& self.write_errors == count_of(self.errors@, ErrorKind::Write)
        &&& self.read_errors == count_of(self.errors@, ErrorKind::Read)
        &&& self.value_errors == count_of(self.errors@, ErrorKind::Value)
        &&& self.error_marks@ == recent(self.errors@)
    }

    /// The state of a device that starts at `now`.
    pub open spec fn is_fresh(self, total_bytes: u64, total_chunks: u64, now: u64) -> bool {
        &&& self.total_bytes == total_bytes
        &&& self.total_chunks == total_chunks
        &&& self.written_bytes == 0
        &&& self.read_bytes == 0
        &&& self.stage is Writing
        &&& self.write_start == now
        &&& self.read_start is None
        &&& self.last_stage_bytes == 0
        &&& self.last_stage_instant == now
        &&& self.speed is None
        &&& self.errors@ == Seq::<ErrorRecord>::empty()
        &&& self.write_end is None
        &&& self.read_end is None
    }

    /// The state of a device that starts at `now`.
    pub fn new(total_bytes: u64, total_chunks: u64, now: u64) -> (state: UiDeviceState)
        ensures
            state.wf(),
            state.is_fresh(total_bytes, total_chunks, now),
    {
        let errors: Vec<ErrorRecord> = Vec::new();
        assert(recent(errors@) =~= Seq::empty());
        UiDeviceState {
            total_bytes,
            total_chunks,
            written_bytes: 0,
            read_bytes: 0,
            write_errors: 0,
            read_errors: 0,
            value_errors: 0,
            stage: Stage::Writing,
            write_start: now,
            read_start: None,
            last_stage_bytes: 0,
            last_stage_instant: now,
            speed: None,
            errors,
            error_marks: VecDeque::new(),
            write_end: None,
            read_end: None,
        }
    }

    /// Takes note of a report on a chunk that comes in at `now`.
    pub fn apply_progress(&mut self, update: ProgressEvent, now: u64)
        requires
            old(self).wf(),
        ensures
            final(self).wf(),
            progressed(*old(self), update, now, *final(self)),
    {
        match update.stage {
            Stage::Writing => {
                self.stage = Stage::Writing;
                self.written_bytes = self.written_bytes.saturating_add(update.bytes);
            },
            Stage::Reading => {
                if self.read_start.is_none() {
                    self.read_start = Some(now);
                    self.write_end = Some(now);
                    self.last_stage_instant = now;
                    self.last_stage_bytes = 0;
                }
                self.stage = Stage::Reading;
                self.read_bytes = self.read_bytes.saturating_add(update.bytes);
            },
            Stage::Done => {},
        }
        if let Some(error) = update.error {
            self.record(error);
        }
        let stage_bytes: u64 = match self.stage {
            Stage::Writing => self.written_bytes,
            Stage::Reading => self.read_bytes,
            Stage::Done => self.read_bytes,
        };
        let elapsed: u64 = now.saturating_sub(self.last_stage_instant);
        if elapsed >= SPEED_INTERVAL {
            let delta: u64 = stage_bytes.saturating_sub(self.last_stage_bytes);
            self.speed = Some(SpeedSample { bytes: delta, nanos: elapsed });
            self.last_stage_bytes = stage_bytes;
            self.last_stage_instant = now;
        }
    }

    /// Takes note of an error.
    fn record(&mut self, error: ErrorRecord)
        requires
            old(self).wf(),
        ensures
            final(self).wf(),
            *final(self) == (UiDeviceState {
                write_errors: final(self).write_errors,
                read_errors: final(self).read_errors,
                value_errors: final(self).value_errors,
                errors: final(self).errors,
                error_marks: final(self).error_marks,
                ..*old(self)
            }),
            final(self).errors@ == old(self).errors@.push(error),
    {
        let kind: ErrorKind = error.kind;
        let ghost before = self.errors@;
        let ghost added = error;
        self.errors.push(error.clone());
        proof {
            let after = self.errors@;
            assert(after == before.push(added));
            assert(after.drop_last() =~= before);
            law_every_error_is_counted_once(after);
            assert(after.len() == self.errors.len());
        }
        match kind {
            ErrorKind::Write => {
                self.write_errors = self.write_errors + 1;
            },
            ErrorKind::Read => {
                self.read_errors = self.read_errors + 1;
            },
            ErrorKind::Value => {
                self.value_errors = self.value_errors + 1;
            },
        }
        self.error_marks.push_back(error);
        if self.error_marks.len() > ERROR_MARKS_LIMIT {
            let _ = self.error_marks.pop_front();
        }
        assert(self.error_marks@ =~= recent(self.errors@));
    }

    /// Takes note that the worker of the device has come to its end.
    pub fn finish(&mut self, now: u64)
        requires
            old(self).wf(),
        ensures
            final(self).wf(),
            *final(self) == (UiDeviceState {
                stage: Stage::Done,
                read_end: Some(now),
                ..*old(self)
            }),
    {
        self.stage = Stage::Done;
        self.read_end = Some(now);
    }

    /// The number of errors of all kinds.
    pub fn total_errors(&self) -> (total: u64)
        requires
            self.wf(),
        ensures
            total == self.errors@.len(),
    {
        proof {
            law_every_error_is_counted_once(self.errors@);
            assert(self.errors@.len() == self.errors.len());
        }
        self.write_errors + self.read_errors + self.value_errors
    }
}

/// Every error is counted once.
pub proof fn law_every_error_is_counted_once(errors: Seq<ErrorRecord>)
    ensures
        count_of(errors, ErrorKind::Write) + count_of(errors, ErrorKind::Read) + count_of(
            errors,
            ErrorKind::Value,
        ) == errors.len(),
    decreases errors.len(),
{
    if errors.len() > 0 {
        law_every_error_is_counted_once(errors.drop_last());
    }
}

/// No report takes anything back: the bytes written and read do not get fewer, and the errors
/// stay.
pub proof fn law_progress_is_never_lost(
    old_state: UiDeviceState,
    update: ProgressEvent,
    now: u64,
    new_state: UiDeviceState,
)
    requires
        progressed(old_state, update, now, new_state),
    ensures
        new_state.written_bytes >= old_state.written_bytes,
        new_state.read_bytes >= old_state.read_bytes,
        new_state.errors@.len() >= old_state.errors@.len(),
        new_state.errors@.take(old_state.errors@.len() as int) == old_state.errors@,
        old_state.read_start is Some ==> new_state.read_start == old_state.read_start,
{
    assert(new_state.errors@.take(old_state.errors@.len() as int) =~= old_state.errors@);
}

/// The reports of a pass fill the bar: after those on the first `n` chunks of a device, in the
/// stage `stage`, the bytes counted for the stage are those of the chunks, and those of all
/// chunks are the size of the device.
pub proof fn law_reports_fill_the_bar(
    g: crate::chunks::Geometry,
    stage: Stage,
    states: Seq<UiDeviceState>,
    updates: Seq<ProgressEvent>,
    times: Seq<u64>,
)
    requires
        g.valid(),
        stage is Writing || stage is Reading,
        updates.len() <= g.chunks(),
        states.len() == updates.len() + 1,
        times.len() == updates.len(),
        stage is Writing ==> states[0].written_bytes == 0,
        stage is Reading ==> states[0].read_bytes == 0,
        forall|i: int|
            0 <= i < updates.len() ==> {
                &&& (#[trigger] updates[i]).stage == stage
                &&& updates[i].bytes == g.len(i)
                &&& progressed(states[i], updates[i], times[i], states[i + 1])
            },
    ensures
        ({
            let counted = if stage is Writing {
                states.last().written_bytes
            } else {
                states.last().read_bytes
            };
            &&& counted == g.bytes_before(updates.len() as int)
            &&& updates.len() == g.chunks() ==> counted == g.size
        }),
    decreases updates.len(),
{
    crate::chunks::law_chunk_lengths_add_up(g, updates.len() as int);
    let n = updates.len() as int;
    if n > 0 {
        assert forall|i: int| 0 <= i < n - 1 implies {
            &&& (#[trigger] updates.drop_last()[i]).stage == stage
            &&& updates.drop_last()[i].bytes == g.len(i)
            &&& progressed(
                states.drop_last()[i],
                updates.drop_last()[i],
                times.drop_last()[i],
                states.drop_last()[i + 1],
            )
        } by {
            assert(updates[i] == updates.drop_last()[i]);
        }
        law_reports_fill_the_bar(
            g,
            stage,
            states.drop_last(),
            updates.drop_last(),
            times.drop_last(),
        );
        assert(updates[n - 1].bytes == g.len(n - 1));
        assert(states.drop_last().last() == states[n - 1]);
        if n < g.chunks() {
            crate::chunks::lemma_offset_within(g, n);
        }
    }
}

/// The counters of a sound state are the numbers of the errors of each kind, and the marks are the
/// last errors, as many as there are but at most 1024, in their order.
pub proof fn law_counters_count_and_marks_are_the_last(state: UiDeviceState)
    requires
        state.wf(),
    ensures
        state.write_errors == state.errors@.filter(|e: ErrorRecord| e.kind is Write).len(),
        state.read_errors == state.errors@.filter(|e: ErrorRecord| e.kind is Read).len(),
        state.value_errors == state.errors@.filter(|e: ErrorRecord| e.kind is Value).len(),
        state.error_marks@.is_suffix_of(state.errors@),
        state.errors@.len() <= 1024 ==> state.error_marks@.len() == state.errors@.len(),
        state.errors@.len() > 1024 ==> state.error_marks@.len() == 1024,
{
    lemma_count_is_filter(state.errors@, ErrorKind::Write, |e: ErrorRecord| e.kind is Write);
    lemma_count_is_filter(state.errors@, ErrorKind::Read, |e: ErrorRecord| e.kind is Read);
    lemma_count_is_filter(state.errors@, ErrorKind::Value, |e: ErrorRecord| e.kind is Value);
    assert(recent(state.errors@) =~= state.errors@.subrange(
        state.errors@.len() - recent(state.errors@).len(),
        state.errors@.len() as int,
    ));
}

pub(crate) proof fn lemma_count_is_filter(
    errors: Seq<ErrorRecord>,
    kind: ErrorKind,
    is_kind: spec_fn(ErrorRecord) -> bool,
)
    requires
        forall|e: ErrorRecord| #[trigger] is_kind(e) <==> e.kind == kind,
    ensures
        count_of(errors, kind) == errors.filter(is_kind).len(),
    decreases errors.len(),
{
    reveal(Seq::filter);
    if errors.len() > 0 {
        lemma_count_is_filter(errors.drop_last(), kind, is_kind);
    }
}

/// A device starts with nothing written, read, measured or failed, and its time runs from then
/// on.
pub proof fn law_device_starts_with_nothing(
    total_bytes: u64,
    total_chunks: u64,
    now: u64,
    state: UiDeviceState,
)
    requires
        call_ensures(UiDeviceState::new, (total_bytes, total_chunks, now), state),
    ensures
        state.wf(),
        state.total_bytes == total_bytes && state.total_chunks == total_chunks,
        state.written_bytes == 0 && state.read_bytes == 0,
        state.write_errors == 0 && state.read_errors == 0 && state.value_errors == 0,
        state.stage is Writing,
        state.write_start == now && state.last_stage_instant == now,
        state.last_stage_bytes == 0,
        state.read_start is None && state.write_end is None && state.read_end is None,
        state.speed is None,
        state.errors@.len() == 0 && state.error_marks@.len() == 0,
{
}

/// A report counts its bytes for its stage and for no other, and the stage is then that of the
/// report. The counters stop at their largest number. A report of the last stage counts nothing.
pub proof fn law_report_counts_for_its_stage(
    state: &mut UiDeviceState,
    update: ProgressEvent,
    now: u64,
)
    requires
        call_ensures(UiDeviceState::apply_progress, (state, update, now), ()),
    ensures
        final(state).total_bytes == old(state).total_bytes,
        final(state).total_chunks == old(state).total_chunks,
        final(state).write_start == old(state).write_start,
        final(state).read_end == old(state).read_end,
        update.stage is Writing ==> {
            let sum = old(state).written_bytes + update.bytes;
            &&& final(state).stage is Writing
            &&& final(state).written_bytes == if sum > u64::MAX {
                u64::MAX as int
            } else {
                sum
            }
            &&& final(state).read_bytes == old(state).read_bytes
        },
        update.stage is Reading ==> {
            let sum = old(state).read_bytes + update.bytes;
            &&& final(state).stage is Reading
            &&& final(state).read_bytes == if sum > u64::MAX {
                u64::MAX as int
            } else {
                sum
            }
            &&& final(state).written_bytes == old(state).written_bytes
        },
        update.stage is Done ==> {
            &&& final(state).stage == old(state).stage
            &&& final(state).written_bytes == old(state).written_bytes
            &&& final(state).read_bytes == old(state).read_bytes
        },
{
}

/// Reading starts with the first report on it, and writing ends then. Later reports change
/// neither.
pub proof fn law_reading_starts_once(state: &mut UiDeviceState, update: ProgressEvent, now: u64)
    requires
        call_ensures(UiDeviceState::apply_progress, (state, update, now), ()),
    ensures
        old(state).read_start is None && update.stage is Reading ==> final(state).read_start
            == Some(now) && final(state).write_end == Some(now),
        old(state).read_start is Some || !(update.stage is Reading) ==> {
            &&& final(state).read_start == old(state).read_start
            &&& final(state).write_end == old(state).write_end
        },
{
}

/// An error is kept behind those that came before it, counted for its kind and for no other, and
/// marked as the last one. Of the marks the first one goes if there are more than 1024. A report
/// without an error changes nothing of this.
pub proof fn law_error_is_kept_counted_and_marked(
    state: &mut UiDeviceState,
    update: ProgressEvent,
    now: u64,
)
    requires
        old(state).wf(),
        call_ensures(UiDeviceState::apply_progress, (state, update, now), ()),
    ensures
        final(state).wf(),
        update.error is None ==> {
            &&& final(state).errors@ == old(state).errors@
            &&& final(state).error_marks@ == old(state).error_marks@
            &&& final(state).write_errors == old(state).write_errors
            &&& final(state).read_errors == old(state).read_errors
            &&& final(state).value_errors == old(state).value_errors
        },
        update.error is Some ==> {
            let error = update.error->0;
            &&& final(state).errors@ == old(state).errors@.push(error)
            &&& final(state).error_marks@ == if old(state).error_marks@.len() < 1024 {
                old(state).error_marks@.push(error)
            } else {
                old(state).error_marks@.drop_first().push(error)
            }
            &&& final(state).write_errors - old(state).write_errors == if error.kind is Write {
                1int
            } else {
                0
            }
            &&& final(state).read_errors - old(state).read_errors == if error.kind is Read {
                1int
            } else {
                0
            }
            &&& final(state).value_errors - old(state).value_errors == if error.kind is Value {
                1int
            } else {
                0
            }
        },
{
    let before = old(state).errors@;
    let after = final(state).errors@;
    if update.error is Some {
        let error = update.error->0;
        assert(after.drop_last() =~= before);
        assert(after.last() == error);
        if old(state).error_marks@.len() < 1024 {
            assert(final(state).error_marks@ =~= old(state).error_marks@.push(error));
        } else {
            assert(final(state).error_marks@ =~= old(state).error_marks@.drop_first().push(error));
        }
    }
}

/// The speed is measured when a fifth of a second has passed since it was last measured: the bytes
/// that the stage has made since then, in the time since then. Until then the last measurement
/// stands. When reading starts, its bytes and its time are counted from there.
pub proof fn law_speed_is_measured_since_the_last_time(
    state: &mut UiDeviceState,
    update: ProgressEvent,
    now: u64,
)
    requires
        call_ensures(UiDeviceState::apply_progress, (state, update, now), ()),
    ensures
        ({
            let starts = update.stage is Reading && old(state).read_start is None;
            let elapsed = now - old(state).last_stage_instant;
            let made = match final(state).stage {
                Stage::Writing => final(state).written_bytes,
                _ => final(state).read_bytes,
            };
            let gain = made - old(state).last_stage_bytes;
            &&& starts ==> {
                &&& final(state).speed == old(state).speed
                &&& final(state).last_stage_instant == now
                &&& final(state).last_stage_bytes == 0
            }
            &&& !starts && elapsed < 200_000_000 ==> {
                &&& final(state).speed == old(state).speed
                &&& final(state).last_stage_instant == old(state).last_stage_instant
                &&& final(state).last_stage_bytes == old(state).last_stage_bytes
            }
            &&& !starts && elapsed >= 200_000_000 ==> {
                &&& final(state).speed is Some
                &&& final(state).speed->0.nanos == elapsed
                &&& final(state).speed->0.bytes == if gain < 0 {
                    0
                } else {
                    gain
                }
                &&& final(state).last_stage_instant == now
                &&& final(state).last_stage_bytes == made
            }
        }),
{
}

/// Measurements of a stage add up: of two that follow each other, the second has the bytes that
/// the stage has at the second less those that it had at the first, and the time between the two.
/// This holds of both stages.
pub proof fn law_measurements_add_up(
    first: &mut UiDeviceState,
    update: ProgressEvent,
    then: u64,
    second: &mut UiDeviceState,
    later_update: ProgressEvent,
    now: u64,
)
    requires
        call_ensures(UiDeviceState::apply_progress, (first, update, then), ()),
        call_ensures(UiDeviceState::apply_progress, (second, later_update, now), ()),
        *old(second) == *final(first),
        // Both reports are on the same stage, and neither is the first on reading.
        update.stage is Writing || update.stage is Reading && old(first).read_start is Some,
        later_update.stage == update.stage,
        // Both are measured.
        then - old(first).last_stage_instant >= 200_000_000,
        now - then >= 200_000_000,
    ensures
        final(second).speed is Some,
        final(second).speed->0.nanos == now - then,
        update.stage is Writing ==> final(second).speed->0.bytes == final(second).written_bytes
            - final(first).written_bytes,
        update.stage is Reading ==> final(second).speed->0.bytes == final(second).read_bytes
            - final(first).read_bytes,
{
}

/// A constant rate is measured as such: where every report is on as many bytes as the one before
/// it, and comes as long after it, and is measured, the speed that is measured stays the same.
pub proof fn law_constant_rate_is_measured_as_such(
    first: &mut UiDeviceState,
    update: ProgressEvent,
    then: u64,
    second: &mut UiDeviceState,
    later_update: ProgressEvent,
    now: u64,
)
    requires
        call_ensures(UiDeviceState::apply_progress, (first, update, then), ()),
        call_ensures(UiDeviceState::apply_progress, (second, later_update, now), ()),
        *old(second) == *final(first),
        update.stage is Writing || update.stage is Reading && old(first).read_start is Some,
        later_update.stage == update.stage,
        later_update.bytes == update.bytes,
        then - old(first).last_stage_instant == now - then >= 200_000_000,
        // The first report is measured over its own bytes, and the counter is not at its end.
        old(first).last_stage_bytes == if update.stage is Writing {
            old(first).written_bytes
        } else {
            old(first).read_bytes
        },
        old(first).last_stage_bytes + 2 * update.bytes <= u64::MAX,
    ensures
        final(first).speed is Some,
        final(first).speed->0.bytes == update.bytes,
        final(second).speed == final(first).speed,
{
}

/// When the worker of a device has come to its end, the stage is the last one and reading has
/// ended. Nothing else changes.
pub proof fn law_end_changes_only_the_stage(state: &mut UiDeviceState, now: u64)
    requires
        call_ensures(UiDeviceState::finish, (state, now), ()),
    ensures
        final(state).stage is Done,
        final(state).read_end == Some(now),
        *final(state) == (UiDeviceState {
            stage: final(state).stage,
            read_end: final(state).read_end,
            ..*old(state)
        }),
{
}

/// The number of all errors is that of the errors kept, and the sum of the counters.
pub proof fn law_total_is_the_sum_of_the_kinds(state: UiDeviceState, total: u64)
    requires
        state.wf(),
        call_ensures(UiDeviceState::total_errors, (&state,), total),
    ensures
        total == state.errors@.len(),
        total == state.write_errors + state.read_errors + state.value_errors,
{
    law_every_error_is_counted_once(state.errors@);
}

} // verus!
