//! How long the stage of a device is going to take.

use crate::event::Stage;
use crate::state::{SpeedSample, UiDeviceState};
use crate::text::format_duration;
use vstd::prelude::*;

verus! {

/// What an estimate of the time that is left rests on.
#[derive(Debug, Clone, Copy, PartialEq, Eq, Structural)]
pub enum EtaPlan {
    /// Nothing is left.
    Finished,
    /// Nothing is known of the speed.
    Unknown,
    /// The speed since the start of the stage: `done` bytes in `nanos` nanoseconds.
    Average { remaining: u64, done: u64, nanos: u64 },
    /// The speed that was last measured.
    Recent { remaining: u64, sample: SpeedSample },
}

/// What the estimate for a stage that started at `start` rests on.
pub open spec fn stage_plan(
    done: u64,
    total: u64,
    start: u64,
    speed: Option<SpeedSample>,
    now: u64,
) -> EtaPlan {
    let nanos = crate::state::time_between(start, now);
    let remaining = if total < done {
        0
    } else {
        (total - done) as u64
    };
    if done > 0 && nanos > 0 {
        EtaPlan::Average { remaining, done, nanos }
    } else if speed is Some && speed->0.bytes > 0 {
        EtaPlan::Recent { remaining, sample: speed->0 }
    } else {
        EtaPlan::Unknown
    }
}

/// What the estimate for a device rests on. Each stage counts for itself.
pub open spec fn eta_plan(state: UiDeviceState, now: u64) -> EtaPlan {
    match state.stage {
        Stage::Writing => stage_plan(
            state.written_bytes,
            state.total_bytes,
            state.write_start,
            state.speed,
            now,
        ),
        Stage::Reading => stage_plan(
            state.read_bytes,
            state.total_bytes,
            match state.read_start {
                Some(start) => start,
                None => state.write_start,
            },
            state.speed,
            now,
        ),
        Stage::Done => EtaPlan::Finished,
    }
}

fn plan_stage(done: u64, total: u64, start: u64, speed: Option<SpeedSample>, now: u64) -> (plan:
    EtaPlan)
    ensures
        plan == stage_plan(done, total, start, speed, now),
{
    let nanos: u64 = now.saturating_sub(start);
    let remaining: u64 = total.saturating_sub(done);
    if done > 0 && nanos > 0 {
        return EtaPlan::Average { remaining, done, nanos };
    }
    match speed {
        Some(sample) => {
            if sample.bytes > 0 {
                EtaPlan::Recent { remaining, sample }
            } else {
                EtaPlan::Unknown
            }
        },
        None => EtaPlan::Unknown,
    }
}

/// What the estimate for a device rests on.
pub fn compute_eta(state: &UiDeviceState, now: u64) -> (plan: EtaPlan)
    ensures
        plan == eta_plan(*state, now),
{
    match state.stage {
        Stage::Writing => plan_stage(
            state.written_bytes,
            state.total_bytes,
            state.write_start,
            state.speed,
            now,
        ),
        Stage::Reading => {
            let start: u64 = match state.read_start {
                Some(start) => start,
                None => state.write_start,
            };
            plan_stage(state.read_bytes, state.total_bytes, start, state.speed, now)
        },
        Stage::Done => EtaPlan::Finished,
    }
}

/// The text of an estimate of so many seconds.
pub open spec fn eta_text(plan: EtaPlan, seconds: u64) -> Seq<char> {
    match plan {
        EtaPlan::Finished => crate::text::duration_text(0),
        EtaPlan::Unknown => "--:--:--"@,
        _ => crate::text::duration_text(seconds as nat),
    }
}

/// The text of an estimate. The seconds are those of a plan that gives a speed.
pub fn format_eta(plan: EtaPlan, seconds: u64) -> (text: String)
    ensures
        text@ == eta_text(plan, seconds),
{
    match plan {
        EtaPlan::Finished => format_duration(0),
        EtaPlan::Unknown => "--:--:--".to_owned(),
        EtaPlan::Average { .. } => format_duration(seconds),
        EtaPlan::Recent { .. } => format_duration(seconds),
    }
}

/// The speed over a stage, if it has ended and took time.
pub open spec fn stage_speed(bytes: u64, start: u64, end: Option<u64>) -> Option<SpeedSample> {
    match end {
        Some(end) => if start < end {
            Some(SpeedSample { bytes, nanos: (end - start) as u64 })
        } else {
            None
        },
        None => None,
    }
}

/// The speed over a stage, if it has ended and took time.
pub fn average_speed(bytes: u64, start: u64, end: Option<u64>) -> (speed: Option<SpeedSample>)
    ensures
        speed == stage_speed(bytes, start, end),
{
    match end {
        Some(end) => {
            if start < end {
                Some(SpeedSample { bytes, nanos: end - start })
            } else {
                None
            }
        },
        None => None,
    }
}

impl UiDeviceState {
    /// The speed over the write stage. It is taken to have covered the whole device.
    pub fn write_speed(&self) -> (speed: Option<SpeedSample>)
        ensures
            speed == stage_speed(self.total_bytes, self.write_start, self.write_end),
    {
        average_speed(self.total_bytes, self.write_start, self.write_end)
    }

    /// The speed over the read stage.
    pub fn read_speed(&self) -> (speed: Option<SpeedSample>)
        ensures
            speed == stage_speed(
                self.read_bytes,
                match self.read_start {
                    Some(start) => start,
                    None => self.write_start,
                },
                self.read_end,
            ),
    {
        let start: u64 = match self.read_start {
            Some(start) => start,
            None => self.write_start,
        };
        average_speed(self.read_bytes, start, self.read_end)
    }
}

/// An estimate is for the stage that the device is in: it counts the bytes that the stage has done
/// and the time since the stage began. Nothing is left of a device that is done.
pub proof fn law_estimate_is_for_the_stage(state: UiDeviceState, now: u64, plan: EtaPlan)
    requires
        call_ensures(compute_eta, (&state, now), plan),
    ensures
        ({
            let reading = state.stage is Reading;
            let done = if reading {
                state.read_bytes
            } else {
                state.written_bytes
            };
            let start = if reading && state.read_start is Some {
                state.read_start->0
            } else {
                state.write_start
            };
            let left = if done > state.total_bytes {
                0
            } else {
                state.total_bytes - done
            };
            let moved = done > 0 && now > start;
            let measured = state.speed is Some && state.speed->0.bytes > 0;
            &&& state.stage is Done <==> plan is Finished
            // The average over the stage counts, wherever there is one.
            &&& plan is Average <==> !(state.stage is Done) && moved
            &&& plan is Average ==> plan->Average_done == done && plan->Average_nanos == now - start
                && plan->Average_remaining == left
            // Without one the last measurement does, if it is of any use.
            &&& plan is Recent <==> !(state.stage is Done) && !moved && measured
            &&& plan is Recent ==> plan->sample == state.speed->0 && plan->Recent_remaining == left
            &&& plan is Unknown <==> !(state.stage is Done) && !moved && !measured
        }),
{
}

/// An estimate is shown as a duration: of no seconds if nothing is left, and of the seconds given
/// if a speed is known. If none is known, that is what shows.
pub proof fn law_estimate_is_shown_as_a_duration(
    plan: EtaPlan,
    seconds: u64,
    text: String,
    zero: String,
    duration: String,
)
    requires
        call_ensures(format_eta, (plan, seconds), text),
        call_ensures(format_duration, (0u64,), zero),
        call_ensures(format_duration, (seconds,), duration),
    ensures
        plan is Finished ==> text@ == zero@,
        plan is Unknown ==> text@ == "--:--:--"@,
        plan is Average || plan is Recent ==> text@ == duration@,
{
}

/// A stage that has ended later than it began has a speed: its bytes in the time that it took. No
/// other has one.
pub proof fn law_ended_stage_has_a_speed(
    bytes: u64,
    start: u64,
    end: Option<u64>,
    speed: Option<SpeedSample>,
)
    requires
        call_ensures(average_speed, (bytes, start, end), speed),
    ensures
        speed is Some <==> end is Some && end->0 > start,
        speed is Some ==> speed->0.bytes == bytes && start + speed->0.nanos == end->0,
{
}

/// The speeds in the report are those of the two stages: that of writing over the whole device,
/// that of reading over what was read, from when reading started.
pub proof fn law_each_stage_has_its_speed(
    state: UiDeviceState,
    write: Option<SpeedSample>,
    read: Option<SpeedSample>,
    over_write: Option<SpeedSample>,
    over_read: Option<SpeedSample>,
)
    requires
        call_ensures(UiDeviceState::write_speed, (&state,), write),
        call_ensures(UiDeviceState::read_speed, (&state,), read),
        call_ensures(
            average_speed,
            (state.total_bytes, state.write_start, state.write_end),
            over_write,
        ),
        call_ensures(
            average_speed,
            (
                state.read_bytes,
                if state.read_start is Some {
                    state.read_start->0
                } else {
                    state.write_start
                },
                state.read_end,
            ),
            over_read,
        ),
    ensures
        write == over_write,
        read == over_read,
{
}

} // verus!
