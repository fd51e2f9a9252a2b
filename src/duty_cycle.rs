//! The duty cycle: restore retained state, establish the clock, run the
//! sensor and display tasks for a fixed awake window, persist the clock and
//! sleep for a fixed duration.
//!
//! Retained memory survives deep sleep and is zero on the very first boot.
//! It is owned by one value, handed to the cycle at boot, and written once
//! before sleeping.
use vstd::prelude::*;

use crate::clock::Clock;
use crate::clock::Error as ClockError;
use crate::clock::valid_utc_offset;
use crate::clock::RetainedClock;
use crate::clock::WallTime;
use crate::history::History;

verus! {

/// Seconds between two samples
pub const SAMPLING_PERIOD: u64 = 60;

/// Seconds of deep sleep
pub const DEEP_SLEEP_DURATION: u64 = 300;

/// Seconds to stay awake before sleeping
pub const AWAKE_PERIOD: u64 = 300;

/// What survives deep sleep
pub struct RetainedState {
    /// Number of boots so far
    pub boot_count: u32,
    /// The clock of the next session
    pub clock: RetainedClock,
    /// The most recent readings
    pub history: History,
}

impl RetainedState {
    /// Retained memory as it is on the very first boot: all zero
    pub fn new() -> (r: RetainedState)
        ensures
            r.boot_count == 0,
            r.clock == (RetainedClock { epoch: 0, offset_seconds: 0 }),
            r.history.view() == Seq::<crate::sample::Reading>::empty(),
            r.history.wf(),
    {
        RetainedState {
            boot_count: 0,
            clock: RetainedClock { epoch: 0, offset_seconds: 0 },
            history: History::new(),
        }
    }

    /// Whether no clock was ever persisted
    pub fn is_cold_boot(&self) -> (r: bool)
        ensures
            r == (self.clock.epoch == 0),
    {
        self.clock.epoch == 0
    }

    /// Count a boot, wrapping around after the largest `u32`; returns the
    /// count before this boot
    pub fn record_boot(&mut self) -> (r: u32)
        ensures
            r == old(self).boot_count,
            final(self).boot_count == (if old(self).boot_count == u32::MAX {
                0
            } else {
                old(self).boot_count + 1
            }),
            final(self).clock == old(self).clock,
            final(self).history == old(self).history,
    {
        let before = self.boot_count;
        self.boot_count = self.boot_count.wrapping_add(1);
        before
    }
}

/// Where the duty cycle stands
#[derive(Copy, Clone, Debug)]
pub enum CycleState {
    /// Retained memory not read yet
    Booting,
    /// Waiting for the time source
    Synchronizing,
    /// The tasks run with this clock
    Awake(Clock),
    /// Sleep was requested
    Asleep,
    /// Boot was aborted
    Failed,
}

/// What happened since the last action
#[derive(Copy, Clone, Debug)]
pub enum CycleEvent {
    /// Retained memory was read: the stored clock
    Restored(RetainedClock),
    /// The time source answered: the time or its error, and the uptime
    Synchronized(Result<WallTime, ClockError>, u64),
    /// The awake window is over: the uptime
    AwakeWindowOver(u64),
}

/// What to do next
#[derive(Copy, Clone, Debug)]
pub enum CycleAction {
    /// Connect to the network, fetch the current time, then disconnect
    Synchronize,
    /// Start the sensor and display tasks with the clock and the sampling
    /// period, and stay awake for the awake period
    Run(Clock, u64, u64),
    /// Write the clock to retained memory and sleep for a duration
    Sleep(RetainedClock, u64),
    /// Give up booting
    Abort(ClockError),
    /// Nothing: the event does not belong to the current state
    Nothing,
}

/// Whether a state takes an event
pub open spec fn handled(state: CycleState, event: CycleEvent) -> bool {
    ||| (state, event) matches (CycleState::Booting, CycleEvent::Restored(_))
    ||| (state, event) matches (CycleState::Synchronizing, CycleEvent::Synchronized(_, _))
    ||| (state, event) matches (CycleState::Awake(_), CycleEvent::AwakeWindowOver(_))
}

/// Running with a clock whose session started at Unix time `boot_time`,
/// with offset `offset`
pub open spec fn running(state: CycleState, action: CycleAction, boot_time: int, offset: int) -> bool {
    &&& state matches CycleState::Awake(c)
    &&& action == CycleAction::Run(c, SAMPLING_PERIOD, AWAKE_PERIOD)
    &&& c.wf()
    &&& c.offset_spec() == offset
    &&& c.boot_time_spec() == boot_time
}

/// After retained memory was read: run with the restored clock, whose
/// session started at the stored epoch, or synchronize on a cold boot or an
/// invalid stored offset
pub open spec fn restored_step(state: CycleState, action: CycleAction, stored: RetainedClock) -> bool {
    if stored.epoch != 0 && valid_utc_offset(stored.offset_seconds as int) {
        running(state, action, stored.epoch as int, stored.offset_seconds as int)
    } else {
        state is Synchronizing && action is Synchronize
    }
}

/// After the time source answered: run with the fetched time, or abort when
/// the source failed or its time cannot seed a clock
pub open spec fn synchronized_step(
    state: CycleState,
    action: CycleAction,
    fetched: Result<WallTime, ClockError>,
    uptime: u64,
) -> bool {
    match fetched {
        Err(_) => state is Failed && action == CycleAction::Abort(ClockError::Synchronization),
        Ok(t) => if t.unix_timestamp < 0 || !valid_utc_offset(t.offset_seconds as int) {
            state is Failed && action == CycleAction::Abort(ClockError::TimeComponentRange)
        } else {
            running(
                state,
                action,
                if uptime <= t.unix_timestamp {
                    t.unix_timestamp - uptime
                } else {
                    0
                },
                t.offset_seconds as int,
            )
        },
    }
}

/// At the end of the awake window: persist the clock shifted by the sleep
/// duration, and sleep
pub open spec fn sleep_step(state: CycleState, action: CycleAction, c: Clock, uptime: u64) -> bool {
    &&& state is Asleep
    &&& action == CycleAction::Sleep(c.saved_at(DEEP_SLEEP_DURATION, uptime as nat), DEEP_SLEEP_DURATION)
}

/// The duty cycle's decisions
pub struct DutyCycle {
    state: CycleState,
}

impl DutyCycle {
    /// Where the cycle stands
    pub closed spec fn state_spec(&self) -> CycleState {
        self.state
    }

    /// A cycle at boot
    pub fn new() -> (r: DutyCycle)
        ensures
            r.state_spec() is Booting,
    {
        DutyCycle { state: CycleState::Booting }
    }

    /// Where the cycle stands
    pub fn state(&self) -> (r: CycleState)
        ensures
            r == self.state_spec(),
    {
        self.state
    }

    /// Take an event and return the next action
    pub fn step(&mut self, event: CycleEvent) -> (r: CycleAction)
        ensures
            (old(self).state_spec(), event) matches (CycleState::Booting, CycleEvent::Restored(stored))
                ==> restored_step(final(self).state_spec(), r, stored),
            (old(self).state_spec(), event) matches (
                CycleState::Synchronizing,
                CycleEvent::Synchronized(fetched, uptime),
            ) ==> synchronized_step(final(self).state_spec(), r, fetched, uptime),
            (old(self).state_spec(), event) matches (CycleState::Awake(c), CycleEvent::AwakeWindowOver(uptime))
                ==> sleep_step(final(self).state_spec(), r, c, uptime),
            !handled(old(self).state_spec(), event) ==> r is Nothing && final(self).state_spec()
                == old(self).state_spec(),
    {
        match (self.state, event) {
            (CycleState::Booting, CycleEvent::Restored(stored)) => {
                match Clock::from_rtc_memory(stored) {
                    Some(clock) => {
                        self.state = CycleState::Awake(clock);
                        CycleAction::Run(clock, SAMPLING_PERIOD, AWAKE_PERIOD)
                    },
                    None => {
                        self.state = CycleState::Synchronizing;
                        CycleAction::Synchronize
                    },
                }
            },
            (CycleState::Synchronizing, CycleEvent::Synchronized(fetched, uptime)) => {
                let result = match fetched {
                    Ok(current) => Clock::from_server_at(current, uptime),
                    Err(_) => Err(ClockError::Synchronization),
                };
                match result {
                    Ok(clock) => {
                        self.state = CycleState::Awake(clock);
                        CycleAction::Run(clock, SAMPLING_PERIOD, AWAKE_PERIOD)
                    },
                    Err(e) => {
                        self.state = CycleState::Failed;
                        CycleAction::Abort(e)
                    },
                }
            },
            (CycleState::Awake(clock), CycleEvent::AwakeWindowOver(uptime)) => {
                let stored = clock.save_to_rtc_memory_at(DEEP_SLEEP_DURATION, uptime);
                self.state = CycleState::Asleep;
                CycleAction::Sleep(stored, DEEP_SLEEP_DURATION)
            },
            _ => CycleAction::Nothing,
        }
    }
}

} // verus!
