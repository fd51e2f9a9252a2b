//! The sensor task as a state machine.
//!
//! The task initializes the sensor (a failure only degrades it), waits for
//! the configuration to settle, and then loops: take a sample, send the
//! reading, wait until the next multiple of the sampling period. A failed
//! read never stalls the loop: the reading then carries a synthetic sample.
//! The caller performs each action and reports its outcome as the next event.
use vstd::prelude::*;

use crate::clock::next_rounded_wakeup_spec;
use crate::clock::duration_to_next_rounded_wakeup;
use crate::clock::Error as ClockError;
use crate::clock::WallTime;
use crate::sample::cycle_sample;
use crate::sample::sample_or_fallback;
use crate::sample::within_fallback_ranges;
use crate::sample::Provenance;
use crate::sample::RawSample;
use crate::sample::Reading;

verus! {

/// Milliseconds to wait for the sensor's configuration to settle
pub const WARMUP_MILLIS: u64 = 10;

/// Longest sampling period in seconds: one whose length in milliseconds
/// still fits in a `u64`
pub const MAX_SAMPLING_PERIOD: u64 = 18_446_744_073_709_551;

/// Where the sensor task stands
#[derive(Copy, Clone, Debug, PartialEq, Eq, Structural)]
pub enum SensorState {
    /// Not started
    Idle,
    /// Initializing and configuring the sensor
    Initializing,
    /// Waiting for the configuration to settle
    WarmingUp,
    /// Reading the sensor and the clock
    Sampling,
    /// Handing a reading to the display task
    Sending,
    /// Waiting for the next sampling boundary
    Waiting,
}

/// What happened since the last action
#[derive(Copy, Clone, Debug)]
pub enum SensorEvent {
    /// The task was started
    Started,
    /// Sensor initialization finished, successfully or not
    Initialized(bool),
    /// A pause is over
    Elapsed,
    /// The sensor and the clock were read: the wall time or the clock's
    /// error, the current Unix time, the sensor's report (none when the bus
    /// failed), and three random seeds for a synthetic sample
    SampleTaken(Result<WallTime, ClockError>, u64, Option<RawSample>, (u32, u32, u32)),
    /// The reading was accepted by the channel; the current Unix time
    Sent(u64),
}

/// What to do next
#[derive(Copy, Clone, Debug, PartialEq, Eq, Structural)]
pub enum SensorAction {
    /// Initialize and configure the sensor
    InitializeSensor,
    /// Pause for a number of milliseconds
    Pause(u64),
    /// Read the sensor and the clock
    ReadSensor,
    /// Send a reading, waiting while the channel is full
    Send(Reading),
    /// Nothing: the event does not belong to the current state
    Nothing,
}

/// Milliseconds from Unix time `epoch` to the next multiple of `period`
/// seconds, or one period when that boundary does not fit in a `u64`
pub open spec fn wait_millis(epoch: u64, period: u64) -> int {
    if epoch + period <= u64::MAX {
        (next_rounded_wakeup_spec(epoch as nat, period as nat) - epoch) * 1000
    } else {
        period * 1000
    }
}

/// The next state and action of a task with sampling period `period` in
/// state `state` on `event`
pub open spec fn sensor_step(state: SensorState, period: u64, event: SensorEvent) -> (
    SensorState,
    SensorAction,
) {
    match (state, event) {
        (SensorState::Idle, SensorEvent::Started) => (
            SensorState::Initializing,
            SensorAction::InitializeSensor,
        ),
        (SensorState::Initializing, SensorEvent::Initialized(_)) => (
            SensorState::WarmingUp,
            SensorAction::Pause(WARMUP_MILLIS),
        ),
        (SensorState::WarmingUp, SensorEvent::Elapsed) => (
            SensorState::Sampling,
            SensorAction::ReadSensor,
        ),
        (SensorState::Sampling, SensorEvent::SampleTaken(now, epoch, read, seeds)) => match now {
            Ok(t) => {
                let (sample, provenance) = cycle_sample::<()>(read.ok_or(()), seeds);
                (
                    SensorState::Sending,
                    SensorAction::Send(Reading { timestamp: t, sample, provenance }),
                )
            },
            Err(_) => (SensorState::Waiting, SensorAction::Pause(wait_millis(epoch, period) as u64)),
        },
        (SensorState::Sending, SensorEvent::Sent(epoch)) => (
            SensorState::Waiting,
            SensorAction::Pause(wait_millis(epoch, period) as u64),
        ),
        (SensorState::Waiting, SensorEvent::Elapsed) => (
            SensorState::Sampling,
            SensorAction::ReadSensor,
        ),
        _ => (state, SensorAction::Nothing),
    }
}

/// The sensor task
#[derive(Copy, Clone, Debug)]
pub struct SensorTask {
    state: SensorState,
    period: u64,
}

/// Milliseconds from Unix time `epoch` to the next multiple of `period`
/// seconds
fn wait_after(epoch: u64, period: u64) -> (r: u64)
    requires
        0 < period <= MAX_SAMPLING_PERIOD,
    ensures
        r == wait_millis(epoch, period),
{
    if epoch > u64::MAX - period {
        period * 1000
    } else {
        duration_to_next_rounded_wakeup(epoch, period) * 1000
    }
}

impl SensorTask {
    /// Where the task stands
    pub closed spec fn state_spec(&self) -> SensorState {
        self.state
    }

    /// Sampling period in seconds
    pub closed spec fn period_spec(&self) -> u64 {
        self.period
    }

    /// The sampling period is positive and fits in a `u64` in milliseconds
    pub closed spec fn wf(&self) -> bool {
        0 < self.period <= MAX_SAMPLING_PERIOD
    }

    /// A task that samples every `period` seconds, not started yet
    pub fn new(period: u64) -> (r: SensorTask)
        requires
            0 < period <= MAX_SAMPLING_PERIOD,
        ensures
            r.wf(),
            r.state_spec() == SensorState::Idle,
            r.period_spec() == period,
    {
        SensorTask { state: SensorState::Idle, period }
    }

    /// Where the task stands
    pub fn state(&self) -> (r: SensorState)
        ensures
            r == self.state_spec(),
    {
        self.state
    }

    /// Take an event and return the next action
    pub fn step(&mut self, event: SensorEvent) -> (r: SensorAction)
        requires
            old(self).wf(),
        ensures
            final(self).wf(),
            final(self).period_spec() == old(self).period_spec(),
            (final(self).state_spec(), r) == sensor_step(
                old(self).state_spec(),
                old(self).period_spec(),
                event,
            ),
    {
        let (next, action) = match (self.state, event) {
            (SensorState::Idle, SensorEvent::Started) => (
                SensorState::Initializing,
                SensorAction::InitializeSensor,
            ),
            (SensorState::Initializing, SensorEvent::Initialized(_)) => (
                SensorState::WarmingUp,
                SensorAction::Pause(WARMUP_MILLIS),
            ),
            (SensorState::WarmingUp, SensorEvent::Elapsed) => (
                SensorState::Sampling,
                SensorAction::ReadSensor,
            ),
            (SensorState::Sampling, SensorEvent::SampleTaken(now, epoch, read, seeds)) => match now {
                Ok(t) => (
                    SensorState::Sending,
                    SensorAction::Send(sample_or_fallback(t, read.ok_or(()), seeds)),
                ),
                Err(_) => (SensorState::Waiting, SensorAction::Pause(wait_after(epoch, self.period))),
            },
            (SensorState::Sending, SensorEvent::Sent(epoch)) => (
                SensorState::Waiting,
                SensorAction::Pause(wait_after(epoch, self.period)),
            ),
            (SensorState::Waiting, SensorEvent::Elapsed) => (
                SensorState::Sampling,
                SensorAction::ReadSensor,
            ),
            _ => (self.state, SensorAction::Nothing),
        };
        self.state = next;
        action
    }
}

/// With a sensor that always fails, every sampling cycle still yields one
/// reading, marked synthetic and within the fallback ranges, and the task
/// then waits at most one period and samples again: it never stalls.
pub proof fn lemma_sensor_fallback(
    period: u64,
    now: WallTime,
    epoch: u64,
    seeds: (u32, u32, u32),
    sent_at: u64,
)
    requires
        0 < period <= MAX_SAMPLING_PERIOD,
    ensures
        ({
            let (s1, a1) = sensor_step(
                SensorState::Sampling,
                period,
                SensorEvent::SampleTaken(Ok(now), epoch, None, seeds),
            );
            let (s2, a2) = sensor_step(s1, period, SensorEvent::Sent(sent_at));
            let (s3, a3) = sensor_step(s2, period, SensorEvent::Elapsed);
            &&& s1 == SensorState::Sending
            &&& a1 matches SensorAction::Send(r) && r.timestamp == now && r.provenance
                == Provenance::Synthetic && within_fallback_ranges(r.sample)
            &&& s2 == SensorState::Waiting
            &&& a2 matches SensorAction::Pause(ms) && 0 < ms <= period * 1000
            &&& s3 == SensorState::Sampling
            &&& a3 == SensorAction::ReadSensor
        }),
{
    crate::sample::lemma_synthetic_within_ranges(seeds.0, seeds.1, seeds.2);
    if sent_at + period <= u64::MAX {
        crate::clock::lemma_next_rounded_wakeup(sent_at as nat, period as nat);
    }
}

} // verus!
