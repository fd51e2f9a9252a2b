//! A wall clock that survives deep sleep.
//!
//! The clock keeps the Unix time at which the current power-on session
//! started; the wall time is that plus the uptime. Before sleeping, the boot
//! time of the next session is stored in retained memory, shifted forward by
//! the expected sleep duration, so that the next session's uptime of zero
//! already lands on the right wall time. On waking, the stored epoch becomes
//! the restored clock's boot time as it is.
use vstd::prelude::*;

use time::OffsetDateTime;
use time::UtcOffset;

verus! {

#[verifier::external_type_specification]
#[verifier::external_body]
pub struct ExOffsetDateTime(OffsetDateTime);

#[verifier::external_type_specification]
#[verifier::external_body]
pub struct ExUtcOffset(UtcOffset);

/// Earliest Unix timestamp that the calendar can represent (-9999-01-01 00:00:00 UTC)
pub const UNIX_TIMESTAMP_MIN: i64 = -377_705_116_800;

/// Latest Unix timestamp that the calendar can represent (9999-12-31 23:59:59 UTC)
pub const UNIX_TIMESTAMP_MAX: i64 = 253_402_300_799;

/// Largest magnitude of a UTC offset in seconds (25:59:59)
pub const UTC_OFFSET_MAX_SECONDS: i32 = 93_599;

/// Whether a Unix timestamp lies within the representable calendar
pub open spec fn representable_timestamp(t: int) -> bool {
    UNIX_TIMESTAMP_MIN <= t <= UNIX_TIMESTAMP_MAX
}

/// Whether a number of seconds is a valid UTC offset
pub open spec fn valid_utc_offset(seconds: int) -> bool {
    -UTC_OFFSET_MAX_SECONDS <= seconds <= UTC_OFFSET_MAX_SECONDS
}

/// Relies on `time::UtcOffset::from_whole_seconds`, which accepts exactly the
/// offsets within ±25:59:59.
#[verifier::external_body]
pub(crate) fn utc_offset_from_seconds(seconds: i32) -> (r: Option<UtcOffset>)
    ensures
        r is Some <==> valid_utc_offset(seconds as int),
{
    UtcOffset::from_whole_seconds(seconds).ok()
}

/// Relies on `time::OffsetDateTime::from_unix_timestamp`, which accepts
/// exactly the timestamps from the start of year -9999 to the end of year
/// 9999.
#[verifier::external_body]
pub(crate) fn utc_from_unix_timestamp(timestamp: i64) -> (r: Option<OffsetDateTime>)
    ensures
        r is Some <==> representable_timestamp(timestamp as int),
{
    OffsetDateTime::from_unix_timestamp(timestamp).ok()
}

/// Relies on `time::OffsetDateTime::checked_to_offset`, which returns
/// `None` exactly when the instant's local date in the offset leaves the
/// years -9999 to 9999, that is when the timestamp shifted by the offset is
/// no longer representable. The instant and the offset are built with
/// `OffsetDateTime::from_unix_timestamp` and `UtcOffset::from_whole_seconds`,
/// which accept every argument that `requires` admits.
#[verifier::external_body]
pub(crate) fn fits_in_offset(timestamp: i64, offset_seconds: i32) -> (r: bool)
    requires
        representable_timestamp(timestamp as int),
        valid_utc_offset(offset_seconds as int),
    ensures
        r == representable_timestamp(timestamp + offset_seconds),
{
    match (OffsetDateTime::from_unix_timestamp(timestamp), UtcOffset::from_whole_seconds(offset_seconds)) {
        (Ok(utc), Ok(offset)) => utc.checked_to_offset(offset).is_some(),
        _ => false,
    }
}

/// Relies on `embassy_time::Instant::now`: whole seconds since power-on.
#[verifier::external_body]
fn uptime_seconds() -> (r: u64) {
    embassy_time::Instant::now().as_secs()
}

/// A wall time: an instant as a Unix timestamp, and the UTC offset in which
/// it is shown
#[derive(Copy, Clone, Debug, PartialEq, Eq, Structural)]
pub struct WallTime {
    /// Seconds since the Unix epoch
    pub unix_timestamp: i64,
    /// Offset from UTC in seconds
    pub offset_seconds: i32,
}

/// The clock state kept in retained memory between sessions
#[derive(Copy, Clone, Debug, PartialEq, Eq, Structural)]
pub struct RetainedClock {
    /// Unix time of the start of the next session; zero on a cold boot
    pub epoch: u64,
    /// Offset from UTC in seconds
    pub offset_seconds: i32,
}

/// A clock error
#[derive(Copy, Clone, Debug, PartialEq, Eq, Structural)]
pub enum Error {
    /// A time component is out of range
    TimeComponentRange,
    /// The time is invalid in the clock's offset
    InvalidInOffset,
    /// The time could not be obtained from the time source
    Synchronization,
}

/// A clock
#[derive(Copy, Clone, Debug)]
pub struct Clock {
    /// The Unix time at the start of the current session
    boot_time: u64,
    /// Offset from UTC in seconds
    offset: i32,
}

/// Whether a number of seconds is a valid UTC offset
pub fn is_valid_utc_offset(seconds: i32) -> (r: bool)
    ensures
        r == valid_utc_offset(seconds as int),
{
    utc_offset_from_seconds(seconds).is_some()
}

impl Clock {
    /// The Unix time at the start of the current session
    pub closed spec fn boot_time_spec(&self) -> nat {
        self.boot_time as nat
    }

    /// Offset from UTC in seconds
    pub closed spec fn offset_spec(&self) -> int {
        self.offset as int
    }

    /// A clock's offset is always a valid UTC offset
    pub closed spec fn wf(&self) -> bool {
        valid_utc_offset(self.offset as int)
    }

    /// Wall time, as a Unix timestamp, after `uptime` seconds of this session
    pub open spec fn epoch_at(&self, uptime: nat) -> nat {
        if self.boot_time_spec() + uptime <= u64::MAX {
            self.boot_time_spec() + uptime
        } else {
            u64::MAX as nat
        }
    }

    /// The Unix time at the start of the current session
    pub fn boot_time(&self) -> (r: u64)
        ensures
            r == self.boot_time_spec(),
    {
        self.boot_time
    }

    /// Offset from UTC in seconds
    pub fn offset(&self) -> (r: i32)
        ensures
            r == self.offset_spec(),
    {
        self.offset
    }

    /// Create a clock that reads `current_time` after `uptime` seconds of this
    /// session
    pub fn new_at(current_time: u64, offset: i32, uptime: u64) -> (r: Clock)
        requires
            valid_utc_offset(offset as int),
        ensures
            r.wf(),
            r.offset_spec() == offset,
            r.boot_time_spec() == (if uptime <= current_time {
                current_time - uptime
            } else {
                0
            }),
    {
        Clock { boot_time: current_time.saturating_sub(uptime), offset }
    }

    /// Create a clock that reads `current_time` now
    pub fn new(current_time: u64, offset: i32) -> (r: Clock)
        requires
            valid_utc_offset(offset as int),
        ensures
            r.wf(),
            r.offset_spec() == offset,
            r.boot_time_spec() <= current_time,
    {
        Self::new_at(current_time, offset, uptime_seconds())
    }

    /// Create a clock from a time obtained from a time source, after
    /// `uptime` seconds of this session
    pub fn from_server_at(current: WallTime, uptime: u64) -> (r: Result<Clock, Error>)
        ensures
            current.unix_timestamp < 0 || !valid_utc_offset(current.offset_seconds as int) <==> r
                == Err::<Clock, Error>(Error::TimeComponentRange),
            r matches Err(e) ==> e == Error::TimeComponentRange,
            r matches Ok(c) ==> c.wf() && c.offset_spec() == current.offset_seconds && c.boot_time_spec()
                == (if uptime <= current.unix_timestamp {
                current.unix_timestamp - uptime
            } else {
                0
            }),
    {
        if current.unix_timestamp < 0 || !is_valid_utc_offset(current.offset_seconds) {
            Err(Error::TimeComponentRange)
        } else {
            Ok(Self::new_at(current.unix_timestamp as u64, current.offset_seconds, uptime))
        }
    }

    /// Create a clock from a time obtained from a time source; a failure of
    /// the source aborts with a synchronization error
    pub fn from_server(fetched: Result<WallTime, Error>) -> (r: Result<Clock, Error>)
        ensures
            fetched is Err ==> r == Err::<Clock, Error>(Error::Synchronization),
            fetched matches Ok(t) ==> (t.unix_timestamp < 0 || !valid_utc_offset(t.offset_seconds as int)
                <==> r == Err::<Clock, Error>(Error::TimeComponentRange)),
            fetched matches Ok(t) ==> (r matches Ok(c) ==> c.wf() && c.offset_spec() == t.offset_seconds
                && c.boot_time_spec() <= t.unix_timestamp),
    {
        match fetched {
            Ok(current) => Self::from_server_at(current, uptime_seconds()),
            Err(_) => Err(Error::Synchronization),
        }
    }

    /// Restore the clock of this session from retained memory: the stored
    /// epoch is this session's boot time; nothing on a cold boot, when the
    /// stored epoch is zero, or when the stored offset is invalid
    pub fn from_rtc_memory(stored: RetainedClock) -> (r: Option<Clock>)
        ensures
            r is Some <==> stored.epoch != 0 && valid_utc_offset(stored.offset_seconds as int),
            r matches Some(c) ==> c.wf() && c.offset_spec() == stored.offset_seconds
                && c.boot_time_spec() == stored.epoch,
    {
        if stored.epoch == 0 || !is_valid_utc_offset(stored.offset_seconds) {
            None
        } else {
            Some(Clock { boot_time: stored.epoch, offset: stored.offset_seconds })
        }
    }

    /// Wall time as a Unix timestamp after `uptime` seconds of this session;
    /// saturates at the largest `u64`
    pub fn now_as_epoch_at(&self, uptime: u64) -> (r: u64)
        ensures
            r == self.epoch_at(uptime as nat),
    {
        self.boot_time.saturating_add(uptime)
    }

    /// Wall time now, as a Unix timestamp
    pub fn now_as_epoch(&self) -> (r: u64)
        ensures
            exists|u: u64| r == #[trigger] self.epoch_at(u as nat),
            r >= self.boot_time_spec(),
    {
        let u = uptime_seconds();
        self.now_as_epoch_at(u)
    }

    /// What `now` returns after `uptime` seconds of this session: an error
    /// when the instant lies beyond the calendar, or when its local date in
    /// the clock's offset does
    pub open spec fn now_result(&self, uptime: nat) -> Result<WallTime, Error> {
        let e = self.epoch_at(uptime) as int;
        if !representable_timestamp(e) {
            Err(Error::TimeComponentRange)
        } else if !representable_timestamp(e + self.offset_spec()) {
            Err(Error::InvalidInOffset)
        } else {
            Ok(WallTime { unix_timestamp: e as i64, offset_seconds: self.offset_spec() as i32 })
        }
    }

    /// Wall time after `uptime` seconds of this session, in the clock's offset
    pub fn now_at(&self, uptime: u64) -> (r: Result<WallTime, Error>)
        requires
            self.wf(),
        ensures
            r == self.now_result(uptime as nat),
    {
        let epoch = self.now_as_epoch_at(uptime);
        if epoch > i64::MAX as u64 {
            return Err(Error::TimeComponentRange);
        }
        let timestamp = epoch as i64;
        if utc_from_unix_timestamp(timestamp).is_none() {
            Err(Error::TimeComponentRange)
        } else if fits_in_offset(timestamp, self.offset) {
            Ok(WallTime { unix_timestamp: timestamp, offset_seconds: self.offset })
        } else {
            Err(Error::InvalidInOffset)
        }
    }

    /// Wall time now, in the clock's offset
    pub fn now(&self) -> (r: Result<WallTime, Error>)
        requires
            self.wf(),
        ensures
            exists|u: u64| r == #[trigger] self.now_result(u as nat),
            r matches Ok(t) ==> t.offset_seconds == self.offset_spec() && t.unix_timestamp
                >= self.boot_time_spec(),
    {
        let u = uptime_seconds();
        self.now_at(u)
    }

    /// The wall time and the Unix time now, from one reading of the uptime
    pub fn reading_time(&self) -> (r: (Result<WallTime, Error>, u64))
        requires
            self.wf(),
        ensures
            exists|u: u64| r.0 == #[trigger] self.now_result(u as nat) && r.1 == self.epoch_at(u as nat),
    {
        let u = uptime_seconds();
        (self.now_at(u), self.now_as_epoch_at(u))
    }

    /// The retained state for the next session if this one persists after
    /// `uptime` seconds: the wall time then, shifted by the expected sleep
    /// duration, saturating at the largest `u64`
    pub open spec fn saved_at(&self, expected_sleep_seconds: u64, uptime: nat) -> RetainedClock {
        RetainedClock {
            epoch: (if self.epoch_at(uptime) + expected_sleep_seconds <= u64::MAX {
                self.epoch_at(uptime) + expected_sleep_seconds
            } else {
                u64::MAX as int
            }) as u64,
            offset_seconds: self.offset_spec() as i32,
        }
    }

    /// The retained state for the next session after `uptime` seconds of this
    /// one: the wall time then, shifted by the expected sleep duration
    pub fn save_to_rtc_memory_at(&self, expected_sleep_seconds: u64, uptime: u64) -> (r:
        RetainedClock)
        ensures
            r == self.saved_at(expected_sleep_seconds, uptime as nat),
    {
        let now = self.now_as_epoch_at(uptime);
        RetainedClock { epoch: now.saturating_add(expected_sleep_seconds), offset_seconds: self.offset }
    }

    /// The retained state for the next session: the wall time now, shifted by
    /// the expected sleep duration
    pub fn save_to_rtc_memory(&self, expected_sleep_seconds: u64) -> (r: RetainedClock)
        ensures
            exists|u: u64| r == #[trigger] self.saved_at(expected_sleep_seconds, u as nat),
            r.offset_seconds == self.offset_spec(),
            r.epoch >= self.boot_time_spec(),
    {
        let u = uptime_seconds();
        self.save_to_rtc_memory_at(expected_sleep_seconds, u)
    }

    /// Seconds from the wall time after `uptime` seconds of this session to
    /// the next multiple of `period` seconds since the Unix epoch; nothing
    /// when that instant does not fit in a `u64`
    pub open spec fn wakeup_in(&self, period: u64, uptime: nat) -> Option<u64> {
        let e = self.epoch_at(uptime);
        if e + period <= u64::MAX {
            Some((next_rounded_wakeup_spec(e, period as nat) - e) as u64)
        } else {
            None
        }
    }

    /// Seconds from the wall time after `uptime` seconds of this session to
    /// the next multiple of `period` seconds since the Unix epoch; `None`
    /// when that instant does not fit in a `u64`
    pub fn duration_to_next_rounded_wakeup_at(&self, period: u64, uptime: u64) -> (r: Option<u64>)
        requires
            period > 0,
        ensures
            r == self.wakeup_in(period, uptime as nat),
            r matches Some(d) ==> 0 < d <= period,
    {
        let epoch = self.now_as_epoch_at(uptime);
        if epoch > u64::MAX - period {
            None
        } else {
            Some(duration_to_next_rounded_wakeup(epoch, period))
        }
    }

    /// Seconds from now to the next multiple of `period` seconds since the
    /// Unix epoch; `None` when that instant does not fit in a `u64`
    pub fn duration_to_next_rounded_wakeup(&self, period: u64) -> (r: Option<u64>)
        requires
            period > 0,
        ensures
            exists|u: u64| r == #[trigger] self.wakeup_in(period, u as nat),
            r matches Some(d) ==> 0 < d <= period,
    {
        let u = uptime_seconds();
        self.duration_to_next_rounded_wakeup_at(period, u)
    }
}

/// The first multiple of `period` after `now`, computed as
/// `floor((now + period) / period) * period`
pub open spec fn next_rounded_wakeup_spec(now: nat, period: nat) -> nat {
    ((now + period) / period) * period
}

/// The next multiple of `period` seconds since the Unix epoch after `now`
///
/// * At 09:46:12 with a period of 1 minute, the next rounded wakeup is 09:47:00.
/// * At 09:46:12 with a period of 5 minutes, it is 09:50:00.
/// * At 09:46:12 with a period of 1 hour, it is 10:00:00.
pub fn next_rounded_wakeup(now: u64, period: u64) -> (r: u64)
    requires
        period > 0,
        now + period <= u64::MAX,
    ensures
        r == next_rounded_wakeup_spec(now as nat, period as nat),
{
    let then = now + period;
    proof {
        lemma_next_rounded_wakeup(now as nat, period as nat);
    }
    (then / period) * period
}

/// Seconds from `now` to the next multiple of `period` seconds since the
/// Unix epoch
pub fn duration_to_next_rounded_wakeup(now: u64, period: u64) -> (r: u64)
    requires
        period > 0,
        now + period <= u64::MAX,
    ensures
        r == next_rounded_wakeup_spec(now as nat, period as nat) - now,
        0 < r <= period,
{
    let then = next_rounded_wakeup(now, period);
    proof {
        lemma_next_rounded_wakeup(now as nat, period as nat);
    }
    then - now
}

/// The rounded wakeup after `now` is a multiple of `period`, lies after
/// `now` by at most one period, and is the smallest multiple of `period`
/// after `now`. Waking at it and asking again gives the following boundary,
/// one period later, never the same one.
pub proof fn lemma_next_rounded_wakeup(now: nat, period: nat)
    requires
        period > 0,
    ensures
        next_rounded_wakeup_spec(now, period) % period == 0,
        now < next_rounded_wakeup_spec(now, period) <= now + period,
        forall|k: nat|
            #![trigger k % period]
            k % period == 0 && now < k ==> next_rounded_wakeup_spec(now, period) <= k,
        next_rounded_wakeup_spec(next_rounded_wakeup_spec(now, period), period)
            == next_rounded_wakeup_spec(now, period) + period,
{
    let p = period as int;
    let t = (now + period) as int;
    let q = t / p;
    let r = q * p;
    vstd::arithmetic::div_mod::lemma_fundamental_div_mod(t, p);
    vstd::arithmetic::div_mod::lemma_mod_multiples_basic(q, p);
    assert(0 <= t % p < p) by {
        vstd::arithmetic::div_mod::lemma_mod_bound(t, p);
    }
    assert(q >= 0) by {
        vstd::arithmetic::div_mod::lemma_div_pos_is_pos(t, p);
    }
    assert(r >= 0) by (nonlinear_arith)
        requires
            q >= 0,
            p > 0,
            r == q * p,
    ;
    assert forall|k: nat| #![trigger k % period] k % period == 0 && now < k implies r <= k by {
        vstd::arithmetic::div_mod::lemma_fundamental_div_mod(k as int, p);
        let kq = k as int / p;
        assert(k == p * kq);
        assert(kq >= q) by (nonlinear_arith)
            requires
                k == p * kq,
                k > t - p,
                t == p * q + t % p,
                0 <= t % p < p,
                p > 0,
        ;
        assert(kq * p >= q * p) by (nonlinear_arith)
            requires
                kq >= q,
                p > 0,
        ;
    }
    // the boundary after r is r + p
    let t2 = r + p;
    assert(t2 == (q + 1) * p) by (nonlinear_arith)
        requires
            t2 == r + p,
            r == q * p,
    ;
    vstd::arithmetic::div_mod::lemma_div_multiples_vanish(q + 1, p);
    assert(t2 / p == q + 1);
    assert((r + period) as nat / period == (q + 1) as nat);
    assert(next_rounded_wakeup_spec(r as nat, period) == ((q + 1) * p) as nat);
}

/// A clock that persists its state before sleeping, and is restored after
/// waking, reads the wall time at which it was created plus the expected
/// sleep duration, plus the time it stayed awake before persisting, plus the
/// uptime of the new session, whenever in that session it is restored and
/// read. The persisted state is restorable: its epoch is not the zero that
/// marks a cold boot, and its offset is valid.
pub proof fn lemma_clock_continuity_across_sleep(
    wall_time: u64,
    offset: i32,
    sleep: u64,
    created_at: u64,
    persisted_at: u64,
    read_at: u64,
)
    requires
        valid_utc_offset(offset as int),
        created_at <= wall_time,
        created_at <= persisted_at,
        wall_time + sleep + (persisted_at - created_at) + read_at <= u64::MAX,
        wall_time + sleep + (persisted_at - created_at) > 0,
    ensures
        forall|a: Clock|
            a.boot_time_spec() == wall_time - created_at && a.offset_spec() == offset ==> {
                let stored = #[trigger] a.saved_at(sleep, persisted_at as nat);
                &&& stored.epoch == wall_time + sleep + (persisted_at - created_at)
                &&& stored.offset_seconds == offset
                &&& stored.epoch != 0 && valid_utc_offset(stored.offset_seconds as int)
            },
        forall|b: Clock|
            b.boot_time_spec() == wall_time + sleep + (persisted_at - created_at) ==> #[trigger] b.epoch_at(
                read_at as nat,
            ) == wall_time + sleep + (persisted_at - created_at) + read_at,
{
}

} // verus!
