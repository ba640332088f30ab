//! Points in time and distances between them, counted in nanoseconds.

use vstd::prelude::*;

verus! {

/// Nanoseconds in one second.
pub const NANOS_PER_SECOND: u64 = 1_000_000_000;

/// A point on the wall clock: nanoseconds since the Unix epoch, negative before it.
#[derive(Clone, Copy, Debug, PartialEq, Eq, Structural)]
pub struct WallTime {
    pub nanos: i128,
}

impl WallTime {
    /// The start of the wall clock.
    pub open spec fn epoch_spec() -> Self {
        WallTime { nanos: 0 }
    }

    /// The start of the wall clock.
    pub fn epoch() -> (time: Self)
        ensures
            time == Self::epoch_spec(),
    {
        WallTime { nanos: 0 }
    }
}

/// A timestamp as it travels inside messages: signed nanoseconds since the Unix epoch.
#[derive(Clone, Copy, Debug, PartialEq, Eq, Structural)]
pub struct Time {
    pub nanos: i64,
}

impl Time {
    /// The timestamp `nanos` nanoseconds after the epoch.
    pub fn from_nanos(nanos: i64) -> (time: Self)
        ensures
            time.nanos == nanos,
    {
        Time { nanos }
    }

    /// Nanoseconds since the epoch.
    pub fn as_nanos(self) -> (nanos: i64)
        ensures
            nanos == self.nanos,
    {
        self.nanos
    }

    /// The same instant on the wall clock.
    pub open spec fn wallclock(self) -> WallTime {
        WallTime { nanos: self.nanos as i128 }
    }

    /// The same instant on the wall clock.
    pub fn to_wallclock(self) -> (time: WallTime)
        ensures
            time == self.wallclock(),
    {
        WallTime { nanos: self.nanos as i128 }
    }

    /// The instant `time` as a timestamp.
    pub open spec fn timestamp(time: WallTime) -> Self {
        Time { nanos: time.nanos as i64 }
    }

    /// The instant `time` as a timestamp.
    pub fn from_wallclock(time: WallTime) -> (result: Self)
        requires
            i64::MIN <= time.nanos <= i64::MAX,
        ensures
            result == Self::timestamp(time),
            result.nanos == time.nanos,
    {
        Time { nanos: time.nanos as i64 }
    }
}

/// A timestamp comes back from the wall clock as it was, and so does an instant that a timestamp
/// can hold.
pub proof fn timestamps_survive_the_wall_clock(time: Time, instant: WallTime)
    requires
        i64::MIN <= instant.nanos <= i64::MAX,
    ensures
        Time::timestamp(time.wallclock()) == time,
        Time::timestamp(instant).wallclock() == instant,
{
}

/// Nanoseconds from the epoch to `time`, with instants before the epoch counted as the epoch.
pub open spec fn nanos_since_epoch_spec(time: WallTime) -> nat {
    if time.nanos >= 0 {
        time.nanos as nat
    } else {
        0
    }
}

/// The absolute difference of two numbers.
pub open spec fn abs_diff(a: int, b: int) -> nat {
    if a >= b {
        (a - b) as nat
    } else {
        (b - a) as nat
    }
}

/// The wall-clock instant `nanos` nanoseconds after the epoch.
pub fn system_time_from_nanos(nanos: u64) -> (time: WallTime)
    ensures
        time.nanos == nanos,
{
    WallTime { nanos: nanos as i128 }
}

/// Nanoseconds from the epoch to `time`; zero for instants before the epoch.
pub fn nanos_since_epoch(time: WallTime) -> (nanos: u128)
    ensures
        nanos == nanos_since_epoch_spec(time),
{
    if time.nanos >= 0 {
        time.nanos as u128
    } else {
        0
    }
}

/// Nanoseconds between `a` and `b`, with instants before the epoch counted as the epoch.
pub fn nanos_abs_diff(a: WallTime, b: WallTime) -> (nanos: u128)
    ensures
        nanos == abs_diff(nanos_since_epoch_spec(a) as int, nanos_since_epoch_spec(b) as int),
{
    let a: u128 = nanos_since_epoch(a);
    let b: u128 = nanos_since_epoch(b);
    if a >= b {
        a - b
    } else {
        b - a
    }
}

/// Nanoseconds between `a` and `b`.
pub fn abs_duration(a: WallTime, b: WallTime) -> (nanos: u128)
    ensures
        nanos == abs_diff(a.nanos as int, b.nanos as int),
{
    let low: i128 = if a.nanos <= b.nanos { a.nanos } else { b.nanos };
    let high: i128 = if a.nanos <= b.nanos { b.nanos } else { a.nanos };
    if low >= 0 || high < 0 {
        (high - low) as u128
    } else {
        high as u128 + (-(low + 1)) as u128 + 1
    }
}

/// Whether an instant lies within what timestamps and recording times can express.
pub open spec fn is_recorded_time(time: WallTime) -> bool {
    i64::MIN <= time.nanos <= u64::MAX
}

/// Nanoseconds from `start` to `time`, negative where `time` comes first.
pub fn nanos_since(time: WallTime, start: WallTime) -> (nanos: i128)
    requires
        i128::MIN <= time.nanos - start.nanos <= i128::MAX,
    ensures
        nanos == time.nanos - start.nanos,
{
    time.nanos - start.nanos
}

/// Nanoseconds between two timestamps.
pub fn time_abs_diff(a: Time, b: Time) -> (nanos: u64)
    ensures
        nanos == abs_diff(a.nanos as int, b.nanos as int),
{
    let difference: i128 = a.nanos as i128 - b.nanos as i128;
    if difference >= 0 {
        difference as u64
    } else {
        (-difference) as u64
    }
}

/// A timestamp and the instant that it stands for count the same nanoseconds. Two numbers are as far
/// apart as the smaller one falls short of the larger one. Instants before the epoch count as the
/// epoch.
pub proof fn instants_count_nanoseconds(time: Time, instant: WallTime, a: int, b: int)
    ensures
        time.wallclock().nanos == time.nanos,
        WallTime::epoch_spec().nanos == 0,
        a <= b ==> a + abs_diff(a, b) == b,
        a >= b ==> b + abs_diff(a, b) == a,
        instant.nanos >= 0 ==> nanos_since_epoch_spec(instant) == instant.nanos,
        instant.nanos < 0 ==> nanos_since_epoch_spec(instant) == 0,
        is_recorded_time(instant) <==> -0x8000_0000_0000_0000 <= instant.nanos
            <= 0xffff_ffff_ffff_ffff,
{
}

} // verus!
