//! The two clocks of the library: a monotonic one for delays, and the wall
//! clock for the journal. Nothing is promised of when they are read; every function
//! that depends on the time has a variant that takes the reading as an argument.

use std::time::{Duration, Instant, SystemTime, SystemTimeError};
use vstd::prelude::*;

verus! {

/// An instant of the monotonic clock, opaque.
#[verifier::external_type_specification]
#[verifier::external_body]
pub struct ExInstant(Instant);

/// A reading of the wall clock, opaque.
#[verifier::external_type_specification]
#[verifier::external_body]
pub struct ExSystemTime(SystemTime);

/// What the wall clock answers when asked for a time before its origin, opaque.
#[verifier::external_type_specification]
#[verifier::external_body]
pub struct ExSystemTimeError(SystemTimeError);

/// The nanoseconds that a duration holds, as `std::time::Duration::as_nanos` counts
/// them.
pub uninterp spec fn nanos_in(duration: Duration) -> nat;

/// The nanoseconds from one instant to a later one, as
/// `std::time::Instant::duration_since` measures them.
pub uninterp spec fn span(later: Instant, earlier: Instant) -> nat;

/// The nanoseconds from 1970-01-01 UTC to a wall clock reading, as
/// `std::time::SystemTime::duration_since` measures them; negative before that date.
pub uninterp spec fn unix_nanos(time: SystemTime) -> int;

/// `std::time::Instant::now` may return any instant.
pub assume_specification[ Instant::now ]() -> Instant;

/// `std::time::SystemTime::now` may return any time.
pub assume_specification[ SystemTime::now ]() -> SystemTime;

/// `std::time::Instant::duration_since`: the duration depends on the two instants
/// alone. How instants lie to each other is not said.
pub assume_specification[ Instant::duration_since ](later: &Instant, earlier: Instant) -> (r:
    Duration)
    ensures
        nanos_in(r) == span(*later, earlier),
;

/// `std::time::Duration::as_nanos`: all the nanoseconds of the duration.
pub assume_specification[ Duration::as_nanos ](duration: &Duration) -> (n: u128)
    ensures
        n == nanos_in(*duration),
;

/// `std::time::Duration::as_secs`: the whole seconds of the duration, without its
/// fractional part.
pub assume_specification[ Duration::as_secs ](duration: &Duration) -> (n: u64)
    ensures
        n == nanos_in(*duration) / 1_000_000_000,
;

/// `std::time::SystemTime::duration_since` on `std::time::UNIX_EPOCH`: the duration
/// from there to `time`, or an error for a time before it.
#[verifier::external_body]
fn since_epoch(time: &SystemTime) -> (r: Result<Duration, SystemTimeError>)
    ensures
        r is Ok <==> unix_nanos(*time) >= 0,
        r matches Ok(since) ==> nanos_in(since) == unix_nanos(*time),
{
    time.duration_since(std::time::UNIX_EPOCH)
}

/// The nanoseconds from one instant of the monotonic clock to a later one.
pub fn nanos_between(later: &Instant, earlier: &Instant) -> (n: u128)
    ensures
        n == span(*later, *earlier),
{
    later.duration_since(*earlier).as_nanos()
}

/// A monotonic clock that counts from `origin` shows `n` nanoseconds, at some
/// instant.
pub open spec fn clock_shows(origin: Instant, n: u128) -> bool {
    exists|now: Instant| n == #[trigger] span(now, origin)
}

/// The nanoseconds since `origin` on the monotonic clock.
pub fn nanos_since(origin: &Instant) -> (n: u128)
    ensures
        clock_shows(*origin, n),
{
    nanos_between(&Instant::now(), origin)
}

/// A number of readings after one more, held at the bound of its type.
pub open spec fn one_reading_more(n: u64) -> u64 {
    if n < u64::MAX {
        (n + 1) as u64
    } else {
        u64::MAX
    }
}

/// A monotonic clock that counts nanoseconds from an origin and never shows less
/// than it showed before. It knows how often it was read.
#[derive(Clone, Copy, Debug)]
pub struct RouteClock {
    origin: Instant,
    latest: Instant,
    readings: u64,
}

impl RouteClock {
    /// The instant from which the clock counts.
    pub closed spec fn spec_origin(&self) -> Instant {
        self.origin
    }

    /// What the clock showed when it was read last.
    pub closed spec fn last_reading(&self) -> nat {
        span(self.latest, self.origin)
    }

    /// How often the clock was read.
    pub closed spec fn readings(&self) -> u64 {
        self.readings
    }

    /// A clock that counts from `origin` and was never read.
    pub fn counting_from(origin: Instant) -> (r: RouteClock)
        ensures
            r.spec_origin() == origin,
            r.last_reading() == span(origin, origin),
            r.readings() == 0,
    {
        RouteClock { origin, latest: origin, readings: 0 }
    }

    /// The instant from which the clock counts.
    pub fn origin(&self) -> (r: Instant)
        ensures
            r == self.spec_origin(),
    {
        self.origin
    }

    /// The instant at which the clock was read last.
    pub fn latest(&self) -> (r: Instant)
        ensures
            span(r, self.spec_origin()) == self.last_reading(),
    {
        self.latest
    }

    /// What the clock shows now, without keeping it.
    pub fn peek(&self) -> (now: u128)
        ensures
            clock_shows(self.spec_origin(), now),
            now >= self.last_reading(),
    {
        let mut copy = *self;
        copy.read()
    }

    /// What the clock shows now. Nothing that it shows later is before that.
    pub fn read(&mut self) -> (now: u128)
        ensures
            clock_shows(old(self).spec_origin(), now),
            now >= old(self).last_reading(),
            final(self).last_reading() == now,
            final(self).readings() == one_reading_more(old(self).readings()),
            final(self).spec_origin() == old(self).spec_origin(),
    {
        let instant = Instant::now();
        let reading: u128 = nanos_between(&instant, &self.origin);
        let floor: u128 = nanos_between(&self.latest, &self.origin);
        self.readings = self.readings.saturating_add(1);
        if reading >= floor {
            self.latest = instant;
            reading
        } else {
            floor
        }
    }
}

/// The whole seconds from 1970-01-01 UTC to a wall clock reading; `None` for a
/// reading before that.
pub open spec fn unix_second(time: SystemTime) -> Option<int> {
    if unix_nanos(time) >= 0 {
        Some(unix_nanos(time) / 1_000_000_000)
    } else {
        None
    }
}

/// A number of seconds is that of a wall clock reading.
pub open spec fn is_unix_second(r: Option<u64>, time: SystemTime) -> bool {
    match r {
        Some(seconds) => unix_second(time) == Some(seconds as int),
        None => unix_second(time) is None,
    }
}

/// The whole seconds from 1970-01-01 UTC to a wall clock reading; `None` for a
/// reading before that.
pub fn unix_seconds(time: &SystemTime) -> (r: Option<u64>)
    ensures
        is_unix_second(r, *time),
{
    match since_epoch(time) {
        Ok(since) => Some(since.as_secs()),
        Err(_) => None,
    }
}

/// The wall clock shows `r`, at some time: a number of whole seconds, or `None`
/// before 1970-01-01 UTC.
pub open spec fn wall_shows(r: Option<u64>) -> bool {
    exists|time: SystemTime| #[trigger] is_unix_second(r, time)
}

/// The seconds since 1970-01-01 UTC on the wall clock; `None` when the clock
/// stands before that.
pub fn now_unix() -> (r: Option<u64>)
    ensures
        wall_shows(r),
{
    let time = SystemTime::now();
    unix_seconds(&time)
}

/// The wall clock as its reader knows it: what it showed last, and how often it was
/// read.
#[derive(Clone, Copy, Debug)]
pub struct WallClock {
    latest: Option<u64>,
    readings: u64,
}

impl WallClock {
    /// What the clock showed when it was read last.
    pub closed spec fn last_reading(&self) -> Option<u64> {
        self.latest
    }

    /// How often the clock was read.
    pub closed spec fn readings(&self) -> u64 {
        self.readings
    }

    /// A wall clock that was never read.
    pub fn unread() -> (r: WallClock)
        ensures
            r.last_reading() is None,
            r.readings() == 0,
    {
        WallClock { latest: None, readings: 0 }
    }

    /// The seconds since 1970-01-01 UTC that the clock shows now; `None` when it
    /// stands before that.
    pub fn read(&mut self) -> (r: Option<u64>)
        ensures
            wall_shows(r),
            final(self).last_reading() == r,
            final(self).readings() == one_reading_more(old(self).readings()),
    {
        let r: Option<u64> = now_unix();
        self.latest = r;
        self.readings = self.readings.saturating_add(1);
        r
    }
}

} // verus!
