//! Readings of the clocks.
use std::time::{Duration, Instant, SystemTime};
use vstd::prelude::*;

verus! {

/// A reading of the monotonic clock, `std::time::Instant`.
#[verifier::external_type_specification]
#[verifier::external_body]
pub struct ExInstant(Instant);

/// A reading of the system clock, `std::time::SystemTime`.
#[verifier::external_type_specification]
#[verifier::external_body]
pub struct ExSystemTime(SystemTime);

/// The length of a duration in nanoseconds.
pub uninterp spec fn duration_nanos(duration: Duration) -> nat;

/// How long after the Unix epoch a reading of the system clock is, in nanoseconds; nothing for a
/// reading from before the epoch.
pub uninterp spec fn since_unix_epoch_nanos(time: SystemTime) -> Option<nat>;

/// The time from a reading of the monotonic clock to a later one.
pub uninterp spec fn time_between(later: Instant, earlier: Instant) -> Duration;

/// `Duration::as_nanos`: the length of the duration in whole nanoseconds, the unit that a
/// duration is kept in.
pub assume_specification[ Duration::as_nanos ](duration: &Duration) -> (nanos: u128)
    ensures
        nanos == duration_nanos(*duration),
;

/// `Duration::as_millis`: the whole milliseconds in the duration, a fraction left out.
pub assume_specification[ Duration::as_millis ](duration: &Duration) -> (millis: u128)
    ensures
        millis == duration_nanos(*duration) / 1_000_000,
;

/// `Instant::now`: a reading of the monotonic clock. Nothing is claimed of it: it rests on the
/// time.
pub assume_specification[ Instant::now ]() -> Instant;

/// `Instant::duration_since`: the time from the earlier reading to the later one, and no time at
/// all where the readings are the other way round. It is a function of the two readings.
pub assume_specification[ Instant::duration_since ](later: &Instant, earlier: Instant) -> (elapsed:
    Duration)
    ensures
        elapsed == time_between(*later, earlier),
;

/// `SystemTime::now`: a reading of the system clock. Nothing is claimed of it: it rests on the
/// time.
pub assume_specification[ SystemTime::now ]() -> SystemTime;

/// Calls `SystemTime::duration_since` with `SystemTime::UNIX_EPOCH`, which fails for a reading
/// from before the epoch. The result is a function of the reading.
#[verifier::external_body]
fn since_unix_epoch(time: &SystemTime) -> (elapsed: Option<Duration>)
    ensures
        match elapsed {
            Some(elapsed) => since_unix_epoch_nanos(*time) == Some(duration_nanos(elapsed)),
            None => since_unix_epoch_nanos(*time) is None,
        },
{
    time.duration_since(SystemTime::UNIX_EPOCH).ok()
}

/// The last second of the calendar of chrono, after the Unix epoch.
pub const CALENDAR_END: u64 = 8_210_266_876_799;

/// Calls `chrono::DateTime::<Utc>::from` on a reading of the system clock and takes the timestamp
/// of the result: the whole seconds since the Unix epoch, a fraction left out. The conversion
/// panics on readings beyond the calendar of chrono, which are left out with its last second, as
/// are readings from before the epoch.
#[verifier::external_body]
fn utc_timestamp(time: SystemTime) -> (second: i64)
    requires
        since_unix_epoch_nanos(time) is Some,
        since_unix_epoch_nanos(time)->0 / 1_000_000_000 < CALENDAR_END,
    ensures
        second == since_unix_epoch_nanos(time)->0 / 1_000_000_000,
{
    chrono::DateTime::<chrono::Utc>::from(time).timestamp()
}

/// The whole seconds since the Unix epoch of a reading of the system clock, 0 for a reading from
/// before the epoch or from the end of the calendar on, where no second follows.
pub open spec fn second_of_reading(time: SystemTime) -> int {
    match since_unix_epoch_nanos(time) {
        Some(nanos) => if nanos / 1_000_000_000 < CALENDAR_END {
            (nanos / 1_000_000_000) as int
        } else {
            0
        },
        None => 0,
    }
}

/// The whole seconds since the Unix epoch of a reading of the system clock, 0 for a reading from
/// before the epoch or from the end of the calendar on, where no second follows.
pub fn unix_second(time: SystemTime) -> (second: i64)
    ensures
        second == second_of_reading(time),
        0 <= second < CALENDAR_END,
{
    match since_unix_epoch(&time) {
        Some(elapsed) => {
            if elapsed.as_nanos() / 1_000_000_000 < CALENDAR_END as u128 {
                utc_timestamp(time)
            } else {
                0
            }
        },
        None => 0,
    }
}

/// A number of milliseconds cut to 64 bits, 0 where there is none.
pub fn millis_or_zero(millis: Option<u128>) -> (cut: u64)
    ensures
        cut == (match millis {
            Some(millis) => millis as u64,
            None => 0,
        }),
{
    match millis {
        Some(millis) => {
            #[verifier::truncate]
            let cut: u64 = millis as u64;
            cut
        },
        None => 0,
    }
}

/// The milliseconds since the Unix epoch of a reading of the system clock, cut to 64 bits, 0 for
/// a reading from before the epoch.
pub open spec fn millis_of_reading(time: SystemTime) -> u64 {
    match since_unix_epoch_nanos(time) {
        Some(nanos) => (nanos / 1_000_000) as u64,
        None => 0,
    }
}

/// The milliseconds since the Unix epoch of a reading of the system clock, cut to 64 bits, 0 for
/// a reading from before the epoch.
pub fn unix_millis(time: SystemTime) -> (millis: u64)
    ensures
        millis == millis_of_reading(time),
{
    let millis: Option<u128> = match since_unix_epoch(&time) {
        Some(elapsed) => Some(elapsed.as_millis()),
        None => None,
    };
    millis_or_zero(millis)
}

/// Whether this is what `SystemTime::now` gave: a reading of the system clock.
pub open spec fn is_system_reading(time: SystemTime) -> bool {
    call_ensures(SystemTime::now, (), time)
}

/// The milliseconds since the Unix epoch, now: those of a reading of the system clock. Which
/// reading it is rests on the time and is not stated.
pub fn now_ms() -> (millis: u64)
    ensures
        exists|time: SystemTime|
            millis == #[trigger] millis_of_reading(time) && is_system_reading(time),
{
    let time = SystemTime::now();
    unix_millis(time)
}

/// Whether a duration can be this many nanoseconds long.
pub open spec fn is_duration(nanos: nat) -> bool {
    exists|duration: Duration| nanos == #[trigger] duration_nanos(duration)
}

/// The nanoseconds from one reading of the monotonic clock to a later one.
pub open spec fn nanos_between(later: Instant, earlier: Instant) -> nat {
    duration_nanos(time_between(later, earlier))
}

/// Whether this is what `Instant::now` gave: a reading of the monotonic clock.
pub open spec fn is_reading(at: Instant) -> bool {
    call_ensures(Instant::now, (), at)
}

/// The later of two readings, by the time since a third.
pub open spec fn later_reading(started: Instant, reading: Instant, latest: Instant) -> Instant {
    if nanos_between(reading, started) < nanos_between(latest, started) {
        latest
    } else {
        reading
    }
}

/// Whether this is the time when the clock is read: a reading that is taken then, or the latest
/// one before, should the clock have gone back.
pub open spec fn read_next(started: Instant, latest: Instant, at: Instant) -> bool {
    exists|reading: Instant| #[trigger]
        is_reading(reading) && at == later_reading(started, reading, latest)
}

/// Reads the monotonic clock: the time since the start, and the reading, or the latest one before
/// should the clock have gone back. Which reading it is rests on the time and is not stated.
pub(crate) fn time_since(started: &Instant, latest: &Instant) -> (read: (Duration, Instant))
    ensures
        read_next(*started, *latest, read.1),
        duration_nanos(read.0) == nanos_between(read.1, *started),
{
    let reading = Instant::now();
    assert(is_reading(reading));
    let elapsed = reading.duration_since(*started);
    let before = latest.duration_since(*started);
    let read = if elapsed.as_nanos() < before.as_nanos() {
        (before, *latest)
    } else {
        (elapsed, reading)
    };
    assert(read.1 == later_reading(*started, reading, *latest));
    read
}

} // verus!
