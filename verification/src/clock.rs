//! Clock readings: the time of day that status lines show, and the time
//! that a scan took.

use crate::text::{decimal, decimal_string};
use vstd::prelude::*;

verus! {

/// A time of day.
#[derive(Debug, Clone, Copy, PartialEq, Eq)]
pub struct TimeOfDay {
    /// Hour of the local day.
    pub hour: u32,
    /// Minute of the hour.
    pub minute: u32,
}

/// One reading of the clock.
#[derive(Debug, Clone, Copy, PartialEq, Eq)]
pub struct Stamp {
    /// The local time of day; none where the system could not tell it.
    pub time_of_day: Option<TimeOfDay>,
    /// Nanoseconds on a clock that never runs backwards, counted from the
    /// moment at which that clock was started.
    pub monotonic_nanos: u128,
}

impl Stamp {
    /// A time of day, where the reading has one, is one of the day's 24
    /// hours and of the hour's 60 minutes.
    pub open spec fn in_range(self) -> bool {
        self.time_of_day matches Some(time) ==> time.hour < 24 && time.minute < 60
    }
}

/// The last second for which the time of day is asked of the system: the
/// end of the year 9999, in seconds since the start of 1970, UTC.
pub const LAST_CLOCK_SECOND: u64 = 253_402_300_799;

/// The number of nanoseconds in a second.
pub const NANOS_PER_SECOND: u128 = 1_000_000_000;

/// The time of day as status lines show it: hour and minute in decimal, not
/// padded, with a colon between them; two dashes for each where the time of
/// day is not known.
pub open spec fn clock_label(at: Stamp) -> Seq<char> {
    match at.time_of_day {
        Some(time) => decimal(time.hour as nat) + ":"@ + decimal(time.minute as nat),
        None => "--:--"@,
    }
}

/// Whole seconds from `started` to `now`, both in nanoseconds; none where
/// `now` is the earlier of the two.
pub open spec fn elapsed_seconds(started: int, now: int) -> nat {
    if now >= started {
        ((now - started) / (NANOS_PER_SECOND as int)) as nat
    } else {
        0
    }
}

/// Writes the time of day of a reading.
pub fn clock_label_string(at: &Stamp) -> (label: String)
    ensures
        label@ == clock_label(*at),
{
    match at.time_of_day {
        Some(time) => {
            let mut label = decimal_string(time.hour as u128);
            label.append(":");
            let minute = decimal_string(time.minute as u128);
            label.append(minute.as_str());
            label
        },
        None => String::from_str("--:--"),
    }
}

/// Whole seconds between two readings in nanoseconds.
pub fn seconds_between(started: u128, now: u128) -> (secs: u128)
    ensures
        secs == elapsed_seconds(started as int, now as int),
{
    if now >= started {
        (now - started) / NANOS_PER_SECOND
    } else {
        0
    }
}

/// Declares `std::time::Instant`: a moment on the clock that never runs
/// backwards. Nothing is known of what a value of it holds.
#[verifier::external_type_specification]
#[verifier::external_body]
pub struct ExInstant(std::time::Instant);

/// A clock that is started once and read from then on. It gives the time
/// of day, and the time since its start on a scale that never runs
/// backwards, whatever is done to the system's clock meanwhile.
pub struct Clock {
    anchor: std::time::Instant,
}

impl Clock {
    /// Starts a clock. Readings count from this moment; nothing more can
    /// be said of it.
    pub fn start() -> Clock {
        Clock { anchor: monotonic_now() }
    }

    /// Reads the clock: the time of day, and the nanoseconds since the
    /// clock was started. What the reading is lies with the machine; of the
    /// time of day only its range is known, and it is missing where the
    /// system's clock stands before 1970 or after the year 9999.
    pub fn read(&self) -> (at: Stamp)
        ensures
            at.in_range(),
    {
        let time_of_day = time_of_day_at(since_epoch());
        Stamp { time_of_day, monotonic_nanos: nanos_since(&self.anchor) }
    }
}

/// The local time of day at a moment that is given as the seconds and
/// nanoseconds since the start of 1970, UTC. There is none where there is no
/// such moment, and none is asked for beyond `LAST_CLOCK_SECOND`.
pub fn time_of_day_at(since_epoch: Option<(u64, u32)>) -> (time: Option<TimeOfDay>)
    ensures
        since_epoch is None ==> time is None,
        since_epoch matches Some(since) && since.0 > LAST_CLOCK_SECOND ==> time is None,
        time matches Some(t) ==> t.hour < 24 && t.minute < 60,
{
    match since_epoch {
        Some((secs, nanos)) => {
            if secs <= LAST_CLOCK_SECOND {
                match local_time_of_day(secs as i64, nanos) {
                    Some((hour, minute)) => Some(TimeOfDay { hour, minute }),
                    None => None,
                }
            } else {
                None
            }
        },
        None => None,
    }
}

/// Calls `std::time::SystemTime::now` and `SystemTime::duration_since` with
/// `UNIX_EPOCH`, and gives the span as whole seconds and the nanoseconds
/// beyond them; `None` where the system's clock stands before 1970. Nothing
/// is claimed of the reading.
#[verifier::external_body]
pub(crate) fn since_epoch() -> (since: Option<(u64, u32)>) {
    let since = std::time::SystemTime::now().duration_since(std::time::UNIX_EPOCH).ok()?;
    Some((since.as_secs(), since.subsec_nanos()))
}

/// Calls `chrono::DateTime::from_timestamp`, turns the result to the local
/// zone with `DateTime::with_timezone` and `chrono::Local`, and takes its
/// hour and minute with `chrono::Timelike`; `None` where chrono has no date
/// for the timestamp. Assumed, not proved: chrono gives the hour below 24
/// and the minute below 60; for a timestamp between 1970 and the end of the
/// year 9999 it finds the local zone's offset in the zone data of the
/// system; and that offset is less than a day, as every zone's is, which is
/// what chrono takes it to be.
#[verifier::external_body]
pub(crate) fn local_time_of_day(secs: i64, nanos: u32) -> (time: Option<(u32, u32)>)
    requires
        0 <= secs <= LAST_CLOCK_SECOND,
    ensures
        time matches Some(t) ==> t.0 < 24 && t.1 < 60,
{
    let local = chrono::DateTime::from_timestamp(secs, nanos)?.with_timezone(&chrono::Local);
    Some((chrono::Timelike::hour(&local), chrono::Timelike::minute(&local)))
}

/// Calls `std::time::Instant::now`. Nothing is claimed of the reading.
#[verifier::external_body]
pub(crate) fn monotonic_now() -> (now: std::time::Instant) {
    std::time::Instant::now()
}

/// Calls `std::time::Instant::elapsed` and gives the span in nanoseconds,
/// as `std::time::Duration::as_nanos` counts it. Nothing is claimed of the
/// reading.
#[verifier::external_body]
pub(crate) fn nanos_since(anchor: &std::time::Instant) -> (nanos: u128) {
    anchor.elapsed().as_nanos()
}

} // verus!
