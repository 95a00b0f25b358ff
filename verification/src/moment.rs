//! Points in time, in UTC.
use vstd::prelude::*;

verus! {

/// The first second that a calendar date exists for: the start of the year
/// -262143.
pub const MIN_SECONDS: i64 = -8_334_601_228_800;

/// The last second that a calendar date exists for: the end of the year 262142.
pub const MAX_SECONDS: i64 = 8_210_266_876_799;

/// The number of seconds in a day.
pub const SECONDS_PER_DAY: i64 = 86_400;

/// A point in time: whole seconds since the start of 1970 in UTC, and the
/// nanoseconds since then.
#[derive(Debug, Clone, Copy, PartialEq, Eq, Structural)]
pub struct Timestamp {
    pub seconds: i64,
    pub nanos: u32,
}

/// The calendar date, in UTC, of a number of seconds since the start of 1970,
/// as `chrono` writes it.
pub uninterp spec fn utc_date_text(seconds: i64) -> Seq<char>;

/// Calls `chrono::Utc::now`. The time depends on the clock; only that it lies
/// after the start of 1970 and has a calendar date is said of it.
#[verifier::external_body]
fn clock_time() -> (r: (i64, u32))
    ensures
        0 <= r.0 <= MAX_SECONDS,
        r.1 < 1_000_000_000,
{
    let now = chrono::Utc::now();
    (now.timestamp(), now.timestamp_subsec_nanos())
}

/// Calls `-` on `chrono::DateTime` with a duration of `chrono::Duration::days`:
/// a day is 86400 seconds, and the nanoseconds stay.
#[verifier::external_body]
fn subtract_days(seconds: i64, nanos: u32, days: i64) -> (r: (i64, u32))
    requires
        MIN_SECONDS <= seconds <= MAX_SECONDS,
        nanos < 1_000_000_000,
        0 <= days <= 1000,
        MIN_SECONDS <= seconds - days * SECONDS_PER_DAY,
    ensures
        r == ((seconds - days * SECONDS_PER_DAY) as i64, nanos),
{
    let then = chrono::DateTime::from_timestamp(seconds, nanos).unwrap() - chrono::Duration::days(days);
    (then.timestamp(), then.timestamp_subsec_nanos())
}

/// Calls `date_naive` and `to_string` of `chrono` on a point in time. The date
/// depends on the second alone.
#[verifier::external_body]
fn date_of_second(seconds: i64) -> (r: String)
    requires
        MIN_SECONDS <= seconds <= MAX_SECONDS,
    ensures
        r@ == utc_date_text(seconds),
{
    chrono::DateTime::from_timestamp(seconds, 0).unwrap().date_naive().to_string()
}

impl Timestamp {
    /// Whether this point in time has a calendar date.
    pub open spec fn valid(self) -> bool {
        MIN_SECONDS <= self.seconds <= MAX_SECONDS && self.nanos < 1_000_000_000
    }

    /// The current time.
    pub fn now() -> (r: Timestamp)
        ensures
            r.valid(),
            0 <= r.seconds,
    {
        let (seconds, nanos) = clock_time();
        Timestamp { seconds, nanos }
    }

    /// The point in time exactly one day earlier.
    pub fn one_day_before(&self) -> (r: Timestamp)
        requires
            self.valid(),
            MIN_SECONDS + SECONDS_PER_DAY <= self.seconds,
        ensures
            r.seconds == self.seconds - SECONDS_PER_DAY,
            r.nanos == self.nanos,
            r.valid(),
    {
        let (seconds, nanos) = subtract_days(self.seconds, self.nanos, 1);
        Timestamp { seconds, nanos }
    }

    /// The calendar date, in UTC.
    pub fn date_text(&self) -> (r: String)
        requires
            self.valid(),
        ensures
            r@ == utc_date_text(self.seconds),
    {
        date_of_second(self.seconds)
    }
}

} // verus!
