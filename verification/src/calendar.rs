//! The game's calendar: a moment in UTC, and the step to the next day.

use vstd::prelude::*;

verus! {

/// Seconds in a day.
pub const SECONDS_PER_DAY: i64 = 86_400;

/// The first second the calendar can hold: midnight of 1 January of the year -262143.
pub const MIN_TIMESTAMP: i64 = -8_334_601_228_800;

/// The last second the calendar can hold: 23:59:59 of 31 December of the year 262142.
pub const MAX_TIMESTAMP: i64 = 8_210_266_876_799;

/// Nanoseconds in a second.
pub const NANOS_PER_SECOND: u32 = 1_000_000_000;

/// A moment in UTC: the seconds since 1 January 1970, leap seconds not
/// counted, and the nanoseconds since the last whole second. A leap second
/// is written as a 59th second with a billion nanoseconds or more.
#[derive(Debug, Clone, Copy, PartialEq, Eq, Structural)]
pub struct GameDate {
    pub timestamp: i64,
    pub subsec_nanos: u32,
}

impl GameDate {
    /// Whether the calendar can hold this moment.
    pub open spec fn is_valid(self) -> bool {
        &&& MIN_TIMESTAMP <= self.timestamp <= MAX_TIMESTAMP
        &&& self.subsec_nanos < 2 * NANOS_PER_SECOND
        &&& self.subsec_nanos >= NANOS_PER_SECOND ==> self.timestamp % 60 == 59
    }

    /// Whether the calendar can hold this moment and the same time a day later.
    pub open spec fn has_next_day(self) -> bool {
        self.is_valid() && self.timestamp + SECONDS_PER_DAY <= MAX_TIMESTAMP
    }

    /// The same time one day later. A leap second does not outlast the step.
    pub open spec fn next_day(self) -> GameDate {
        GameDate {
            timestamp: (self.timestamp + SECONDS_PER_DAY) as i64,
            subsec_nanos: if self.subsec_nanos >= NANOS_PER_SECOND {
                (self.subsec_nanos - NANOS_PER_SECOND) as u32
            } else {
                self.subsec_nanos
            },
        }
    }

    /// Whether `advance` may be called on this moment.
    pub fn can_advance(&self) -> (possible: bool)
        ensures
            possible == self.has_next_day(),
    {
        let second_of_minute: i64 = ((self.timestamp % 60) + 60) % 60;
        MIN_TIMESTAMP <= self.timestamp && self.timestamp <= MAX_TIMESTAMP - SECONDS_PER_DAY
            && self.subsec_nanos < 2 * NANOS_PER_SECOND && (self.subsec_nanos < NANOS_PER_SECOND
            || second_of_minute == 59)
    }

    /// The same time one day later.
    pub fn advance(self) -> (next: GameDate)
        requires
            self.has_next_day(),
        ensures
            next == self.next_day(),
            next.is_valid(),
    {
        day_after(self)
    }
}

/// Calls `chrono::Utc::now` and hands the moment out by `DateTime::timestamp`
/// and `DateTime::timestamp_subsec_nanos`. Believed of it: the moment is one
/// the calendar can hold, not before 1970, and no leap second. `now` panics
/// where the system clock stands before 1970.
#[verifier::external_body]
pub(crate) fn utc_now() -> (now: GameDate)
    ensures
        now.is_valid(),
        now.timestamp >= 0,
        now.subsec_nanos < NANOS_PER_SECOND,
{
    let now = chrono::Utc::now();
    GameDate { timestamp: now.timestamp(), subsec_nanos: now.timestamp_subsec_nanos() }
}

/// Adds `chrono::TimeDelta::days(1)` to the `chrono::DateTime<Utc>` that
/// `DateTime::from_timestamp` makes of `date`. Believed of it: the result is
/// 86400 seconds later, with the nanoseconds kept, but for a leap second,
/// which loses its extra billion. `from_timestamp` gives nothing for a moment
/// that is not valid, and the addition panics past the calendar's end:
/// `has_next_day` rules out both.
#[verifier::external_body]
pub(crate) fn day_after(date: GameDate) -> (next: GameDate)
    requires
        date.has_next_day(),
    ensures
        next == date.next_day(),
{
    let moment = chrono::DateTime::from_timestamp(date.timestamp, date.subsec_nanos).unwrap();
    let next = moment + chrono::TimeDelta::days(1);
    GameDate { timestamp: next.timestamp(), subsec_nanos: next.timestamp_subsec_nanos() }
}

} // verus!
