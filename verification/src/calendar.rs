//! Civil-calendar arithmetic on unix timestamps, used by the cache-freshness
//! classifier: the weekday and the Monday-based week number of a UTC instant.
//!
//! The week rule is the common "%W" numbering: all days of a year before its
//! first Monday fall in week 0, and each later week starts on a Monday.

use vstd::prelude::*;

verus! {

/// Seconds per day.
pub const SECS_PER_DAY: u64 = 86400;

/// Upper bound on the timestamps the library reasons about: the first instant
/// of year 10000.  File modification times and wall-clock readings fit far
/// below it; the bound keeps the year computation's loop obviously small.
pub const TS_MAX: u64 = 253402300800;

/// A year has 366 days when it is a leap year in the Gregorian calendar.
pub open spec fn is_leap(y: int) -> bool {
    y % 4 == 0 && (y % 100 != 0 || y % 400 == 0)
}

/// Days in year `y`.
pub open spec fn days_in_year(y: int) -> int {
    if is_leap(y) {
        366
    } else {
        365
    }
}

/// Starting from January 1 of year `y` plus `d` whole days, the year reached
/// and the zero-based day of that year.
pub open spec fn year_split_from(y: int, d: int) -> (int, int)
    decreases d,
{
    if d < days_in_year(y) {
        (y, d)
    } else {
        year_split_from(y + 1, d - days_in_year(y))
    }
}

/// Whole days since 1970-01-01 of the instant `ts` seconds after the epoch.
pub open spec fn days_of(ts: int) -> int {
    ts / 86400
}

/// Weekday of a day count since the epoch, with Monday as 0 and Sunday as 6.
/// 1970-01-01 was a Thursday.
pub open spec fn weekday_of_days(days: int) -> int {
    (days + 3) % 7
}

/// Zero-based day of the year of a day count since the epoch.
pub open spec fn ordinal0_of_days(days: int) -> int {
    year_split_from(1970, days).1
}

/// Monday-based week number of a day count since the epoch: the number of
/// Mondays in the year up to and including that day.
pub open spec fn week_of_days(days: int) -> int {
    (ordinal0_of_days(days) + 7 - weekday_of_days(days)) / 7
}

/// Weekday of a timestamp, Monday as 0.
pub open spec fn weekday_of(ts: int) -> int {
    weekday_of_days(days_of(ts))
}

/// Monday-based week number of a timestamp.
pub open spec fn week_of(ts: int) -> int {
    week_of_days(days_of(ts))
}

/// Compute the year and zero-based ordinal day of a day count.
fn year_split(days: u64) -> (r: (u64, u64))
    requires
        days < 2932897,  // days before year 10000
    ensures
        (r.0 as int, r.1 as int) == year_split_from(1970, days as int),
        r.1 < 366,
{
    let mut y: u64 = 1970;
    let mut d: u64 = days;
    let mut len: u64 = if (y % 4 == 0 && (y % 100 != 0 || y % 400 == 0)) {
        366
    } else {
        365
    };
    while d >= len
        invariant
            year_split_from(1970, days as int) == year_split_from(y as int, d as int),
            len == days_in_year(y as int),
            d <= days < 2932897,
            1970 <= y,
            y - 1970 <= days - d,
        decreases d,
    {
        d = d - len;
        y = y + 1;
        len = if (y % 4 == 0 && (y % 100 != 0 || y % 400 == 0)) {
            366
        } else {
            365
        };
    }
    (y, d)
}

/// Weekday of a timestamp, Monday as 0 and Sunday as 6.
pub fn weekday(ts: u64) -> (r: u64)
    requires
        ts < TS_MAX,
    ensures
        r == weekday_of(ts as int),
        r < 7,
{
    let days = ts / SECS_PER_DAY;
    (days + 3) % 7
}

/// Monday-based week number of a timestamp: week 0 holds the days before the
/// year's first Monday, and each following week starts on a Monday.
pub fn monday_based_week(ts: u64) -> (r: u64)
    requires
        ts < TS_MAX,
    ensures
        r == week_of(ts as int),
        r <= 53,
{
    let days = ts / SECS_PER_DAY;
    let wd = (days + 3) % 7;
    let split = year_split(days);
    let ord0 = split.1;
    (ord0 + 7 - wd) / 7
}

} // verus!
