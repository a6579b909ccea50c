//! Calendar dates as timestamps.
use crate::weave::Timestamp;
use vstd::prelude::*;

verus! {

/// Leap years of the Gregorian calendar.
pub open spec fn is_leap_year(year: int) -> bool {
    year % 4 == 0 && (year % 100 != 0 || year % 400 == 0)
}

/// Days in a month of the Gregorian calendar.
pub open spec fn days_in_month(year: int, month: int) -> int {
    if month == 2 {
        if is_leap_year(year) {
            29
        } else {
            28
        }
    } else if month == 4 || month == 6 || month == 9 || month == 11 {
        30
    } else {
        31
    }
}

/// Days of a year that lie before the first of a month.
pub open spec fn days_before_month(year: int, month: int) -> int
    decreases month,
{
    if month <= 1 {
        0
    } else {
        days_before_month(year, month - 1) + days_in_month(year, month - 1)
    }
}

/// Days from the Unix epoch to the first of January of a year.
pub open spec fn days_before_year(year: int) -> int {
    let past = year - 1;
    365 * past + past / 4 - past / 100 + past / 400 - 719162
}

/// The fields name a date of the calendar and a time of day.
pub open spec fn is_date_time(
    year: int,
    month: int,
    day: int,
    hour: int,
    minute: int,
    second: int,
    nanos: int,
) -> bool {
    &&& 1 <= month <= 12
    &&& 1 <= day <= days_in_month(year, month)
    &&& 0 <= hour < 24
    &&& 0 <= minute < 60
    &&& 0 <= second < 60
    &&& 0 <= nanos < 1_000_000_000
}

/// Seconds from the Unix epoch to a date and time in UTC.
pub open spec fn utc_seconds(
    year: int,
    month: int,
    day: int,
    hour: int,
    minute: int,
    second: int,
) -> int {
    86400 * (days_before_year(year) + days_before_month(year, month) + day - 1) + 3600 * hour + 60
        * minute + second
}

/// Calls `prost_types::Timestamp::date_time_nanos`.
///
/// For the years 1 to 9999 it gives the seconds from the Unix epoch to the date and time in
/// UTC, with the nanoseconds unchanged, and rejects exactly the fields that name no date and
/// time of the Gregorian calendar. Nothing is claimed of other years.
#[verifier::external_body]
fn date_time_nanos(
    year: i64,
    month: u8,
    day: u8,
    hour: u8,
    minute: u8,
    second: u8,
    nanos: u32,
) -> (r: Option<Timestamp>)
    ensures
        1 <= year <= 9999 ==> (r is Some <==> is_date_time(
            year as int,
            month as int,
            day as int,
            hour as int,
            minute as int,
            second as int,
            nanos as int,
        )),
        1 <= year <= 9999 ==> (r matches Some(t) ==> t.seconds == utc_seconds(
            year as int,
            month as int,
            day as int,
            hour as int,
            minute as int,
            second as int,
        ) && t.nanos == nanos),
{
    prost_types::Timestamp::date_time_nanos(year, month, day, hour, minute, second, nanos)
        .ok()
        .map(|t| Timestamp { seconds: t.seconds, nanos: t.nanos })
}

/// The creation time that this agent puts on every object: the start of the year 2026 in UTC.
pub open spec fn creation_time() -> Timestamp {
    Timestamp { seconds: 1767225600, nanos: 0 }
}

/// The creation time that this agent puts on every object.
pub fn creation_timestamp() -> (r: Timestamp)
    ensures
        r == creation_time(),
        r.seconds == utc_seconds(2026, 1, 1, 0, 0, 0),
{
    date_time_nanos(2026, 1, 1, 0, 0, 0, 0).unwrap()
}

} // verus!
