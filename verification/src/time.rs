//! Points in time.

use vstd::prelude::*;

verus! {

/// A point in UTC time: seconds since the epoch, and nanoseconds behind them.
#[derive(Clone, Copy, Debug, PartialEq, Eq, Structural)]
pub struct Timestamp {
    pub secs: i64,
    pub nanos: u32,
}

/// The first second of the calendar's first year, -262143.
pub const MIN_CALENDAR_SECS: i64 = -8_334_601_228_800;

/// The last second of the calendar's last year, 262142.
pub const MAX_CALENDAR_SECS: i64 = 8_210_266_876_799;

/// The point in time that an RFC 3339 text names, if it names one.
pub uninterp spec fn rfc3339_time(text: Seq<char>) -> Option<Timestamp>;

/// The present, by `chrono::Utc::now`. Nothing is stated of it.
#[verifier::external_body]
pub(crate) fn utc_now() -> (r: Timestamp) {
    let now = chrono::Utc::now();
    Timestamp { secs: now.timestamp(), nanos: now.timestamp_subsec_nanos() }
}

/// Nanoseconds from the epoch to a point in time, as far as they can be counted.
pub open spec fn time_nanos(t: Timestamp) -> int {
    let nanos = t.secs * 1_000_000_000 + t.nanos;
    if nanos > i64::MAX {
        i64::MAX as int
    } else if nanos < i64::MIN {
        i64::MIN as int
    } else {
        nanos
    }
}

/// Nanoseconds from the epoch to a point in time, as far as they can be counted.
pub fn nanos_of_time(t: Timestamp) -> (r: i64)
    ensures
        r == time_nanos(t),
{
    let nanos: i128 = t.secs as i128 * 1_000_000_000 + t.nanos as i128;
    if nanos > 9_223_372_036_854_775_807 {
        i64::MAX
    } else if nanos < -9_223_372_036_854_775_808 {
        i64::MIN
    } else {
        nanos as i64
    }
}

/// `chrono::DateTime::parse_from_rfc3339`.
#[verifier::external_body]
fn read_rfc3339(text: &str) -> (r: Option<Timestamp>)
    ensures
        r == rfc3339_time(text@),
{
    match chrono::DateTime::parse_from_rfc3339(text) {
        Ok(t) => Some(Timestamp { secs: t.timestamp(), nanos: t.timestamp_subsec_nanos() }),
        Err(_) => None,
    }
}

/// The point in time that an RFC 3339 text names, if it names one.
pub fn parse_rfc3339(text: &str) -> (r: Option<Timestamp>)
    ensures
        r == rfc3339_time(text@),
{
    read_rfc3339(text)
}

/// The point so many seconds after the epoch, if the calendar reaches that far.
pub open spec fn time_of_secs(secs: int) -> Option<int> {
    if MIN_CALENDAR_SECS <= secs <= MAX_CALENDAR_SECS {
        Some(secs)
    } else {
        None
    }
}

/// `chrono::DateTime::from_timestamp` with whole seconds: a point in time where the year is one of
/// the calendar's, from -262143 to 262142.
#[verifier::external_body]
fn calendar_time(secs: i64) -> (r: Option<i64>)
    ensures
        match r {
            Some(t) => time_of_secs(secs as int) == Some(t as int),
            None => time_of_secs(secs as int) is None,
        },
{
    chrono::DateTime::from_timestamp(secs, 0).map(|t| t.timestamp())
}

/// The point so many seconds after the epoch, if the calendar reaches that far.
pub fn parse_secs(secs: i64) -> (r: Option<i64>)
    ensures
        match r {
            Some(t) => time_of_secs(secs as int) == Some(t as int),
            None => time_of_secs(secs as int) is None,
        },
{
    calendar_time(secs)
}

/// The point so many whole seconds after the epoch, or the present where there is none or the
/// calendar does not reach it.
pub open spec fn secs_or_now(secs: Option<int>, now: Timestamp) -> Timestamp {
    match secs {
        Some(s) => match time_of_secs(s) {
            Some(t) => Timestamp { secs: t as i64, nanos: 0 },
            None => now,
        },
        None => now,
    }
}

/// The point so many whole seconds after the epoch, or `now` where there is none.
pub fn time_or(secs: Option<i64>, now: Timestamp) -> (r: Timestamp)
    ensures
        r == secs_or_now(
            match secs {
                Some(s) => Some(s as int),
                None => None,
            },
            now,
        ),
{
    match secs {
        Some(s) => match calendar_time(s) {
            Some(t) => Timestamp { secs: t, nanos: 0 },
            None => now,
        },
        None => now,
    }
}

} // verus!
