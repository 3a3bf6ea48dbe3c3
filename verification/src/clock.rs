//! The two sources of fresh values: the system clock and random identifiers.

use vstd::prelude::*;
use crate::types::{Timestamp, MAX_UTC_SECS, MIN_UTC_SECS, NANOS_PER_SEC};

verus! {

/// A clock reading that a UTC date-time can hold: between the first and the
/// last representable second, with the nanoseconds below one second.
pub open spec fn clock_reading(t: Timestamp) -> bool {
    MIN_UTC_SECS <= t.secs <= MAX_UTC_SECS && t.nanos < NANOS_PER_SEC
}

/// The current time, by `chrono::Utc::now`. What it reads depends on the
/// machine; every reading is a representable UTC instant whose nanoseconds lie
/// below one second (the clock is read as a duration since the epoch).
#[verifier::external_body]
pub fn current_time() -> (t: Timestamp)
    ensures
        clock_reading(t),
{
    let now = chrono::Utc::now();
    Timestamp { secs: now.timestamp(), nanos: now.timestamp_subsec_nanos() }
}

/// A fresh random identifier: `uuid::Uuid::new_v4` in its hyphenated
/// lower-case text form, which is 36 characters long. Which identifier comes
/// out is left to chance.
#[verifier::external_body]
pub fn fresh_id() -> (id: String)
    ensures
        id@.len() == 36,
{
    uuid::Uuid::new_v4().to_string()
}

/// The UTC instant `secs` seconds and `nanos` nanoseconds after the epoch,
/// as a UTC date-time can hold it: the seconds lie between the first and the
/// last representable second, and the nanoseconds lie below one second, or
/// below two seconds on the last second of a minute (a leap second).
pub open spec fn utc_from_unix(secs: i64, nanos: u32) -> Option<Timestamp> {
    if MIN_UTC_SECS <= secs <= MAX_UTC_SECS && (nanos < NANOS_PER_SEC || (nanos < 2 * NANOS_PER_SEC
        && secs % 60 == 59)) {
        Some(Timestamp { secs, nanos })
    } else {
        None
    }
}

/// `chrono::DateTime::<Utc>::from_timestamp`, read back as seconds and
/// nanoseconds. By its source it is `None` exactly where the day falls outside
/// the years -262143 to 262142 or the time of day is invalid (nanoseconds of
/// two seconds or more, or of one second or more off the last second of a
/// minute); by its documentation an instant that comes out carries the seconds
/// and nanoseconds that went in.
#[verifier::external_body]
pub fn utc_from_timestamp(secs: i64, nanos: u32) -> (r: Option<Timestamp>)
    ensures
        r == utc_from_unix(secs, nanos),
{
    match chrono::DateTime::from_timestamp(secs, nanos) {
        Some(t) => Some(Timestamp { secs: t.timestamp(), nanos: t.timestamp_subsec_nanos() }),
        None => None,
    }
}

/// The UTC instant that the text `s` denotes, as `chrono` reads a date-time
/// (RFC 3339, relaxed, converted to UTC); `None` where it is no such text.
pub uninterp spec fn parsed_utc(s: Seq<char>) -> Option<Timestamp>;

/// `str::parse::<chrono::DateTime<chrono::Utc>>`, read back as seconds and
/// nanoseconds; the reading grammar is `chrono`'s and is not restated here.
#[verifier::external_body]
pub fn parse_utc(s: &str) -> (r: Option<Timestamp>)
    ensures
        r == parsed_utc(s@),
{
    match s.parse::<chrono::DateTime<chrono::Utc>>() {
        Ok(t) => Some(Timestamp { secs: t.timestamp(), nanos: t.timestamp_subsec_nanos() }),
        Err(_) => None,
    }
}

} // verus!
