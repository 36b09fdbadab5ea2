//! Instants of time and the clock.

use vstd::prelude::*;

verus! {

/// An instant: seconds since 1970 began (UTC), and nanoseconds after them. In a
/// leap second the nanoseconds go on beyond one second.
#[derive(Debug, Clone, Copy, PartialEq, Eq, Structural)]
pub struct Timestamp {
    pub secs: i64,
    pub nanos: u32,
}

/// Whether the instant so many seconds after 1970 began lies in the years -262143
/// to 262142, which are those of chrono's calendar.
pub open spec fn in_calendar(secs: int) -> bool {
    -8_334_601_228_800 <= secs <= 8_210_266_876_799
}

/// `DateTime::from_timestamp` of chrono holds an instant whose seconds are in
/// the range of its calendar.
#[verifier::external_body]
pub(crate) fn instant_at(secs: i64) -> (r: Option<Timestamp>)
    ensures
        r == (if in_calendar(secs as int) {
            Some(Timestamp { secs, nanos: 0 })
        } else {
            None
        }),
{
    let t = chrono::DateTime::from_timestamp(secs, 0)?;
    Some(Timestamp { secs: t.timestamp(), nanos: t.timestamp_subsec_nanos() })
}

/// The instant that an RFC 3339 text writes down.
pub uninterp spec fn rfc3339_instant(text: Seq<char>) -> Option<Timestamp>;

/// `DateTime::parse_from_rfc3339` of chrono reads an RFC 3339 text.
#[verifier::external_body]
pub(crate) fn parse_rfc3339(text: &str) -> (r: Option<Timestamp>)
    ensures
        r == rfc3339_instant(text@),
{
    let t = chrono::DateTime::parse_from_rfc3339(text).ok()?;
    Some(Timestamp { secs: t.timestamp(), nanos: t.timestamp_subsec_nanos() })
}

/// The instant `delta` seconds after an instant in a leap second.
pub uninterp spec fn leap_plus(t: Timestamp, delta: i64) -> Option<Timestamp>;

/// Whether an instant stands in a leap second.
pub open spec fn is_leap(t: Timestamp) -> bool {
    t.nanos >= 1_000_000_000
}

/// The instant `delta` seconds after `t`, where the calendar has both.
pub open spec fn instant_plus(t: Timestamp, delta: i64) -> Option<Timestamp> {
    if is_leap(t) {
        leap_plus(t, delta)
    } else if in_calendar(t.secs as int) && in_calendar(t.secs + delta) {
        Some(Timestamp { secs: (t.secs + delta) as i64, nanos: t.nanos })
    } else {
        None
    }
}

/// `DateTime::checked_add_signed` of chrono moves an instant by seconds, and
/// gives none where the calendar does not have the instant or the sum. What it
/// makes of an instant in a leap second is part of the name.
#[verifier::external_body]
pub(crate) fn add_seconds(t: Timestamp, delta: i64) -> (r: Option<Timestamp>)
    ensures
        !is_leap(t) ==> r == instant_plus(t, delta),
        is_leap(t) ==> r == leap_plus(t, delta),
{
    let span = chrono::TimeDelta::try_seconds(delta)?;
    let x = chrono::DateTime::from_timestamp(t.secs, t.nanos)?.checked_add_signed(span)?;
    Some(Timestamp { secs: x.timestamp(), nanos: x.timestamp_subsec_nanos() })
}

/// `Utc::now` of chrono reads the clock, which never stands in a leap second.
#[verifier::external_body]
pub(crate) fn utc_now() -> (r: Timestamp)
    ensures
        r.nanos < 1_000_000_000,
{
    let t = chrono::Utc::now();
    Timestamp { secs: t.timestamp(), nanos: t.timestamp_subsec_nanos() }
}

/// `Utc::now` and `DateTime::to_rfc3339` of chrono: the time of day as text.
#[verifier::external_body]
pub(crate) fn now_rfc3339() -> String {
    chrono::Utc::now().to_rfc3339()
}

/// `SystemTime::elapsed` since 1970 began, in whole seconds, or zero before it.
#[verifier::external_body]
pub(crate) fn now_epoch() -> u64 {
    std::time::UNIX_EPOCH.elapsed().unwrap_or_default().as_secs()
}

} // verus!
