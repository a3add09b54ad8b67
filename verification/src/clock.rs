//! Instants as plain integers, and the calls into `chrono` that read or parse them.
use vstd::prelude::*;

verus! {

/// A point in time: seconds since the UNIX epoch and the nanoseconds past that second.
#[derive(Clone, Copy, Debug, PartialEq, Eq, Structural)]
pub struct Instant {
    pub secs: i64,
    pub nanos: u32,
}

/// Whether `a` is strictly earlier than `b`.
pub open spec fn earlier(a: Instant, b: Instant) -> bool {
    a.secs < b.secs || (a.secs == b.secs && a.nanos < b.nanos)
}

impl Instant {
    pub fn is_before(&self, other: &Instant) -> (r: bool)
        ensures
            r == earlier(*self, *other),
    {
        self.secs < other.secs || (self.secs == other.secs && self.nanos < other.nanos)
    }
}

/// The instant that `chrono::DateTime::parse_from_rfc3339` reads from `text`,
/// as UTC seconds and nanoseconds; `None` where it reports an error.
pub uninterp spec fn rfc3339_instant(text: Seq<char>) -> Option<Instant>;

/// The first whole second `chrono` represents: -262143-01-01T00:00:00 UTC,
/// the first day of its earliest year.
pub const MIN_TIMESTAMP: i64 = -8334601228800;

/// The last whole second `chrono` represents: +262142-12-31T23:59:59 UTC,
/// the last day of its latest year.
pub const MAX_TIMESTAMP: i64 = 8210266876799;

/// Whether `chrono::DateTime::from_timestamp(secs, 0)` gives a date: the
/// day `secs` falls on lies between the first day of year -262143 and the
/// last day of year 262142.
pub open spec fn timestamp_representable(secs: i64) -> bool {
    MIN_TIMESTAMP <= secs <= MAX_TIMESTAMP
}

/// Calls `chrono::DateTime::parse_from_rfc3339` and reads the UTC timestamp
/// and sub-second nanoseconds of the result.
#[verifier::external_body]
pub(crate) fn parse_rfc3339(text: &str) -> (r: Option<Instant>)
    ensures
        r == rfc3339_instant(text@),
{
    chrono::DateTime::parse_from_rfc3339(text)
        .ok()
        .map(|t| Instant { secs: t.timestamp(), nanos: t.timestamp_subsec_nanos() })
}

/// Whether `secs` is a representable UNIX time, as
/// `chrono::DateTime::from_timestamp(secs, 0).is_some()` tells.
pub fn timestamp_in_range(secs: i64) -> (r: bool)
    ensures
        r == timestamp_representable(secs),
{
    MIN_TIMESTAMP <= secs && secs <= MAX_TIMESTAMP
}

/// Calls `chrono::Utc::now()`: the current UTC time. Nothing is promised of the value.
/// It panics only when the system clock reads before 1970.
#[verifier::external_body]
pub(crate) fn now() -> Instant {
    let t = chrono::Utc::now();
    Instant { secs: t.timestamp(), nanos: t.timestamp_subsec_nanos() }
}

} // verus!
