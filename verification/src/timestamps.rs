//! Points in time.

use vstd::prelude::*;
use vstd::string::*;

verus! {

/// A point in time: seconds since the epoch, and nanoseconds beyond them.
#[derive(Clone, Copy, PartialEq, Eq, Structural, Debug)]
pub struct Timestamp {
    pub secs: i64,
    pub nanos: u32,
}

impl Timestamp {
    /// The calendar reaches this point.
    pub open spec fn valid(self) -> bool {
        -8_334_601_228_800 <= self.secs <= 8_210_266_876_799
    }

    pub open spec fn at_or_before(self, other: Timestamp) -> bool {
        self.secs < other.secs || (self.secs == other.secs && self.nanos <= other.nanos)
    }

    /// Whether this point is not after `other`.
    pub fn not_after(&self, other: &Timestamp) -> (r: bool)
        ensures
            r == self.at_or_before(*other),
    {
        self.secs < other.secs || (self.secs == other.secs && self.nanos <= other.nanos)
    }

    /// The point `seconds` before this one.
    pub fn minus_seconds(&self, seconds: i64) -> (r: Timestamp)
        requires
            self.valid(),
            0 <= seconds,
            self.secs - seconds >= -8_334_601_228_800,
        ensures
            r.secs == self.secs - seconds,
            r.nanos == self.nanos,
            r.valid(),
    {
        Timestamp { secs: self.secs - seconds, nanos: self.nanos }
    }
}

/// The point in time that an RFC 3339 text names, where it is one.
pub uninterp spec fn rfc3339_time(text: Seq<char>) -> Option<(i64, u32)>;

/// The RFC 3339 text of a point in time, where the calendar reaches it.
pub uninterp spec fn rfc3339_text(secs: i64, nanos: u32) -> Option<Seq<char>>;

/// `chrono::DateTime::parse_from_rfc3339`, read as seconds and nanoseconds: the
/// answer depends on the text alone. Which texts are accepted is left open.
#[verifier::external_body]
fn parse_rfc3339(text: &str) -> (r: Option<(i64, u32)>)
    ensures
        r == rfc3339_time(text@),
{
    match chrono::DateTime::parse_from_rfc3339(text) {
        Ok(time) => Some((time.timestamp(), time.timestamp_subsec_nanos())),
        Err(_) => None,
    }
}

/// `chrono::DateTime::from_timestamp` and `to_rfc3339`: the text depends on the
/// two numbers alone. Which numbers the calendar reaches is left open.
#[verifier::external_body]
fn format_rfc3339(secs: i64, nanos: u32) -> (r: Option<String>)
    ensures
        r is Some == rfc3339_text(secs, nanos) is Some,
        r matches Some(t) ==> rfc3339_text(secs, nanos) == Some(t@),
{
    chrono::DateTime::from_timestamp(secs, nanos).map(|time| time.to_rfc3339())
}

/// The point in time of a record: what its text names, or else `now`.
pub open spec fn recorded_time(parsed: Option<(i64, u32)>, now: Timestamp) -> Timestamp {
    match parsed {
        Some(p) => Timestamp { secs: p.0, nanos: p.1 },
        None => now,
    }
}

/// The point in time that a reading of a record's text gives, or else `now`.
pub fn time_or_now(parsed: Option<(i64, u32)>, now: Timestamp) -> (r: Timestamp)
    ensures
        r == recorded_time(parsed, now),
{
    match parsed {
        Some(p) => Timestamp { secs: p.0, nanos: p.1 },
        None => now,
    }
}

/// The point in time under which a record is stored.
pub fn record_time(text: &str, now: Timestamp) -> (r: Timestamp)
    ensures
        r == recorded_time(rfc3339_time(text@), now),
{
    time_or_now(parse_rfc3339(text), now)
}

/// The text under which a stored point in time is shown.
pub fn time_text(time: Timestamp) -> (r: Option<String>)
    ensures
        r is Some == rfc3339_text(time.secs, time.nanos) is Some,
        r matches Some(t) ==> rfc3339_text(time.secs, time.nanos) == Some(t@),
{
    format_rfc3339(time.secs, time.nanos)
}

/// Points in time are ordered: by their seconds, and within a second by what is beyond
/// it.
pub proof fn law_points_in_time_are_ordered(a: Timestamp, b: Timestamp, c: Timestamp)
    ensures
        a.secs < b.secs ==> a.at_or_before(b) && !b.at_or_before(a),
        a.secs == b.secs && a.nanos < b.nanos ==> a.at_or_before(b) && !b.at_or_before(a),
        a.at_or_before(a),
        a.at_or_before(b) || b.at_or_before(a),
        a.at_or_before(b) && b.at_or_before(a) ==> a == b,
        a.at_or_before(b) && b.at_or_before(c) ==> a.at_or_before(c),
{
}

/// A record whose text names a time has that time, whatever the time is now; any other
/// has the time at which it is taken in.
pub proof fn law_records_keep_the_time_they_name(
    parsed: Option<(i64, u32)>,
    now: Timestamp,
    later: Timestamp,
)
    ensures
        parsed matches Some(p) ==> recorded_time(parsed, now).secs == p.0 && recorded_time(
            parsed,
            now,
        ).nanos == p.1 && recorded_time(parsed, now) == recorded_time(parsed, later),
        parsed is None ==> recorded_time(parsed, now) == now,
{
}

} // verus!
