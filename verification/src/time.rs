//! Timestamps for entry metadata. A `Timestamp` holds, as plain values,
//! everything the pipeline reads of a parsed RFC 3339 date-time: the instant
//! (for ordering), the calendar fields of the written date (for path
//! templates), and the canonical RFC 3339 rendering (for template data).
use vstd::prelude::*;

verus! {

/// A parsed RFC 3339 date-time.
#[derive(Debug)]
pub struct Timestamp {
    /// Seconds since the Unix epoch, in UTC.
    pub epoch_secs: i64,
    /// Nanoseconds past `epoch_secs`.
    pub subsec_nanos: u32,
    /// Calendar year as written (with its timezone offset applied).
    pub year: i32,
    /// Calendar month, 1 to 12.
    pub month: u32,
    /// Calendar day of month, 1 to 31.
    pub day: u32,
    /// The canonical RFC 3339 rendering of this date-time.
    pub rfc3339: String,
}

/// What `rfc3339_parse` yields for a parsable input: epoch seconds, subsecond
/// nanoseconds, year, month, day, and the canonical rendering.
pub type TimestampParts = (i64, u32, i32, u32, u32, Seq<char>);

/// The result of parsing a string as an RFC 3339 date-time, or `None` when
/// the string is not one. The parse is a pure function of the characters.
pub uninterp spec fn rfc3339_parse(s: Seq<char>) -> Option<TimestampParts>;

/// `t` holds exactly the parts `m`.
pub open spec fn ts_matches(t: Timestamp, m: TimestampParts) -> bool {
    &&& t.epoch_secs == m.0
    &&& t.subsec_nanos == m.1
    &&& t.year == m.2
    &&& t.month == m.3
    &&& t.day == m.4
    &&& t.rfc3339@ == m.5
}

/// `t` is the timestamp parsed from `s`.
pub open spec fn ts_parsed_from(t: Timestamp, s: Seq<char>) -> bool {
    match rfc3339_parse(s) {
        Some(m) => ts_matches(t, m),
        None => false,
    }
}

/// `a` and `b` carry the same timestamp.
pub open spec fn ts_like(a: Timestamp, b: Timestamp) -> bool {
    &&& a.epoch_secs == b.epoch_secs
    &&& a.subsec_nanos == b.subsec_nanos
    &&& a.year == b.year
    &&& a.month == b.month
    &&& a.day == b.day
    &&& a.rfc3339@ == b.rfc3339@
}

/// The instant of `a` is no later than the instant of `b`.
pub open spec fn instant_le(a: Timestamp, b: Timestamp) -> bool {
    ||| a.epoch_secs < b.epoch_secs
    ||| (a.epoch_secs == b.epoch_secs && a.subsec_nanos <= b.subsec_nanos)
}

impl Timestamp {
    /// Whether this instant is no later than `other`.
    pub fn is_no_later_than(&self, other: &Timestamp) -> (r: bool)
        ensures
            r == instant_le(*self, *other),
    {
        self.epoch_secs < other.epoch_secs || (self.epoch_secs == other.epoch_secs
            && self.subsec_nanos <= other.subsec_nanos)
    }
}

impl Clone for Timestamp {
    fn clone(&self) -> (r: Self)
        ensures
            ts_like(r, *self),
    {
        Timestamp {
            epoch_secs: self.epoch_secs,
            subsec_nanos: self.subsec_nanos,
            year: self.year,
            month: self.month,
            day: self.day,
            rfc3339: self.rfc3339.clone(),
        }
    }
}

/// Relies on chrono's `DateTime::parse_from_rfc3339` to parse the string, and
/// on its `timestamp`, `timestamp_subsec_nanos`, `year`, `month`, `day` and
/// `to_rfc3339` to read the parsed value out as plain values. The parse
/// depends on the characters of `s` alone, so its outcome carries the name
/// `rfc3339_parse`.
#[verifier::external_body]
pub fn parse_rfc3339(s: &str) -> (r: Option<Timestamp>)
    ensures
        match r {
            Some(t) => rfc3339_parse(s@) matches Some(m) && ts_matches(t, m),
            None => rfc3339_parse(s@) is None,
        },
{
    match chrono::DateTime::parse_from_rfc3339(s) {
        Ok(dt) => Some(Timestamp {
            epoch_secs: dt.timestamp(),
            subsec_nanos: dt.timestamp_subsec_nanos(),
            year: chrono::Datelike::year(&dt),
            month: chrono::Datelike::month(&dt),
            day: chrono::Datelike::day(&dt),
            rfc3339: dt.to_rfc3339(),
        }),
        Err(_) => None,
    }
}

/// Relies on chrono's `Local::now`; nothing can be promised of the current
/// time, so this has no contract.
#[verifier::external_body]
pub fn now_timestamp() -> Timestamp {
    let dt = chrono::Local::now().fixed_offset();
    Timestamp {
        epoch_secs: dt.timestamp(),
        subsec_nanos: dt.timestamp_subsec_nanos(),
        year: chrono::Datelike::year(&dt),
        month: chrono::Datelike::month(&dt),
        day: chrono::Datelike::day(&dt),
        rfc3339: dt.to_rfc3339(),
    }
}

/// Relies on chrono's `Local::now` and `to_rfc3339_opts`; nothing can be
/// promised of the current time, so this has no contract.
#[verifier::external_body]
pub fn now_rfc3339_secs() -> String {
    chrono::Local::now().to_rfc3339_opts(chrono::SecondsFormat::Secs, false)
}

} // verus!
