//! Publication timestamps, modelled as seconds and nanoseconds since the Unix
//! epoch, with the RFC 3339 rendering and parsing done by chrono behind
//! trusted wrappers.
use crate::strutil::is_space_char;
use vstd::prelude::*;

verus! {

/// Latest second representable here: 9999-12-31T23:59:59 UTC, so that every
/// well-formed timestamp renders as a four-digit-year RFC 3339 string.
pub const MAX_TIMESTAMP_SECS: i64 = 253_402_300_799;

/// A UTC timestamp: seconds since the Unix epoch plus a subsecond part.
#[derive(Clone, Copy, Debug, PartialEq, Eq, Structural)]
pub struct Timestamp {
    /// Non-leap seconds since 1970-01-01T00:00:00Z.
    pub secs: i64,
    /// Nanoseconds within the second.
    pub nanos: u32,
}

impl Timestamp {
    /// A timestamp this module can render and reparse losslessly.
    pub open spec fn wf(self) -> bool {
        0 <= self.secs <= MAX_TIMESTAMP_SECS && self.nanos < 1_000_000_000
    }

    /// Builds a timestamp, rejecting one outside the renderable range.
    pub fn new(secs: i64, nanos: u32) -> (r: Option<Timestamp>)
        ensures
            match r {
                Some(t) => t.wf() && t.secs == secs && t.nanos == nanos,
                None => !(Timestamp { secs, nanos }).wf(),
            },
    {
        if 0 <= secs && secs <= MAX_TIMESTAMP_SECS && nanos < 1_000_000_000 {
            Some(Timestamp { secs, nanos })
        } else {
            None
        }
    }

    /// The timestamp as a single nanosecond count, for comparisons.
    pub open spec fn as_nanos(self) -> int {
        self.secs * 1_000_000_000 + self.nanos
    }
}

/// What chrono renders for the given epoch seconds and nanoseconds, through
/// [`format_rfc3339`].
pub uninterp spec fn rfc3339_of(secs: int, nanos: int) -> Seq<char>;

/// What chrono parses out of an RFC 3339 string, as UTC epoch seconds and
/// nanoseconds, through [`parse_rfc3339`].
pub uninterp spec fn rfc3339_parse(s: Seq<char>) -> Option<(i64, u32)>;

/// Relies on `chrono::DateTime::from_timestamp` and `DateTime::to_rfc3339`:
/// the rendering is a function of the fields alone; an RFC 3339 string
/// contains no whitespace and is never the literal `not_found`; and, per
/// chrono's documentation, parsing the rendering of an in-range timestamp
/// gives the timestamp back.
#[verifier::external_body]
pub fn format_rfc3339(t: &Timestamp) -> (r: String)
    ensures
        r@ == rfc3339_of(t.secs as int, t.nanos as int),
        forall|i: int| 0 <= i < r@.len() ==> !is_space_char(#[trigger] r@[i]),
        r@ != "not_found"@,
        t.wf() ==> r@.len() > 0 && rfc3339_parse(r@) == Some((t.secs, t.nanos)),
{
    match chrono::DateTime::from_timestamp(t.secs, t.nanos) {
        Some(dt) => dt.to_rfc3339(),
        None => String::new(),
    }
}

/// Relies on `chrono::DateTime::parse_from_rfc3339`: the result is a function
/// of the input characters alone.
#[verifier::external_body]
pub fn parse_rfc3339(s: &str) -> (r: Option<Timestamp>)
    ensures
        r == match rfc3339_parse(s@) {
            Some(p) => Some(Timestamp { secs: p.0, nanos: p.1 }),
            None => None::<Timestamp>,
        },
{
    match chrono::DateTime::parse_from_rfc3339(s) {
        Ok(dt) => {
            let utc = dt.with_timezone(&chrono::Utc);
            Some(Timestamp { secs: utc.timestamp(), nanos: utc.timestamp_subsec_nanos() })
        },
        Err(_) => None,
    }
}

} // verus!
