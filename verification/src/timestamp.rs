//! Instants as RFC 3339 text, written by the `chrono` crate.

use chrono::DateTime;
use vstd::prelude::*;

verus! {

/// The text of the instant that lies `secs` seconds and `nanos` nanoseconds
/// after the beginning of the year 1970, in RFC 3339 with the offset of
/// UTC, as `chrono` writes it; `None` where `chrono` holds no such instant.
pub uninterp spec fn rfc3339_utc(secs: i64, nanos: u32) -> Option<Seq<char>>;

/// Writes an instant as text.
///
/// Trusted: `DateTime::from_timestamp` gives the instant of a Unix
/// timestamp, or `None` where the timestamp is out of its range, and
/// `DateTime::to_rfc3339` writes an instant as text. Both depend on their
/// arguments alone, so the text has a name: `rfc3339_utc`.
#[verifier::external_body]
pub(crate) fn write_rfc3339_utc(secs: i64, nanos: u32) -> (r: Option<String>)
    ensures
        r is Some <==> rfc3339_utc(secs, nanos) is Some,
        r matches Some(text) ==> rfc3339_utc(secs, nanos) == Some(text@),
{
    match DateTime::from_timestamp(secs, nanos) {
        Some(instant) => Some(instant.to_rfc3339()),
        None => None,
    }
}

} // verus!
