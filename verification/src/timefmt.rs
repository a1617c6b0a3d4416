//! Rendering of creation instants as RFC 3339 text.
//!
//! A creation instant is held as microseconds since the Unix epoch; the
//! calendar arithmetic behind the rendered text is left to chrono.

use vstd::prelude::*;

verus! {

/// The RFC 3339 rendering of an instant, as chrono produces it for a UTC
/// timestamp of the given number of microseconds since the Unix epoch.
/// The rendering is a pure function of the microsecond value, so it is
/// given a name here rather than a calendar definition.
pub uninterp spec fn rfc3339_of(micros: int) -> Seq<char>;

/// Instants the service works with: from the Unix epoch to the end of
/// year 9999, comfortably inside chrono's representable range.
pub open spec fn timestamp_in_range(micros: int) -> bool {
    0 <= micros <= 253_402_300_799_999_999
}

/// Whether an instant lies in the range the service renders.
pub fn is_timestamp_in_range(micros: i64) -> (r: bool)
    ensures
        r == timestamp_in_range(micros as int),
{
    0 <= micros && micros <= 253_402_300_799_999_999
}

/// Relies on chrono's `DateTime::from_timestamp_micros` and
/// `DateTime::to_rfc3339`: every instant between the epoch and year 9999
/// is representable, and the rendered text depends on the microsecond
/// value alone.
#[verifier::external_body]
pub fn rfc3339_utc_string(micros: i64) -> (r: Option<String>)
    ensures
        r matches Some(s) ==> s@ == rfc3339_of(micros as int),
        timestamp_in_range(micros as int) ==> r is Some,
{
    chrono::DateTime::<chrono::Utc>::from_timestamp_micros(micros).map(|d| d.to_rfc3339())
}

} // verus!
