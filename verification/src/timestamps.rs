//! Reading the creation times stored with billing rows.
//!
//! Rows store their creation time as RFC 3339 text. What instant a text names
//! is decided by `chrono`'s parser; where a row has no readable time, the
//! caller falls back to the current time, which stands outside the library.

use vstd::prelude::*;

verus! {

/// The instant that an RFC 3339 text names, as Unix seconds and the
/// nanoseconds within that second; `None` where the text does not parse.
pub uninterp spec fn rfc3339_instant(text: Seq<char>) -> Option<(i64, u32)>;

/// Calls `chrono::DateTime::parse_from_rfc3339` and takes `timestamp()` and
/// `timestamp_subsec_nanos()` of the parsed time. Trusted: the result depends
/// on the text alone and is `None` exactly where the parse fails; nothing more
/// is said of which texts parse.
#[verifier::external_body]
pub(crate) fn parse_rfc3339(text: &str) -> (r: Option<(i64, u32)>)
    ensures
        r == rfc3339_instant(text@),
{
    match chrono::DateTime::parse_from_rfc3339(text) {
        Ok(dt) => Some((dt.timestamp(), dt.timestamp_subsec_nanos())),
        Err(_) => None,
    }
}

/// The instant stored in a row's creation-time column: `None` where the column
/// could not be read as text, else the instant its text names, if any.
pub fn stored_instant(column: Option<&str>) -> (r: Option<(i64, u32)>)
    ensures
        r == (match column {
            Some(t) => rfc3339_instant(t@),
            None => None,
        }),
{
    match column {
        Some(t) => parse_rfc3339(t),
        None => None,
    }
}

} // verus!
