//! Timestamps and their presentation. A timestamp is seconds since the Unix
//! epoch; rendering it as RFC 3339 text is delegated to chrono.

use vstd::prelude::*;

verus! {

/// The last representable second of year 9999: the span of timestamps this
/// library stores and formats.
pub const MAX_TIMESTAMP: i64 = 253402300799;

/// The RFC 3339 rendering of an instant: a pure function of the timestamp,
/// computed only by the formatter relied on below.
pub uninterp spec fn rfc3339_of(t: int) -> Seq<char>;

/// Relies on chrono::DateTime::from_timestamp (argument conversion; returns
/// `Some` for every non-negative timestamp up to year 9999) and
/// chrono::DateTime::to_rfc3339 (the text depends on the instant alone and
/// the rendering never fails).
#[verifier::external_body]
pub(crate) fn format_rfc3339(t: i64) -> (r: String)
    requires
        0 <= t <= MAX_TIMESTAMP,
    ensures
        r@ == rfc3339_of(t as int),
{
    match chrono::DateTime::<chrono::Utc>::from_timestamp(t, 0) {
        Some(d) => d.to_rfc3339(),
        None => String::new(),
    }
}

} // verus!
