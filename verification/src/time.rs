//! Timestamp text: RFC 3339 rendering of millisecond clock values.

use vstd::prelude::*;

verus! {

/// The last millisecond of the year 9999. Clock values rendered as text must
/// lie between the epoch and this bound, which chrono accepts.
pub const MAX_TIMESTAMP_MILLIS: i64 = 253402300799999;

/// The RFC 3339 rendering of a millisecond timestamp.
pub uninterp spec fn rfc3339_of(millis: int) -> Seq<char>;

/// Relies on chrono's `DateTime::<Utc>::from_timestamp_millis` and
/// `DateTime::to_rfc3339`: the text is a function of the millisecond value
/// alone, and every value from the epoch through the year 9999 is in range
/// (chrono rejects only timestamps further than about 262,000 years from the
/// common era).
#[verifier::external_body]
pub(crate) fn rfc3339_string(millis: i64) -> (r: String)
    requires
        0 <= millis <= MAX_TIMESTAMP_MILLIS,
    ensures
        r@ == rfc3339_of(millis as int),
{
    chrono::DateTime::<chrono::Utc>::from_timestamp_millis(millis).unwrap().to_rfc3339()
}

} // verus!
