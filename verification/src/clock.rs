//! Timestamp formatting. Instants are carried through the library as
//! milliseconds since the Unix epoch; turning one into an RFC 3339 string is
//! chrono's work and is the one trusted call of this module.

use vstd::prelude::*;

verus! {

/// Upper bound (exclusive) on the instants the library handles: the first
/// millisecond of year 10000. Every timestamp a supervisor stores stays
/// below it, which keeps RFC 3339 rendering well-defined.
pub const MAX_TIMESTAMP_MILLIS: i64 = 253_402_300_800_000;

/// The RFC 3339 rendering, in UTC, of an instant given as milliseconds since
/// the Unix epoch. The rendering depends on the instant alone.
pub uninterp spec fn rfc3339_of(ms: int) -> Seq<char>;

/// Relies on chrono's `DateTime::<Utc>::from_timestamp_millis`, which gives a
/// date for every in-range instant, and on `DateTime::to_rfc3339`, whose
/// result is a function of that date alone.
#[verifier::external_body]
pub(crate) fn format_rfc3339_millis(ms: i64) -> (r: String)
    requires
        0 <= ms < MAX_TIMESTAMP_MILLIS,
    ensures
        r@ == rfc3339_of(ms as int),
{
    match chrono::DateTime::<chrono::Utc>::from_timestamp_millis(ms) {
        Some(dt) => dt.to_rfc3339(),
        None => String::new(),
    }
}

} // verus!
