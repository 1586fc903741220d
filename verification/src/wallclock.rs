//! The time of day, as milliseconds since the start of 1970 in UTC.

use chrono::Utc;
use vstd::prelude::*;

verus! {

/// `Utc::now` and `DateTime::timestamp_millis` of `chrono`: the time of the
/// call. Nothing is claimed of it.
#[verifier::external_body]
pub(crate) fn unix_millis_now() -> i64 {
    Utc::now().timestamp_millis()
}

} // verus!
