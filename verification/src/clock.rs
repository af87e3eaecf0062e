//! The time of day.

use vstd::prelude::*;

verus! {

/// `chrono::Utc::now` and `DateTime::timestamp_micros`: the microseconds since the
/// start of 1970. Nothing is claimed of the result.
#[verifier::external_body]
pub(crate) fn now_micros() -> (micros: i64) {
    chrono::Utc::now().timestamp_micros()
}

/// `chrono::Utc::now` and `DateTime::to_rfc3339`: the time of day as text. Nothing
/// is claimed of the result.
#[verifier::external_body]
pub(crate) fn now_rfc3339() -> (timestamp: String) {
    chrono::Utc::now().to_rfc3339()
}

} // verus!
