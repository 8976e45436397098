//! The clock.

use vstd::prelude::*;
use crate::Timestamp;

verus! {

/// Calls `chrono::Utc::now` and converts the moment with
/// `DateTime::timestamp_micros`. Nothing is claimed of the value: two readings
/// may come back in any order. `Utc::now` itself gives up on a machine whose
/// clock stands before 1970.
#[verifier::external_body]
pub(crate) fn now() -> Timestamp {
    chrono::Utc::now().timestamp_micros()
}

} // verus!
