//! Access to the wall clock.

use vstd::prelude::*;

verus! {

/// Relies on `bson::DateTime::now`: the current wall-clock time,
/// converted to milliseconds since the Unix epoch. Nothing is assumed
/// about the value returned.
#[verifier::external_body]
pub(crate) fn now_timestamp_millis() -> i64 {
    bson::DateTime::now().timestamp_millis()
}

} // verus!
