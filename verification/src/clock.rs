//! Wall-clock readings at the library's edge.
//!
//! Time is an outside observation: nothing is promised about the values,
//! and every function whose behaviour depends on a reading also exists in a
//! form that takes the reading as an argument and is verified for all of them.

use vstd::prelude::*;

verus! {

/// Relies on chrono::Utc::now paired with DateTime::timestamp: the current
/// wall-clock time in whole seconds since the Unix epoch.
#[verifier::external_body]
pub(crate) fn now_seconds() -> i64 {
    chrono::Utc::now().timestamp()
}

/// Relies on chrono::Utc::now paired with DateTime::timestamp_millis: the
/// current wall-clock time in milliseconds since the Unix epoch.
#[verifier::external_body]
pub(crate) fn now_millis() -> i64 {
    chrono::Utc::now().timestamp_millis()
}

} // verus!
