//! The one place the library reads the wall clock.

use vstd::prelude::*;

verus! {

/// Relies on chrono's `Utc::now().timestamp_millis()`: the current wall
/// clock in milliseconds since the epoch. Nothing is promised of the
/// value; callers state what holds of every outcome.
#[verifier::external_body]
pub fn now_millis() -> i64 {
    chrono::Utc::now().timestamp_millis()
}

} // verus!
