//! The time of day, for the timestamps of buckets and objects.

use vstd::prelude::*;
use crate::models::Timestamp;

verus! {

/// `chrono::Utc::now`, as seconds since the Unix epoch and nanoseconds: the
/// system clock's time. Nothing is claimed of the value. The call panics on a
/// machine whose clock stands before 1970.
#[verifier::external_body]
pub(crate) fn current_time() -> (now: Timestamp) {
    let now = chrono::Utc::now();
    Timestamp { secs: now.timestamp(), nanos: now.timestamp_subsec_nanos() }
}

} // verus!
