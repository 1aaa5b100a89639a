//! The one place where the library reads the time.

use vstd::prelude::*;

verus! {

/// The current time in milliseconds since the epoch, as chrono's `Utc::now`
/// followed by `DateTime::timestamp_millis` gives it.
///
/// Nothing is claimed of the value: it is whatever the system clock says, and
/// two calls need not agree. chrono panics where the clock cannot be turned
/// into a date at all.
#[verifier::external_body]
pub(crate) fn now_millis() -> (now: i64) {
    chrono::Utc::now().timestamp_millis()
}

} // verus!
