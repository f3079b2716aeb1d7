//! The wall clock.

use vstd::prelude::*;

verus! {

/// Relies on chrono's `From<SystemTime>` for `DateTime<Utc>` (which accepts
/// times before 1970) and DateTime::timestamp_millis: the wall-clock time in
/// milliseconds since the Unix epoch. Nothing is promised of the value.
#[verifier::external_body]
pub(crate) fn now_millis() -> (r: i64) {
    chrono::DateTime::<chrono::Utc>::from(std::time::SystemTime::now()).timestamp_millis()
}

/// The wall-clock time in whole seconds since the Unix epoch.
pub(crate) fn now_seconds() -> (r: i64) {
    now_millis() / 1000
}

} // verus!
