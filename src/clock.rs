//! The wall clock, read through chrono.
use vstd::prelude::*;

verus! {

/// Relies on chrono's `From<SystemTime> for DateTime<Utc>` and
/// `DateTime::timestamp_millis`: the system time in milliseconds since the
/// Unix epoch, negative before it. Nothing is known of the value it returns.
#[verifier::external_body]
pub(crate) fn time_now() -> (r: i64) {
    chrono::DateTime::<chrono::Utc>::from(std::time::SystemTime::now()).timestamp_millis()
}

} // verus!
