use vstd::prelude::*;

verus! {

/// Relies on chrono::Utc::now and DateTime::timestamp_millis: the current
/// time, in milliseconds since the Unix epoch.
#[verifier::external_body]
pub(crate) fn now_millis() -> (r: i64) {
    chrono::Utc::now().timestamp_millis()
}

} // verus!
