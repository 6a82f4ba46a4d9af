use vstd::prelude::*;

verus! {

/// Milliseconds since the Unix epoch.
pub type Timestamp = i64;

/// Relies on `chrono::Utc::now` and `DateTime::timestamp_millis` for the
/// current time in milliseconds since the epoch. Nothing is promised of
/// the value: it is whatever the system clock says.
#[verifier::external_body]
pub(crate) fn now_millis() -> (r: Timestamp) {
    chrono::Utc::now().timestamp_millis()
}

} // verus!
