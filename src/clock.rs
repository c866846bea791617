use vstd::prelude::*;

verus! {

/// The current wall-clock time in epoch milliseconds.
///
/// Relies on chrono's `Utc::now` and `DateTime::timestamp_millis`; nothing is
/// promised of the value, which depends on the machine's clock.
#[verifier::external_body]
pub(crate) fn utc_now() -> i64 {
    chrono::Utc::now().timestamp_millis()
}

} // verus!
