use vstd::prelude::*;

verus! {

/// Wall-clock time in microseconds since the Unix epoch.
///
/// Relies on chrono's `Utc::now` together with `DateTime::timestamp_micros`;
/// nothing is assumed about the value that comes back.
#[verifier::external_body]
pub(crate) fn now_micros() -> i64 {
    chrono::Utc::now().timestamp_micros()
}

} // verus!
