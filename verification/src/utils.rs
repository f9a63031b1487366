//! The wall clock, for stamping `created_at_ms` of fresh entries.

use vstd::prelude::*;

verus! {

/// Relies on `std::time::SystemTime::now`: the wall clock, in milliseconds
/// since the Unix epoch.  Nothing is promised of the value; a caller hands
/// it to [`crate::engine::ReconcilePass::start`] once per pass.
#[verifier::external_body]
pub fn get_current_timestamp() -> i64 {
    match std::time::SystemTime::now().duration_since(std::time::UNIX_EPOCH) {
        Ok(d) => d.as_millis() as i64,
        Err(_) => 0,
    }
}

} // verus!
