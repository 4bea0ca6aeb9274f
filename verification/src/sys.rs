//! Trusted bindings to the process's surroundings: fresh identifiers, the
//! clock, and the home directory. Nothing is promised of their results
//! beyond their types; callers state what holds of every outcome.

use vstd::prelude::*;

verus! {

/// Relies on `uuid::Uuid::new_v4`: a freshly generated random 128-bit
/// identifier. Nothing is promised of its value.
#[verifier::external_body]
pub(crate) fn fresh_id_128() -> (r: u128) {
    uuid::Uuid::new_v4().as_u128()
}

/// Relies on `std::time::SystemTime::now`: the wall clock as milliseconds
/// since the epoch, zero when the clock reads before the epoch. Nothing is
/// promised of its value.
#[verifier::external_body]
pub(crate) fn now_ms_epoch() -> (r: i64) {
    match std::time::SystemTime::now().duration_since(std::time::UNIX_EPOCH) {
        Ok(d) => d.as_millis() as i64,
        Err(_) => 0,
    }
}

/// Relies on `dirs::home_dir`: the user's home directory rendered as a
/// string, when the platform reports one. Nothing is promised of its value.
#[verifier::external_body]
pub(crate) fn home_dir_string() -> (r: Option<String>) {
    match dirs::home_dir() {
        Some(p) => Some(p.to_string_lossy().into_owned()),
        None => None,
    }
}

} // verus!
