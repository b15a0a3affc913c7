//! Trusted shims for values only the environment can produce: the current
//! time and fresh identifiers.

use vstd::prelude::*;

verus! {

/// Relies on `chrono::Local::now`: the wall-clock instant, in milliseconds
/// since the epoch. Nothing can be promised of a clock reading.
#[verifier::external_body]
pub fn now_millis() -> i64 {
    chrono::Local::now().timestamp_millis()
}

/// Relies on `uuid::Uuid::new_v4`: a random (version 4) identifier.
/// Nothing can be promised of a random value.
#[verifier::external_body]
pub fn fresh_id() -> u128 {
    uuid::Uuid::new_v4().as_u128()
}

} // verus!
