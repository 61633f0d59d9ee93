//! Fresh identities and the clock.

use vstd::prelude::*;

verus! {

/// Relies on uuid::Uuid::new_v4: a random (version 4) identity, taken as its
/// 128-bit value. Nothing is known of which value comes back.
#[verifier::external_body]
pub(crate) fn new_id() -> (r: u128) {
    uuid::Uuid::new_v4().as_u128()
}

/// Relies on chrono::Utc::now: the current time, in microseconds since the
/// Unix epoch. Nothing is known of which value comes back.
#[verifier::external_body]
pub(crate) fn now_micros() -> (r: i64) {
    chrono::Utc::now().timestamp_micros()
}

} // verus!
