//! Identifiers and timestamps, the two values the crate draws from outside.

use vstd::prelude::*;

verus! {

/// The bits that mark an identifier as a random (version 4) UUID of the
/// standard variant: the version nibble is 4 and the two variant bits are
/// `10`.
pub open spec fn is_random_id(id: u128) -> bool {
    id & 0x0000_0000_0000_f000_c000_0000_0000_0000u128
        == 0x0000_0000_0000_4000_8000_0000_0000_0000u128
}

/// Draws a fresh random identifier.
///
/// Calls `uuid::Uuid::new_v4` and packs the sixteen bytes into an integer
/// with `Uuid::as_u128`. Trusted: the value is random, so the contract only
/// records the version and variant bits that `new_v4` sets on every result.
/// `new_v4` itself stops the program if the system has no random bytes to
/// give.
#[verifier::external_body]
pub(crate) fn fresh_id() -> (id: u128)
    ensures
        is_random_id(id),
{
    uuid::Uuid::new_v4().as_u128()
}

/// Reads the wall clock as microseconds since the Unix epoch.
///
/// Calls `chrono::Utc::now` and `DateTime::timestamp_micros`. Trusted, and
/// nothing is promised of the value: the clock may stand still or step
/// backwards between two calls. `Utc::now` itself stops the program if the
/// system clock is set before 1970.
#[verifier::external_body]
pub(crate) fn now_micros() -> i64 {
    chrono::Utc::now().timestamp_micros()
}

} // verus!
