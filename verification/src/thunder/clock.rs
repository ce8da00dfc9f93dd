//! The clocks of the machine.

use std::time::{Instant, SystemTime, UNIX_EPOCH};
use vstd::prelude::*;

verus! {

/// The monotonic clock reading of `std`.
#[verifier::external_type_specification]
#[verifier::external_body]
pub struct ExInstant(Instant);

/// `SystemTime::now` in whole seconds since the Unix epoch, 0 before it.
/// Nothing is stated of the result: it is whatever the clock shows.
#[verifier::external_body]
pub(crate) fn unix_seconds() -> (now: u64) {
    SystemTime::now().duration_since(UNIX_EPOCH).unwrap_or_default().as_secs()
}

/// `Instant::elapsed` in whole milliseconds. Nothing is stated of the result:
/// it is whatever the clock shows.
#[verifier::external_body]
pub(crate) fn elapsed_millis(start: &Instant) -> (millis: u128) {
    start.elapsed().as_millis()
}

} // verus!
