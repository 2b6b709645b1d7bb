//! What the timer takes from the monotonic clock of `std::time`.

use std::time::{Duration, Instant};
use vstd::prelude::*;

verus! {

/// `std::time::Instant`, a reading of the monotonic clock. The timer stores
/// one and hands it back; nothing is known of what it holds.
#[verifier::external_type_specification]
#[verifier::external_body]
pub struct ExInstant(std::time::Instant);

/// `Instant::elapsed`: the time that has passed on the monotonic clock since
/// `start` was read. The result depends on the moment of the call, so nothing
/// is claimed of it.
pub assume_specification[ Instant::elapsed ](start: &Instant) -> Duration;

/// `Duration::as_secs`: the whole seconds of a duration. A duration is opaque
/// here, so nothing is claimed of the result.
pub assume_specification[ Duration::as_secs ](duration: &Duration) -> u64;

} // verus!
