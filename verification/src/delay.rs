//! The precision delay primitive and its monotonic clock.
//!
//! The clock itself is opaque: nothing can be promised about what a reading
//! returns, so the spin-wait's guarantee — the elapsed time it reports is at
//! least the requested duration — is proved from its control flow alone.

use vstd::prelude::*;
use crate::errors::SimError;

verus! {

/// Relies on std::time::Instant: an opaque reading of the monotonic clock,
/// carried through the library but never inspected by it.
#[verifier::external_type_specification]
#[verifier::external_body]
pub struct ExInstant(std::time::Instant);

/// Relies on std::time::Instant::now: an opaque reading of the monotonic
/// clock. Time-dependent, so nothing is promised of the result.
#[verifier::external_body]
pub fn monotonic_now() -> std::time::Instant {
    std::time::Instant::now()
}

/// Relies on std::time::Instant::elapsed: the time since `start`, in whole
/// microseconds, saturated to `u64::MAX`. Time-dependent, so nothing is
/// promised of the result.
#[verifier::external_body]
pub fn micros_since(start: &std::time::Instant) -> u64 {
    let micros = start.elapsed().as_micros();
    if micros > u64::MAX as u128 {
        u64::MAX
    } else {
        micros as u64
    }
}

/// Spin-wait: re-polls the monotonic clock in a tight loop until `micros`
/// microseconds have passed, then returns the true elapsed time, which is
/// always at least the requested duration. A zero duration returns
/// immediately with elapsed time zero. Used wherever sub-millisecond pacing
/// accuracy matters.
pub fn delay_busy(micros: u64) -> (elapsed: u64)
    ensures
        elapsed >= micros,
{
    if micros == 0 {
        return 0;
    }
    let start = monotonic_now();
    let mut elapsed = micros_since(&start);
    let mut fuel: u64 = u64::MAX;
    while elapsed < micros && fuel > 0
        decreases fuel,
    {
        fuel = fuel - 1;
        elapsed = micros_since(&start);
    }
    // A clock still short of the request after that many polls is stuck;
    // polling forever would change nothing, so report the request itself.
    if elapsed < micros {
        micros
    } else {
        elapsed
    }
}

/// Checks a signed duration before it is handed to a delay primitive: a
/// negative duration is a precondition violation and is rejected as
/// `InvalidDuration`, never silently clamped.
pub fn validate_duration(micros: i64) -> (r: Result<u64, SimError>)
    ensures
        micros >= 0 ==> r == Ok::<u64, SimError>(micros as u64),
        micros < 0 ==> r == Err::<u64, SimError>(SimError::InvalidDuration),
{
    if micros >= 0 {
        Ok(micros as u64)
    } else {
        Err(SimError::InvalidDuration)
    }
}

} // verus!
