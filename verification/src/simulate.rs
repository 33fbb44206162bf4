//! Decisions of the optional input-simulator thread.
//!
//! The simulator injects synthetic presses of the `0` key until the
//! capture session completes. The injection itself and the pacing sleep
//! between presses happen outside the library; what the library decides
//! is how long a simulated press is held and how many capture units one
//! press produces.

use vstd::prelude::*;

verus! {

/// Relies on rand::Rng::gen_range over rand::thread_rng: a uniformly
/// random value drawn from `lo..hi`. gen_range panics on an empty range,
/// so the range is required non-empty; its documentation promises a value
/// inside the range, and of a random result nothing more can be promised.
#[verifier::external_body]
fn random_in_range(lo: u64, hi: u64) -> (r: u64)
    requires
        lo < hi,
    ensures
        lo <= r < hi,
{
    rand::Rng::gen_range(&mut rand::thread_rng(), lo..hi)
}

/// The hold time of one simulated extended-mode key press: drawn fresh
/// for every press, between 90 and 200 milliseconds.
pub fn simulated_hold_micros() -> (r: u64)
    ensures
        90_000 <= r < 200_000,
{
    random_in_range(90_000, 200_000)
}

/// How many capture units one simulated press produces: in extended mode
/// the release is captured too, so a press counts twice.
pub fn simulated_units(extended: bool) -> (r: usize)
    ensures
        r == (if extended {
            2int
        } else {
            1int
        }),
{
    if extended {
        2
    } else {
        1
    }
}

} // verus!
