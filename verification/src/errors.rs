//! Failure taxonomy of the simulation and capture core.

use vstd::prelude::*;

verus! {

/// Everything that can go wrong while compiling, dispatching or capturing.
///
/// - `InvalidDuration`: a negative delay was requested; callers of the delay
///   primitives must never pass one.
/// - `MalformedRecord`: a raw record cannot be scheduled (odd token count,
///   unparsable number, or a timestamp outside the wrapping clock's range).
/// - `UnmappableKeyCode`: a raw key code has no key mapping; recoverable by
///   substituting the placeholder key, but flagged.
/// - `InjectionFailure`: the OS refused to synthesize an event; logged,
///   the schedule continues.
/// - `TimingDriftExceeded`: observed dispatch drift left the allowed band;
///   a diagnostic unless the dispatcher runs in strict mode.
/// - `CaptureCountMismatch`: a capture buffer ended with a length other
///   than its target count; indicates a synchronization bug.
#[derive(Clone, Copy, Debug, PartialEq, Eq, Structural)]
pub enum SimError {
    InvalidDuration,
    MalformedRecord,
    UnmappableKeyCode,
    InjectionFailure,
    TimingDriftExceeded,
    CaptureCountMismatch,
}

/// A plain textual error, kept for callers that only want a message.
#[derive(Debug, Clone)]
pub struct Error(pub String);

impl Error {
    pub fn new(message: String) -> (r: Error)
        ensures
            r.0@ == message@,
    {
        Error(message)
    }

    /// The stored message; stands in for a `Display` implementation.
    pub fn message(&self) -> (r: &str)
        ensures
            r@ == self.0@,
    {
        self.0.as_str()
    }
}

} // verus!
