//! Timed-event scheduling, precision dispatch and concurrent raw-input
//! capture for keystroke-timing experiments.
//!
//! The library works in whole microseconds throughout: raw records carry
//! per-key hold and gap durations, the schedule compiler turns them into
//! ordered lists of absolute key-event offsets, the dispatcher walks such a
//! list pacing itself with a spin-wait delay primitive, and a capture
//! session collects observed events up to an exact target count.

pub mod capture;
pub mod codec;
pub mod controller;
pub mod delay;
pub mod dispatch;
pub mod errors;
pub mod freetext;
pub mod keys;
pub mod numbers;
pub mod row;
pub mod schedule;
pub mod simulate;
