//! The raw-input capture session.
//!
//! A session collects observed key events into a buffer until an exact
//! target count is reached. The buffer never exceeds the target: the
//! offer that fills it flips the completion flag, and every later offer
//! discards its event — capture is exact-count, never count-plus-one. The
//! threads around the session (the hook listener, the optional simulator,
//! the polling controller) live outside the library; they only call
//! `offer`, `is_completed` and `drain` under their own synchronization.

use vstd::prelude::*;
use crate::errors::SimError;

verus! {

/// Which way a captured key went.
#[derive(Clone, Copy, Debug, PartialEq, Eq, Structural)]
pub enum Direction {
    Down,
    Up,
}

/// One observed input event: when it arrived (microseconds since capture
/// start), which way the key went, and the raw key code.
#[derive(Clone, Copy, Debug, PartialEq, Eq, Structural)]
pub struct CapturedEvent {
    pub elapsed_micros: u64,
    pub direction: Direction,
    pub code: u8,
}

/// What one offer does to a capture buffer: append below the target,
/// discard at it.
pub open spec fn spec_offer_buffer(
    buf: Seq<CapturedEvent>,
    target: nat,
    e: CapturedEvent,
) -> Seq<CapturedEvent> {
    if buf.len() < target {
        buf.push(e)
    } else {
        buf
    }
}

/// A whole stream of offers, applied in order.
pub open spec fn spec_offer_all(
    buf: Seq<CapturedEvent>,
    target: nat,
    events: Seq<CapturedEvent>,
) -> Seq<CapturedEvent>
    decreases events.len(),
{
    if events.len() == 0 {
        buf
    } else {
        spec_offer_all(spec_offer_buffer(buf, target, events[0]), target, events.skip(1))
    }
}

pub struct CaptureSession {
    buffer: Vec<CapturedEvent>,
    target_count: usize,
    completed: bool,
    extended: bool,
}

impl CaptureSession {
    pub closed spec fn buffer_model(self) -> Seq<CapturedEvent> {
        self.buffer@
    }

    pub closed spec fn target(self) -> nat {
        self.target_count as nat
    }

    pub closed spec fn is_complete(self) -> bool {
        self.completed
    }

    pub closed spec fn is_extended(self) -> bool {
        self.extended
    }

    /// The session invariant: the buffer never exceeds the target, and the
    /// completion flag is set exactly when the buffer is full.
    pub open spec fn wf(self) -> bool {
        self.buffer_model().len() <= self.target() && (self.is_complete()
            <==> self.buffer_model().len() == self.target())
    }

    /// Starts a session expecting `inputs` captures. Extended mode records
    /// releases as well as presses, so each input counts as two units and
    /// the target doubles.
    pub fn new(inputs: usize, extended: bool) -> (s: CaptureSession)
        requires
            inputs <= usize::MAX / 2,
        ensures
            s.wf(),
            s.buffer_model() == Seq::<CapturedEvent>::empty(),
            s.target() == (if extended {
                2 * inputs as int
            } else {
                inputs as int
            }),
            s.is_extended() == extended,
            s.is_complete() == (s.target() == 0),
    {
        let target = if extended {
            inputs * 2
        } else {
            inputs
        };
        CaptureSession {
            buffer: Vec::new(),
            target_count: target,
            completed: target == 0,
            extended,
        }
    }

    /// Whether a hook event of this direction belongs in the session:
    /// presses always, releases only in extended mode.
    pub fn matches(&self, direction: Direction) -> (r: bool)
        ensures
            r == (direction == Direction::Down || self.is_extended()),
    {
        match direction {
            Direction::Down => true,
            Direction::Up => self.extended,
        }
    }

    /// Offers one event. Below the target the event is appended, and the
    /// append that reaches the target sets the completion flag; at the
    /// target the event is discarded. The flag, once set, never clears.
    pub fn offer(&mut self, event: CapturedEvent) -> (accepted: bool)
        requires
            old(self).wf(),
        ensures
            final(self).wf(),
            final(self).target() == old(self).target(),
            final(self).is_extended() == old(self).is_extended(),
            accepted == (old(self).buffer_model().len() < old(self).target()),
            final(self).buffer_model() == spec_offer_buffer(
                old(self).buffer_model(),
                old(self).target(),
                event,
            ),
            final(self).is_complete() == (final(self).buffer_model().len() == old(
                self,
            ).target()),
            old(self).is_complete() ==> final(self).is_complete(),
    {
        if self.buffer.len() < self.target_count {
            self.buffer.push(event);
            if self.buffer.len() == self.target_count {
                self.completed = true;
            }
            true
        } else {
            self.completed = true;
            false
        }
    }

    /// Whether the target has been reached; what the controller polls.
    pub fn is_completed(&self) -> (r: bool)
        ensures
            r == self.is_complete(),
    {
        self.completed
    }

    pub fn captured_len(&self) -> (r: usize)
        ensures
            r == self.buffer_model().len(),
    {
        self.buffer.len()
    }

    pub fn target_count(&self) -> (r: usize)
        ensures
            r == self.target(),
    {
        self.target_count
    }

    /// Takes the buffer for export. Succeeds exactly when the session has
    /// completed, and then hands out exactly `target()` events — under the
    /// invariant a count mismatch cannot happen, and an incomplete session
    /// reports `CaptureCountMismatch` instead of a short buffer. The
    /// drained session is empty with a target of zero.
    pub fn drain(&mut self) -> (r: Result<Vec<CapturedEvent>, SimError>)
        requires
            old(self).wf(),
        ensures
            final(self).wf(),
            match r {
                Ok(events) => {
                    &&& old(self).is_complete()
                    &&& events@ == old(self).buffer_model()
                    &&& events@.len() == old(self).target()
                    &&& final(self).buffer_model() == Seq::<CapturedEvent>::empty()
                    &&& final(self).target() == 0
                },
                Err(e) => e == SimError::CaptureCountMismatch && !old(self).is_complete()
                    && *final(self) == *old(self),
            },
    {
        if !self.completed {
            return Err(SimError::CaptureCountMismatch);
        }
        let mut buffer: Vec<CapturedEvent> = Vec::new();
        core::mem::swap(&mut buffer, &mut self.buffer);
        self.target_count = 0;
        Ok(buffer)
    }
}

/// Law: capture is exact-count. Feeding any stream of events into an
/// empty session's buffer never grows it past the target, and once the
/// buffer is full it never changes again.
pub proof fn lemma_capture_never_exceeds(
    buf: Seq<CapturedEvent>,
    target: nat,
    events: Seq<CapturedEvent>,
)
    requires
        buf.len() <= target,
    ensures
        spec_offer_all(buf, target, events).len() <= target,
        buf.len() == target ==> spec_offer_all(buf, target, events) == buf,
    decreases events.len(),
{
    if events.len() > 0 {
        lemma_capture_never_exceeds(spec_offer_buffer(buf, target, events[0]), target, events.skip(1));
    }
}

/// Law: capture completes after exactly the target number of offers.
/// Offering at least `target` events to an empty buffer fills it to
/// exactly `target` — the events beyond the target produce no growth.
pub proof fn lemma_capture_exact_count(target: nat, events: Seq<CapturedEvent>)
    requires
        events.len() >= target,
    ensures
        spec_offer_all(Seq::<CapturedEvent>::empty(), target, events).len() == target,
{
    lemma_capture_fills(Seq::<CapturedEvent>::empty(), target, events);
}

proof fn lemma_capture_fills(buf: Seq<CapturedEvent>, target: nat, events: Seq<CapturedEvent>)
    requires
        buf.len() <= target,
        buf.len() + events.len() >= target,
    ensures
        spec_offer_all(buf, target, events).len() == target,
    decreases events.len(),
{
    if events.len() > 0 {
        lemma_capture_fills(spec_offer_buffer(buf, target, events[0]), target, events.skip(1));
    }
}

} // verus!
