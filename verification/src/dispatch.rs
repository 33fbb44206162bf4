//! The precision dispatcher.
//!
//! A dispatcher walks a sorted action schedule step by step. Each call to
//! `next_action` spin-waits the gap from the previous action's offset and
//! then hands the action out for the caller to inject, together with the
//! observed timing: the cumulative elapsed time is meant to stay within a
//! bounded drift of the action's nominal offset, and an action whose drift
//! leaves the band is flagged — a recorded diagnostic, fatal only to
//! callers that choose strict mode. What is proved: the busy-waits alone
//! account for at least every nominal offset, so a schedule can never
//! finish early.

use vstd::prelude::*;
use crate::delay::{delay_busy, micros_since, monotonic_now};
use crate::schedule::{schedule_sorted, Event};

verus! {

/// One dispatched action and its observed timing.
#[derive(Clone, Copy, Debug)]
pub struct DispatchStep {
    pub event: Event,
    /// Position of the action in the schedule.
    pub index: usize,
    /// The action's scheduled offset, microseconds from schedule start.
    pub nominal_micros: u64,
    /// Observed elapsed time at hand-out, microseconds from schedule start.
    pub took_micros: u64,
    /// Whether the observed drift left the allowed band.
    pub drift_exceeded: bool,
}

/// Whether an observed time drifts too far from its nominal offset: the
/// band widens by one tolerance per dispatched action, so slack is allowed
/// to accumulate but not to grow faster than linearly.
pub open spec fn spec_drift_exceeded(nominal: u64, took: u64, index: int, tolerance: u64) -> bool {
    let diff = if took >= nominal {
        took - nominal
    } else {
        nominal - took
    };
    diff > (index + 1) * tolerance
}

pub fn drift_exceeded(nominal: u64, took: u64, index: usize, tolerance: u64) -> (r: bool)
    ensures
        r == spec_drift_exceeded(nominal, took, index as int, tolerance),
{
    let diff: u64 = if took >= nominal {
        took - nominal
    } else {
        nominal - took
    };
    proof {
        assert((index as int + 1) * (tolerance as int) <= u128::MAX) by (nonlinear_arith)
            requires
                index as int <= u64::MAX as int,
                tolerance as int <= u64::MAX as int,
        ;
    }
    let bound: u128 = (index as u128 + 1) * tolerance as u128;
    diff as u128 > bound
}

pub struct Dispatcher {
    schedule: Vec<Event>,
    pos: usize,
    start: std::time::Instant,
    waited_micros: u64,
    tolerance_micros: u64,
}

impl Dispatcher {
    pub closed spec fn schedule_model(self) -> Seq<Event> {
        self.schedule@
    }

    pub closed spec fn pos_spec(self) -> int {
        self.pos as int
    }

    /// Total time the dispatcher's own busy-waits have reported, saturated
    /// at `u64::MAX`.
    pub closed spec fn waited(self) -> u64 {
        self.waited_micros
    }

    pub closed spec fn tolerance(self) -> u64 {
        self.tolerance_micros
    }

    /// The dispatcher invariant: the schedule is sorted, the position is
    /// within it, and the busy-waits so far cover the offset of every
    /// action already handed out.
    pub open spec fn wf(self) -> bool {
        &&& self.pos_spec() <= self.schedule_model().len()
        &&& schedule_sorted(self.schedule_model())
        &&& self.pos_spec() > 0 ==> self.waited() >= self.schedule_model()[self.pos_spec()
            - 1].timestamp
    }

    /// Takes ownership of a sorted schedule and starts its clock.
    pub fn new(schedule: Vec<Event>, tolerance_micros: u64) -> (d: Dispatcher)
        requires
            schedule_sorted(schedule@),
        ensures
            d.wf(),
            d.schedule_model() == schedule@,
            d.pos_spec() == 0,
            d.tolerance() == tolerance_micros,
    {
        Dispatcher {
            schedule,
            pos: 0,
            start: monotonic_now(),
            waited_micros: 0,
            tolerance_micros,
        }
    }

    pub fn remaining(&self) -> (r: usize)
        requires
            self.wf(),
        ensures
            r == self.schedule_model().len() - self.pos_spec(),
    {
        self.schedule.len() - self.pos
    }

    pub fn waited_micros(&self) -> (r: u64)
        ensures
            r == self.waited(),
    {
        self.waited_micros
    }

    /// Paces and hands out the next action: spin-waits the gap from the
    /// previous action's offset, then returns the action with its observed
    /// timing. Returns `None` exactly when the schedule is spent. After the
    /// call the busy-waits cover the returned action's nominal offset.
    pub fn next_action(&mut self) -> (r: Option<DispatchStep>)
        requires
            old(self).wf(),
        ensures
            final(self).wf(),
            final(self).schedule_model() == old(self).schedule_model(),
            final(self).tolerance() == old(self).tolerance(),
            match r {
                None => {
                    &&& old(self).pos_spec() == old(self).schedule_model().len()
                    &&& *final(self) == *old(self)
                },
                Some(step) => {
                    &&& old(self).pos_spec() < old(self).schedule_model().len()
                    &&& final(self).pos_spec() == old(self).pos_spec() + 1
                    &&& step.index == old(self).pos_spec()
                    &&& step.event == old(self).schedule_model()[old(self).pos_spec()]
                    &&& step.nominal_micros == step.event.timestamp
                    &&& step.drift_exceeded == spec_drift_exceeded(
                        step.nominal_micros,
                        step.took_micros,
                        step.index as int,
                        old(self).tolerance(),
                    )
                    &&& final(self).waited() >= step.nominal_micros
                },
            },
    {
        if self.pos >= self.schedule.len() {
            return None;
        }
        let idx = self.pos;
        let ev = self.schedule[idx];
        let gap: u64 = if idx == 0 {
            ev.timestamp
        } else {
            ev.timestamp - self.schedule[idx - 1].timestamp
        };
        let waited = delay_busy(gap);
        if self.waited_micros > u64::MAX - waited {
            self.waited_micros = u64::MAX;
        } else {
            self.waited_micros = self.waited_micros + waited;
        }
        let took = micros_since(&self.start);
        let drift = drift_exceeded(ev.timestamp, took, idx, self.tolerance_micros);
        self.pos = idx + 1;
        Some(DispatchStep {
            event: ev,
            index: idx,
            nominal_micros: ev.timestamp,
            took_micros: took,
            drift_exceeded: drift,
        })
    }
}

} // verus!
