//! One row of a password-timing table.
//!
//! A row carries the per-key hold times and inter-key gap times, in
//! microseconds, for the fixed password `.tie5Roanl` followed by return,
//! together with the metadata that identifies the typist. The `_dd` fields
//! are the down-down intervals of the source table; they ride along in the
//! record but the schedule is built from the hold (`h`) and up-down (`ud`)
//! fields alone.

use vstd::prelude::*;
use crate::keys::KeyCode;
use crate::schedule::{
    compile_structured, record_span, record_total_span, schedule_sorted, spec_compile,
    DurationRecord, Event, KeyStroke,
};

verus! {

#[derive(Clone, Debug)]
pub struct Row {
    pub subject: Vec<u8>,
    pub session_index: u64,
    pub rep: u64,
    pub h_period: u32,
    pub __dd_period_t: u32,
    pub ud_period_t: u32,
    pub h_t: u32,
    pub _dd_t_i: u32,
    pub ud_t_i: u32,
    pub h_i: u32,
    pub _dd_i_e: u32,
    pub ud_i_e: u32,
    pub h_e: u32,
    pub _dd_e_five: u32,
    pub ud_e_five: u32,
    pub h_five: u32,
    pub _dd_five_shift_r: u32,
    pub ud_five_shift_r: u32,
    pub h_shift_r: u32,
    pub _dd_shift_r_o: u32,
    pub ud_shift_r_o: u32,
    pub h_o: u32,
    pub _dd_o_a: u32,
    pub ud_o_a: u32,
    pub h_a: u32,
    pub _dd_a_n: u32,
    pub ud_a_n: u32,
    pub h_n: u32,
    pub _dd_n_l: u32,
    pub ud_n_l: u32,
    pub h_l: u32,
    pub _dd_l_return: u32,
    pub ud_l_return: u32,
    pub h_return: u32,
}

impl Row {
    /// The row's key sequence: `.tie5Roanl` and return, where the `R` is
    /// typed with the shift modifier.
    pub open spec fn spec_strokes(self) -> Seq<KeyStroke> {
        seq![
            (KeyStroke { code: KeyCode::Layout('.'), shifted: false, hold_micros: self.h_period }),
            (KeyStroke { code: KeyCode::Layout('t'), shifted: false, hold_micros: self.h_t }),
            (KeyStroke { code: KeyCode::Layout('i'), shifted: false, hold_micros: self.h_i }),
            (KeyStroke { code: KeyCode::Layout('e'), shifted: false, hold_micros: self.h_e }),
            (KeyStroke { code: KeyCode::Layout('5'), shifted: false, hold_micros: self.h_five }),
            (KeyStroke { code: KeyCode::Layout('r'), shifted: true, hold_micros: self.h_shift_r }),
            (KeyStroke { code: KeyCode::Layout('o'), shifted: false, hold_micros: self.h_o }),
            (KeyStroke { code: KeyCode::Layout('a'), shifted: false, hold_micros: self.h_a }),
            (KeyStroke { code: KeyCode::Layout('n'), shifted: false, hold_micros: self.h_n }),
            (KeyStroke { code: KeyCode::Layout('l'), shifted: false, hold_micros: self.h_l }),
            (KeyStroke { code: KeyCode::Return, shifted: false, hold_micros: self.h_return }),
        ]
    }

    /// The row's inter-key gaps, one per consecutive key pair.
    pub open spec fn spec_gaps(self) -> Seq<u32> {
        seq![
            self.ud_period_t,
            self.ud_t_i,
            self.ud_i_e,
            self.ud_e_five,
            self.ud_five_shift_r,
            self.ud_shift_r_o,
            self.ud_o_a,
            self.ud_a_n,
            self.ud_n_l,
            self.ud_l_return,
        ]
    }

    /// The row as a structured-duration record.
    pub fn to_record(&self) -> (r: DurationRecord)
        ensures
            r.wf(),
            r.strokes@ == self.spec_strokes(),
            r.gaps@ == self.spec_gaps(),
    {
        let mut strokes: Vec<KeyStroke> = Vec::new();
        strokes.push(KeyStroke { code: KeyCode::Layout('.'), shifted: false, hold_micros: self.h_period });
        strokes.push(KeyStroke { code: KeyCode::Layout('t'), shifted: false, hold_micros: self.h_t });
        strokes.push(KeyStroke { code: KeyCode::Layout('i'), shifted: false, hold_micros: self.h_i });
        strokes.push(KeyStroke { code: KeyCode::Layout('e'), shifted: false, hold_micros: self.h_e });
        strokes.push(KeyStroke { code: KeyCode::Layout('5'), shifted: false, hold_micros: self.h_five });
        strokes.push(KeyStroke { code: KeyCode::Layout('r'), shifted: true, hold_micros: self.h_shift_r });
        strokes.push(KeyStroke { code: KeyCode::Layout('o'), shifted: false, hold_micros: self.h_o });
        strokes.push(KeyStroke { code: KeyCode::Layout('a'), shifted: false, hold_micros: self.h_a });
        strokes.push(KeyStroke { code: KeyCode::Layout('n'), shifted: false, hold_micros: self.h_n });
        strokes.push(KeyStroke { code: KeyCode::Layout('l'), shifted: false, hold_micros: self.h_l });
        strokes.push(KeyStroke { code: KeyCode::Return, shifted: false, hold_micros: self.h_return });
        let mut gaps: Vec<u32> = Vec::new();
        gaps.push(self.ud_period_t);
        gaps.push(self.ud_t_i);
        gaps.push(self.ud_i_e);
        gaps.push(self.ud_e_five);
        gaps.push(self.ud_five_shift_r);
        gaps.push(self.ud_shift_r_o);
        gaps.push(self.ud_o_a);
        gaps.push(self.ud_a_n);
        gaps.push(self.ud_n_l);
        gaps.push(self.ud_l_return);
        proof {
            assert(strokes@ =~= self.spec_strokes());
            assert(gaps@ =~= self.spec_gaps());
        }
        DurationRecord { strokes, gaps }
    }

    /// How long simulating the row should take: the sum of all its hold
    /// and gap times.
    pub fn should_take(&self) -> (r: u64)
        ensures
            r as int == record_span(self.spec_strokes(), self.spec_gaps()),
    {
        let rec = self.to_record();
        record_total_span(&rec)
    }

    /// The row's precalculated input events, ordered by time with the
    /// shifted-key tie-break.
    pub fn create_events(&self) -> (r: Vec<Event>)
        ensures
            r@ == spec_compile(self.spec_strokes(), self.spec_gaps()),
            schedule_sorted(r@),
    {
        let rec = self.to_record();
        compile_structured(&rec)
    }
}

} // verus!
