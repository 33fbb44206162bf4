//! Session-controller arithmetic: how long a whole run should take, when
//! to trigger an export, and the command-line part shorthand.

use vstd::prelude::*;
use crate::freetext::sat_add_u64;
use crate::numbers::{all_digits, digits_value, parse_u64_token};
use crate::row::Row;
use crate::schedule::{lemma_span_bound, record_span};

verus! {

/// Pause after each simulated item, in microseconds.
pub const ITEM_PAUSE_MICROS: u64 = 200_000;

/// Pause granted to each triggered export, in microseconds.
pub const EXPORT_PAUSE_MICROS: u64 = 800_000;

/// Warm-up cost per item when warm-up is on: eight presses of 100 ms hold
/// and 10 ms pause each, in microseconds.
pub const WARMUP_MICROS: u64 = 880_000;

/// Clamp of a non-negative mathematical value into a `u64`.
pub open spec fn sat64(x: int) -> u64 {
    if x > u64::MAX {
        u64::MAX
    } else if x < 0 {
        0
    } else {
        x as u64
    }
}

/// Expected cost of one item: its schedule's span, the per-item pause,
/// and the warm-up cost when warm-up is on.
pub open spec fn row_cost(row: Row, warmup: bool) -> int {
    record_span(row.spec_strokes(), row.spec_gaps()) + ITEM_PAUSE_MICROS + (if warmup {
        WARMUP_MICROS as int
    } else {
        0int
    })
}

/// The saturating sum of the first `i` items' costs.
pub open spec fn cost_fold(rows: Seq<Row>, i: int, warmup: bool) -> u64
    decreases i,
{
    if i <= 0 {
        0
    } else {
        sat_add_u64(cost_fold(rows, i - 1, warmup), sat64(row_cost(rows[i - 1], warmup)))
    }
}

/// How many exports a run of `len` items triggers: one per full batch of
/// `download_every` items, and one more for a trailing partial batch.
pub open spec fn export_batches(len: int, download_every: int) -> int {
    len / download_every + (if len % download_every > 0 {
        1int
    } else {
        0int
    })
}

/// The expected total duration of a run, microseconds, saturated.
pub open spec fn spec_estimate(rows: Seq<Row>, download_every: int, warmup: bool) -> u64 {
    sat_add_u64(
        cost_fold(rows, rows.len() as int, warmup),
        sat64(export_batches(rows.len() as int, download_every) * EXPORT_PAUSE_MICROS),
    )
}

/// Computes the expected total duration of simulating `rows`: every item
/// costs its span plus the fixed pauses, and each export batch adds its
/// pause on top.
pub fn estimate_total_micros(rows: &Vec<Row>, download_every: usize, warmup: bool) -> (r: u64)
    requires
        download_every >= 1,
    ensures
        r == spec_estimate(rows@, download_every as int, warmup),
{
    let mut acc: u64 = 0;
    let mut i: usize = 0;
    while i < rows.len()
        invariant
            i <= rows@.len(),
            acc == cost_fold(rows@, i as int, warmup),
        decreases rows@.len() - i,
    {
        let span = rows[i].should_take();
        proof {
            lemma_span_bound(rows@[i as int].spec_strokes(), rows@[i as int].spec_gaps(), 0);
        }
        let mut cost: u64 = span + ITEM_PAUSE_MICROS;
        if warmup {
            cost = cost + WARMUP_MICROS;
        }
        assert(cost == sat64(row_cost(rows@[i as int], warmup)));
        if acc > u64::MAX - cost {
            acc = u64::MAX;
        } else {
            acc = acc + cost;
        }
        i = i + 1;
    }
    let len = rows.len();
    let batches: usize = if len % download_every > 0 {
        proof {
            assert(len / download_every + 1 <= len) by (nonlinear_arith)
                requires
                    download_every >= 1,
                    len % download_every > 0,
            ;
        }
        len / download_every + 1
    } else {
        len / download_every
    };
    proof {
        assert(batches as int * (EXPORT_PAUSE_MICROS as int) <= u128::MAX) by (nonlinear_arith)
            requires
                batches as int <= u64::MAX as int,
        ;
    }
    let pause_wide: u128 = batches as u128 * EXPORT_PAUSE_MICROS as u128;
    let pause: u64 = if pause_wide > u64::MAX as u128 {
        u64::MAX
    } else {
        pause_wide as u64
    };
    assert(pause == sat64(export_batches(len as int, download_every as int) * EXPORT_PAUSE_MICROS));
    if acc > u64::MAX - pause {
        u64::MAX
    } else {
        acc + pause
    }
}

/// Whether finishing item `index` should trigger an export: every
/// `download_every` items, but never on the very first item. The final
/// export after the last item is triggered unconditionally by the caller.
pub fn should_export(index: usize, download_every: usize) -> (r: bool)
    requires
        download_every >= 1,
    ensures
        r == (index != 0 && index % download_every == 0),
{
    index != 0 && index % download_every == 0
}

/// The skip and count a part shorthand stands for.
pub fn part_range(part: u8) -> (r: (usize, usize))
    requires
        1 <= part <= 4,
    ensures
        part == 1 ==> r == (0usize, 5300usize),
        part == 2 ==> r == (5300usize, 5100usize),
        part == 3 ==> r == (10400usize, 4600usize),
        part == 4 ==> r == (15000usize, 5400usize),
{
    match part {
        1 => (0, 5300),
        2 => (5300, 5100),
        3 => (10400, 4600),
        _ => (15000, 5400),
    }
}

/// The digits of a part argument: an optional leading plus sign is
/// accepted, as the standard integer parser accepts one.
pub open spec fn part_digits(s: Seq<char>) -> Seq<char> {
    if s.len() > 0 && s[0] == '+' {
        s.subrange(1, s.len() as int)
    } else {
        s
    }
}

/// A valid part argument: a decimal number from one to four.
pub open spec fn part_valid(s: Seq<char>) -> bool {
    let d = part_digits(s);
    d.len() > 0 && all_digits(d) && 1 <= digits_value(d) <= 4
}

/// Validates the command-line part shorthand: accepts exactly the decimal
/// numbers one to four (with an optional leading plus), and rejects
/// everything else with the fixed complaint.
pub fn validate_part_input(p: &str) -> (r: Result<u8, String>)
    ensures
        match r {
            Ok(v) => part_valid(p@) && v as int == digits_value(part_digits(p@)),
            Err(m) => !part_valid(p@) && m@ == "Invalid part argument. Has to be out of [1, 2, 3, 4]"@,
        },
{
    let n = p.unicode_len();
    let rest: &str = if n > 0 && p.get_char(0) == '+' {
        p.substring_char(1, n)
    } else {
        p
    };
    assert(rest@ == part_digits(p@));
    match parse_u64_token(rest) {
        Some(v) => {
            if 1 <= v && v <= 4 {
                Ok(v as u8)
            } else {
                Err("Invalid part argument. Has to be out of [1, 2, 3, 4]".to_owned())
            }
        },
        None => Err("Invalid part argument. Has to be out of [1, 2, 3, 4]".to_owned()),
    }
}

} // verus!
