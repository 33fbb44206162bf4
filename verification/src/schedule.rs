//! The schedule compiler for structured-duration records.
//!
//! A structured-duration record is an ordered key sequence with a hold time
//! per key and a gap between consecutive keys. Compiling it accumulates a
//! running offset and emits a key-down and a key-up event per key; a key
//! typed with the shift modifier emits modifier-down, base-down and
//! modifier-up at the shared offset and base-up after the hold. The
//! compiled schedule is sorted by offset, with ties left in exactly that
//! emission order — the tie-break is correctness-critical for the page
//! under test, not arbitrary.

use vstd::prelude::*;
use crate::keys::KeyCode;

verus! {

/// A key event: which key, and whether it goes down or up.
#[derive(Clone, Copy, Debug, PartialEq, Eq, Structural)]
pub enum KeyEvent {
    KeyDown(KeyCode),
    KeyUp(KeyCode),
}

/// One timed action of a schedule: a key event at an absolute offset,
/// in microseconds since the start of the item.
#[derive(Clone, Copy, Debug, PartialEq, Eq, Structural)]
pub struct Event {
    pub timestamp: u64,
    pub key_event: KeyEvent,
}

impl Event {
    pub fn new_down(timestamp: u64, key: KeyCode) -> (r: Event)
        ensures
            r == (Event { timestamp, key_event: KeyEvent::KeyDown(key) }),
    {
        Event { timestamp, key_event: KeyEvent::KeyDown(key) }
    }

    pub fn new_up(timestamp: u64, key: KeyCode) -> (r: Event)
        ensures
            r == (Event { timestamp, key_event: KeyEvent::KeyUp(key) }),
    {
        Event { timestamp, key_event: KeyEvent::KeyUp(key) }
    }
}

/// One key of a structured-duration record.
#[derive(Clone, Copy, Debug, PartialEq, Eq, Structural)]
pub struct KeyStroke {
    pub code: KeyCode,
    /// Whether the key is typed with the shift modifier held.
    pub shifted: bool,
    /// How long the key is held, in microseconds.
    pub hold_micros: u32,
}

/// A structured-duration record: `gaps[i]` is the pause between the key-up
/// of `strokes[i]` and the key-down of `strokes[i + 1]`, in microseconds.
#[derive(Clone, Debug)]
pub struct DurationRecord {
    pub strokes: Vec<KeyStroke>,
    pub gaps: Vec<u32>,
}

impl DurationRecord {
    /// One gap per consecutive key pair, and few enough keys that every
    /// absolute offset fits in a `u64` of microseconds.
    pub open spec fn wf(self) -> bool {
        &&& self.gaps@.len() == (if self.strokes@.len() == 0 {
            0int
        } else {
            self.strokes@.len() - 1
        })
        &&& self.strokes@.len() <= 0x4000_0000
    }
}

/// The gap that follows stroke `i`; zero after the final stroke.
pub open spec fn gap_after(gaps: Seq<u32>, i: int) -> int {
    if 0 <= i && i < gaps.len() {
        gaps[i] as int
    } else {
        0
    }
}

/// The events one stroke contributes, given the absolute offset of its
/// key-down. This order of the shifted case is the tie-break rule.
pub open spec fn stroke_events(s: KeyStroke, start: int) -> Seq<Event> {
    if s.shifted {
        seq![
            (Event { timestamp: start as u64, key_event: KeyEvent::KeyDown(KeyCode::Shift) }),
            (Event { timestamp: start as u64, key_event: KeyEvent::KeyDown(s.code) }),
            (Event { timestamp: start as u64, key_event: KeyEvent::KeyUp(KeyCode::Shift) }),
            (Event {
                timestamp: (start + s.hold_micros) as u64,
                key_event: KeyEvent::KeyUp(s.code),
            }),
        ]
    } else {
        seq![
            (Event { timestamp: start as u64, key_event: KeyEvent::KeyDown(s.code) }),
            (Event {
                timestamp: (start + s.hold_micros) as u64,
                key_event: KeyEvent::KeyUp(s.code),
            }),
        ]
    }
}

/// The schedule of the strokes from index `i` on, with the key-down of
/// stroke `i` at absolute offset `start`.
pub open spec fn spec_compile_from(
    strokes: Seq<KeyStroke>,
    gaps: Seq<u32>,
    i: int,
    start: int,
) -> Seq<Event>
    decreases strokes.len() - i,
{
    if i < 0 || i >= strokes.len() {
        Seq::empty()
    } else {
        stroke_events(strokes[i], start) + spec_compile_from(
            strokes,
            gaps,
            i + 1,
            start + strokes[i].hold_micros + gap_after(gaps, i),
        )
    }
}

/// The full schedule of a record, from offset zero.
pub open spec fn spec_compile(strokes: Seq<KeyStroke>, gaps: Seq<u32>) -> Seq<Event> {
    spec_compile_from(strokes, gaps, 0, 0)
}

/// Total span of the strokes from index `i` on: the sum of their holds and
/// following gaps, in microseconds.
pub open spec fn span_from(strokes: Seq<KeyStroke>, gaps: Seq<u32>, i: int) -> int
    decreases strokes.len() - i,
{
    if i < 0 || i >= strokes.len() {
        0
    } else {
        strokes[i].hold_micros + gap_after(gaps, i) + span_from(strokes, gaps, i + 1)
    }
}

/// Total span of a whole record: how long simulating it should take.
pub open spec fn record_span(strokes: Seq<KeyStroke>, gaps: Seq<u32>) -> int {
    span_from(strokes, gaps, 0)
}

/// Offsets are non-decreasing through the schedule.
pub open spec fn schedule_sorted(s: Seq<Event>) -> bool {
    forall|j: int, k: int|
        0 <= j <= k < s.len() ==> #[trigger] s[j].timestamp <= #[trigger] s[k].timestamp
}

pub proof fn lemma_span_nonneg(strokes: Seq<KeyStroke>, gaps: Seq<u32>, i: int)
    ensures
        span_from(strokes, gaps, i) >= 0,
    decreases strokes.len() - i,
{
    if 0 <= i && i < strokes.len() {
        lemma_span_nonneg(strokes, gaps, i + 1);
    }
}

pub proof fn lemma_span_bound(strokes: Seq<KeyStroke>, gaps: Seq<u32>, i: int)
    requires
        i <= strokes.len(),
    ensures
        span_from(strokes, gaps, i) <= 2 * (strokes.len() - i) * (u32::MAX as int),
    decreases strokes.len() - i,
{
    if 0 <= i && i < strokes.len() {
        lemma_span_bound(strokes, gaps, i + 1);
    }
}

/// Every event of a compiled suffix lies between its start offset and the
/// start plus the suffix's span, and the events are sorted.
pub proof fn lemma_compile_bounds(strokes: Seq<KeyStroke>, gaps: Seq<u32>, i: int, start: int)
    requires
        0 <= start,
        start + span_from(strokes, gaps, i) <= u64::MAX,
    ensures
        schedule_sorted(spec_compile_from(strokes, gaps, i, start)),
        forall|j: int|
            0 <= j < spec_compile_from(strokes, gaps, i, start).len() ==> start <= (
            #[trigger] spec_compile_from(strokes, gaps, i, start)[j]).timestamp <= start
                + span_from(strokes, gaps, i),
    decreases strokes.len() - i,
{
    if 0 <= i && i < strokes.len() {
        let s = strokes[i];
        let next = start + s.hold_micros + gap_after(gaps, i);
        lemma_span_nonneg(strokes, gaps, i + 1);
        lemma_compile_bounds(strokes, gaps, i + 1, next);
        let head = stroke_events(s, start);
        let tail = spec_compile_from(strokes, gaps, i + 1, next);
        assert(spec_compile_from(strokes, gaps, i, start) == head + tail);
        assert forall|j: int|
            0 <= j < (head + tail).len() implies start <= (#[trigger] (head + tail)[j]).timestamp
            <= start + span_from(strokes, gaps, i) by {
            if j < head.len() {
                assert((head + tail)[j] == head[j]);
            } else {
                assert((head + tail)[j] == tail[j - head.len()]);
            }
        }
        assert forall|j: int, k: int|
            0 <= j <= k < (head + tail).len() implies (#[trigger] (head + tail)[j]).timestamp <= (
            #[trigger] (head + tail)[k]).timestamp by {
            if j < head.len() && k >= head.len() {
                assert(((head + tail)[j]).timestamp <= start + s.hold_micros);
                assert(((head + tail)[k]).timestamp >= next);
            }
        }
    }
}

/// Compiles a structured-duration record into its action schedule: the
/// exact event sequence of `spec_compile`, sorted by offset with the
/// tie-break of `stroke_events`.
pub fn compile_structured(rec: &DurationRecord) -> (r: Vec<Event>)
    requires
        rec.wf(),
    ensures
        r@ == spec_compile(rec.strokes@, rec.gaps@),
        schedule_sorted(r@),
{
    let ghost strokes = rec.strokes@;
    let ghost gaps = rec.gaps@;
    proof {
        lemma_span_bound(strokes, gaps, 0);
    }
    let mut out: Vec<Event> = Vec::new();
    let mut offset: u64 = 0;
    let mut i: usize = 0;
    while i < rec.strokes.len()
        invariant
            rec.strokes@ == strokes,
            rec.gaps@ == gaps,
            i <= strokes.len(),
            strokes.len() <= 0x4000_0000,
            offset + span_from(strokes, gaps, i as int) <= u64::MAX,
            out@ + spec_compile_from(strokes, gaps, i as int, offset as int) == spec_compile(
                strokes,
                gaps,
            ),
        decreases strokes.len() - i,
    {
        let ghost pre = out@;
        let s = rec.strokes[i];
        proof {
            lemma_span_nonneg(strokes, gaps, i + 1);
            assert(span_from(strokes, gaps, i as int) >= s.hold_micros + gap_after(
                gaps,
                i as int,
            ));
        }
        if s.shifted {
            out.push(Event { timestamp: offset, key_event: KeyEvent::KeyDown(KeyCode::Shift) });
            out.push(Event { timestamp: offset, key_event: KeyEvent::KeyDown(s.code) });
            out.push(Event { timestamp: offset, key_event: KeyEvent::KeyUp(KeyCode::Shift) });
        } else {
            out.push(Event { timestamp: offset, key_event: KeyEvent::KeyDown(s.code) });
        }
        let up_ts = offset + s.hold_micros as u64;
        out.push(Event { timestamp: up_ts, key_event: KeyEvent::KeyUp(s.code) });
        proof {
            assert(out@ =~= pre + stroke_events(s, offset as int));
        }
        let ghost old_offset = offset as int;
        offset = up_ts;
        if i < rec.gaps.len() {
            offset = offset + rec.gaps[i] as u64;
        }
        proof {
            assert(offset as int == old_offset + s.hold_micros + gap_after(gaps, i as int));
            assert(spec_compile_from(strokes, gaps, i as int, old_offset) == stroke_events(
                s,
                old_offset,
            ) + spec_compile_from(strokes, gaps, i + 1, offset as int));
            assert(out@ + spec_compile_from(strokes, gaps, i + 1, offset as int) =~= pre
                + spec_compile_from(strokes, gaps, i as int, old_offset));
        }
        i = i + 1;
    }
    proof {
        assert(out@ =~= out@ + spec_compile_from(strokes, gaps, i as int, offset as int));
        lemma_span_nonneg(strokes, gaps, 0);
        lemma_compile_bounds(strokes, gaps, 0, 0);
    }
    out
}

/// The total span of a record: the sum of all holds and gaps, which is how
/// long simulating it should take.
pub fn record_total_span(rec: &DurationRecord) -> (r: u64)
    requires
        rec.wf(),
    ensures
        r as int == record_span(rec.strokes@, rec.gaps@),
{
    let ghost strokes = rec.strokes@;
    let ghost gaps = rec.gaps@;
    proof {
        lemma_span_bound(strokes, gaps, 0);
    }
    let mut acc: u64 = 0;
    let mut i: usize = 0;
    while i < rec.strokes.len()
        invariant
            rec.strokes@ == strokes,
            rec.gaps@ == gaps,
            i <= strokes.len(),
            strokes.len() <= 0x4000_0000,
            acc + span_from(strokes, gaps, i as int) == record_span(strokes, gaps),
            acc + span_from(strokes, gaps, i as int) <= u64::MAX,
        decreases strokes.len() - i,
    {
        proof {
            lemma_span_nonneg(strokes, gaps, i + 1);
        }
        acc = acc + rec.strokes[i].hold_micros as u64;
        if i < rec.gaps.len() {
            acc = acc + rec.gaps[i] as u64;
        }
        i = i + 1;
    }
    acc
}

/// Law: compiling is deterministic — records with identical strokes and
/// gaps always yield the identical action schedule.
pub proof fn lemma_compile_deterministic(a: DurationRecord, b: DurationRecord)
    requires
        a.strokes@ == b.strokes@,
        a.gaps@ == b.gaps@,
    ensures
        spec_compile(a.strokes@, a.gaps@) == spec_compile(b.strokes@, b.gaps@),
{
}

/// Number of events the first `i` strokes contribute to a schedule.
pub open spec fn events_before(strokes: Seq<KeyStroke>, i: int) -> int
    decreases i,
{
    if i <= 0 {
        0
    } else {
        events_before(strokes, i - 1) + (if strokes[i - 1].shifted {
            4int
        } else {
            2int
        })
    }
}

/// Absolute offset of the key-down of stroke `i`.
pub open spec fn offset_of(strokes: Seq<KeyStroke>, gaps: Seq<u32>, i: int) -> int
    decreases i,
{
    if i <= 0 {
        0
    } else {
        offset_of(strokes, gaps, i - 1) + strokes[i - 1].hold_micros + gap_after(gaps, i - 1)
    }
}

/// The compiled schedule decomposes at every stroke: the events of the
/// strokes from `i` on sit at index `events_before(i)`, compiled from the
/// offset `offset_of(i)`.
pub proof fn lemma_compile_align(strokes: Seq<KeyStroke>, gaps: Seq<u32>, i: int)
    requires
        0 <= i <= strokes.len(),
    ensures
        spec_compile(strokes, gaps).len() == events_before(strokes, i) + spec_compile_from(
            strokes,
            gaps,
            i,
            offset_of(strokes, gaps, i),
        ).len(),
        forall|k: int|
            0 <= k < spec_compile_from(strokes, gaps, i, offset_of(strokes, gaps, i)).len()
                ==> spec_compile(strokes, gaps)[events_before(strokes, i) + k] == #[trigger]
            spec_compile_from(strokes, gaps, i, offset_of(strokes, gaps, i))[k],
    decreases i,
{
    if i > 0 {
        lemma_compile_align(strokes, gaps, i - 1);
        let prev_start = offset_of(strokes, gaps, i - 1);
        let head = stroke_events(strokes[i - 1], prev_start);
        let tail = spec_compile_from(strokes, gaps, i, offset_of(strokes, gaps, i));
        assert(spec_compile_from(strokes, gaps, i - 1, prev_start) == head + tail);
        let b = events_before(strokes, i);
        assert forall|k: int| 0 <= k < tail.len() implies spec_compile(strokes, gaps)[b + k]
            == #[trigger] tail[k] by {
            assert((head + tail)[head.len() + k] == tail[k]);
            assert(spec_compile(strokes, gaps)[events_before(strokes, i - 1) + (head.len() + k)]
                == (head + tail)[head.len() + k]);
        }
    }
}

/// The key-down offset of stroke `i` plus the span of the remaining
/// strokes is the whole record's span.
pub proof fn lemma_offset_plus_span(strokes: Seq<KeyStroke>, gaps: Seq<u32>, i: int)
    requires
        0 <= i <= strokes.len(),
    ensures
        offset_of(strokes, gaps, i) + span_from(strokes, gaps, i) == record_span(strokes, gaps),
    decreases i,
{
    if i > 0 {
        lemma_offset_plus_span(strokes, gaps, i - 1);
    }
}

/// Law: the tie-break for a shifted key. Wherever stroke `i` is typed with
/// the shift modifier, the compiled schedule holds, in this order,
/// modifier-down, base-down and modifier-up at the stroke's shared offset,
/// and base-up one hold time later — even though the first three share one
/// offset.
pub proof fn lemma_shifted_tie_break(strokes: Seq<KeyStroke>, gaps: Seq<u32>, i: int)
    requires
        0 <= i < strokes.len(),
        strokes[i].shifted,
        record_span(strokes, gaps) <= u64::MAX,
    ensures
        ({
            let evs = spec_compile(strokes, gaps);
            let b = events_before(strokes, i);
            let o = offset_of(strokes, gaps, i);
            &&& 0 <= o
            &&& o + strokes[i].hold_micros <= u64::MAX
            &&& 0 <= b && b + 4 <= evs.len()
            &&& evs[b] == (Event {
                timestamp: o as u64,
                key_event: KeyEvent::KeyDown(KeyCode::Shift),
            })
            &&& evs[b + 1] == (Event {
                timestamp: o as u64,
                key_event: KeyEvent::KeyDown(strokes[i].code),
            })
            &&& evs[b + 2] == (Event {
                timestamp: o as u64,
                key_event: KeyEvent::KeyUp(KeyCode::Shift),
            })
            &&& evs[b + 3] == (Event {
                timestamp: (o + strokes[i].hold_micros) as u64,
                key_event: KeyEvent::KeyUp(strokes[i].code),
            })
        }),
    decreases i,
{
    lemma_compile_align(strokes, gaps, i);
    lemma_offset_plus_span(strokes, gaps, i);
    lemma_span_nonneg(strokes, gaps, i);
    lemma_span_nonneg(strokes, gaps, i + 1);
    lemma_events_before_bounds(strokes, i);
    lemma_offset_nonneg(strokes, gaps, i);
    let o = offset_of(strokes, gaps, i);
    let head = stroke_events(strokes[i], o);
    let tail = spec_compile_from(strokes, gaps, i + 1, o + strokes[i].hold_micros + gap_after(
        gaps,
        i,
    ));
    assert(spec_compile_from(strokes, gaps, i, o) == head + tail);
    assert((head + tail)[0] == head[0]);
    assert((head + tail)[1] == head[1]);
    assert((head + tail)[2] == head[2]);
    assert((head + tail)[3] == head[3]);
}

pub proof fn lemma_events_before_bounds(strokes: Seq<KeyStroke>, i: int)
    requires
        0 <= i,
    ensures
        events_before(strokes, i) >= 0,
    decreases i,
{
    if i > 0 {
        lemma_events_before_bounds(strokes, i - 1);
    }
}

pub proof fn lemma_offset_nonneg(strokes: Seq<KeyStroke>, gaps: Seq<u32>, i: int)
    requires
        0 <= i,
    ensures
        offset_of(strokes, gaps, i) >= 0,
    decreases i,
{
    if i > 0 {
        lemma_offset_nonneg(strokes, gaps, i - 1);
    }
}

} // verus!
