//! The schedule compiler for timestamp/key-code records.
//!
//! A free-text record is an alternating stream of lines: a millisecond
//! counter, then a raw key code, and so on — always an even count. The
//! counter is a wrapping clock that resets to zero after reaching
//! `WRAP_MODULUS` milliseconds, so consecutive deltas are computed with
//! explicit wrap detection. Deltas become `Wait` gaps interleaved with
//! `Key` actions; a zero-length wait is omitted as a degenerate case.

use vstd::prelude::*;
use crate::errors::SimError;
use crate::keys::{map_u8_key, spec_map_u8_key, KeyCode};
use crate::numbers::{all_digits, digits_value, parse_u64_token};
use crate::schedule::{schedule_sorted, Event, KeyEvent};

verus! {

/// The wrapping clock's modulus, in milliseconds.
pub const WRAP_MODULUS: u64 = 100_000;

/// One step of a free-text simulation: pause, or click a key.
#[derive(Clone, Copy, Debug, PartialEq, Eq, Structural)]
pub enum Task {
    /// Pause this many microseconds.
    Wait(u64),
    /// Press and release this key.
    Key(KeyCode),
}

/// A compiled free-text record: the ordered task list, the raw key codes
/// it came from, and how many of those codes had no key mapping and were
/// compiled to the fallback key.
#[derive(Debug)]
pub struct TaskList {
    pub tasks: Vec<Task>,
    pub key_codes: Vec<u8>,
    pub unmappable: usize,
}

/// Wrap-aware delta of two readings of the wrapping millisecond clock.
pub open spec fn spec_wrap_delta(prev: int, cur: int) -> int {
    if prev < cur {
        cur - prev
    } else if prev > cur {
        (WRAP_MODULUS - prev) + cur
    } else {
        0
    }
}

/// The real time between two readings of the wrapping clock: a plain
/// difference while the counter increases, the distance across the reset
/// when it has wrapped, and zero when it stands still.
pub fn wrap_delta(previous: u64, current: u64) -> (r: u64)
    requires
        previous < WRAP_MODULUS,
        current < WRAP_MODULUS,
    ensures
        r as int == spec_wrap_delta(previous as int, current as int),
        r < WRAP_MODULUS,
{
    if previous < current {
        current - previous
    } else if previous > current {
        (WRAP_MODULUS - previous) + current
    } else {
        0
    }
}

/// A line that can stand as a clock reading: a digit string below the
/// wrap modulus.
pub open spec fn token_is_timestamp(t: Seq<char>) -> bool {
    t.len() > 0 && all_digits(t) && digits_value(t) < WRAP_MODULUS
}

/// A line that can stand as a raw key code: a digit string fitting a byte.
pub open spec fn token_is_key(t: Seq<char>) -> bool {
    t.len() > 0 && all_digits(t) && digits_value(t) <= 255
}

/// A raw record that can be scheduled: an even number of lines, clock
/// readings on the even ones, key codes on the odd ones.
pub open spec fn record_ok(raw: Seq<Seq<char>>) -> bool {
    &&& raw.len() % 2 == 0
    &&& forall|k: int| 0 <= k < raw.len() / 2 ==> token_is_timestamp(#[trigger] raw[2 * k])
    &&& forall|k: int| 0 <= k < raw.len() / 2 ==> token_is_key(#[trigger] raw[2 * k + 1])
}

pub open spec fn nth_timestamp(raw: Seq<Seq<char>>, k: int) -> int {
    digits_value(raw[2 * k])
}

pub open spec fn nth_key_code(raw: Seq<Seq<char>>, k: int) -> int {
    digits_value(raw[2 * k + 1])
}

/// The wait before key `k`, in milliseconds: zero for the first key,
/// else the wrap-aware delta from the previous clock reading.
pub open spec fn spec_delta(raw: Seq<Seq<char>>, k: int) -> int {
    if k == 0 {
        0
    } else {
        spec_wrap_delta(nth_timestamp(raw, k - 1), nth_timestamp(raw, k))
    }
}

/// The tasks key `k` contributes: its wait, when there is one, then the
/// key itself.
pub open spec fn task_pair(raw: Seq<Seq<char>>, k: int) -> Seq<Task> {
    let d = spec_delta(raw, k);
    let key = spec_map_u8_key(nth_key_code(raw, k) as u8);
    if d == 0 {
        seq![Task::Key(key)]
    } else {
        seq![Task::Wait((d * 1000) as u64), Task::Key(key)]
    }
}

pub open spec fn spec_tasks_from(raw: Seq<Seq<char>>, k: int) -> Seq<Task>
    decreases raw.len() / 2 - k,
{
    if k < 0 || k >= raw.len() / 2 {
        Seq::empty()
    } else {
        task_pair(raw, k) + spec_tasks_from(raw, k + 1)
    }
}

/// The full task list of a raw record.
pub open spec fn spec_tasks(raw: Seq<Seq<char>>) -> Seq<Task> {
    spec_tasks_from(raw, 0)
}

/// How many of the record's key codes have no key mapping.
pub open spec fn count_unmappable_from(raw: Seq<Seq<char>>, k: int) -> int
    decreases raw.len() / 2 - k,
{
    if k < 0 || k >= raw.len() / 2 {
        0
    } else {
        (if spec_map_u8_key(nth_key_code(raw, k) as u8) == KeyCode::Unmapped {
            1int
        } else {
            0int
        }) + count_unmappable_from(raw, k + 1)
    }
}

proof fn lemma_count_unmappable_bounds(raw: Seq<Seq<char>>, k: int)
    ensures
        0 <= count_unmappable_from(raw, k) <= (if k < raw.len() / 2 {
            raw.len() / 2 - k
        } else {
            0
        }),
    decreases raw.len() / 2 - k,
{
    if 0 <= k && k < raw.len() / 2 {
        lemma_count_unmappable_bounds(raw, k + 1);
    } else if k < 0 {
        lemma_count_unmappable_bounds(raw, 0);
    }
}

/// Compiles a raw free-text record into its task list.
///
/// Succeeds exactly on well-formed records: an even number of lines,
/// every even line a clock reading below the wrap modulus, every odd line
/// a key code fitting a byte; anything else is a `MalformedRecord`. A key
/// code without a mapping is not an error: it compiles to the fallback
/// key and is counted in `unmappable`.
pub fn create_task_list(raw: &Vec<String>) -> (r: Result<TaskList, SimError>)
    ensures
        match r {
            Ok(tl) => {
                &&& record_ok(raw.deep_view())
                &&& tl.tasks@ == spec_tasks(raw.deep_view())
                &&& tl.key_codes@ == Seq::new(
                    (raw.deep_view().len() / 2) as nat,
                    |k: int| nth_key_code(raw.deep_view(), k) as u8,
                )
                &&& tl.unmappable == count_unmappable_from(raw.deep_view(), 0)
            },
            Err(e) => e == SimError::MalformedRecord && !record_ok(raw.deep_view()),
        },
{
    let ghost rv = raw.deep_view();
    let n = raw.len();
    if n % 2 != 0 {
        return Err(SimError::MalformedRecord);
    }
    let pairs = n / 2;

    // First pass: every line must parse, clock readings must sit below the
    // wrap modulus, key codes must fit a byte.
    let mut ts: Vec<u64> = Vec::new();
    let mut codes: Vec<u8> = Vec::new();
    let mut k: usize = 0;
    while k < pairs
        invariant
            rv == raw.deep_view(),
            n == rv.len(),
            n % 2 == 0,
            pairs == n / 2,
            k <= pairs,
            ts@.len() == k,
            codes@.len() == k,
            forall|j: int|
                0 <= j < k ==> token_is_timestamp(#[trigger] rv[2 * j]) && ts@[j] as int
                    == nth_timestamp(rv, j),
            forall|j: int|
                0 <= j < k ==> token_is_key(#[trigger] rv[2 * j + 1]) && codes@[j] as int
                    == nth_key_code(rv, j),
        decreases pairs - k,
    {
        let t = raw[2 * k].as_str();
        assert(t@ == rv[2 * (k as int)]);
        match parse_u64_token(t) {
            Some(v) => {
                if v >= WRAP_MODULUS {
                    assert(!token_is_timestamp(rv[2 * (k as int)]));
                    return Err(SimError::MalformedRecord);
                }
                ts.push(v);
            },
            None => {
                assert(!token_is_timestamp(rv[2 * (k as int)]));
                return Err(SimError::MalformedRecord);
            },
        }
        let key_token = raw[2 * k + 1].as_str();
        assert(key_token@ == rv[2 * (k as int) + 1]);
        match parse_u64_token(key_token) {
            Some(v) => {
                if v > 255 {
                    assert(!token_is_key(rv[2 * (k as int) + 1]));
                    return Err(SimError::MalformedRecord);
                }
                codes.push(v as u8);
            },
            None => {
                assert(!token_is_key(rv[2 * (k as int) + 1]));
                return Err(SimError::MalformedRecord);
            },
        }
        k = k + 1;
    }
    assert(record_ok(rv));

    // Second pass: interleave wrap-aware waits with key actions, counting
    // the codes that fell back to the unmapped key.
    let mut tasks: Vec<Task> = Vec::new();
    let mut unmappable: usize = 0;
    let mut k2: usize = 0;
    proof {
        lemma_count_unmappable_bounds(rv, 0);
    }
    while k2 < pairs
        invariant
            rv == raw.deep_view(),
            n == rv.len(),
            n % 2 == 0,
            pairs == n / 2,
            k2 <= pairs,
            ts@.len() == pairs,
            codes@.len() == pairs,
            forall|j: int|
                0 <= j < pairs ==> token_is_timestamp(#[trigger] rv[2 * j]) && ts@[j] as int
                    == nth_timestamp(rv, j),
            forall|j: int|
                0 <= j < pairs ==> token_is_key(#[trigger] rv[2 * j + 1]) && codes@[j] as int
                    == nth_key_code(rv, j),
            unmappable <= k2,
            unmappable + count_unmappable_from(rv, k2 as int) == count_unmappable_from(rv, 0),
            tasks@ + spec_tasks_from(rv, k2 as int) == spec_tasks(rv),
        decreases pairs - k2,
    {
        let ghost pre = tasks@;
        let d: u64 = if k2 == 0 {
            0
        } else {
            wrap_delta(ts[k2 - 1], ts[k2])
        };
        assert(d as int == spec_delta(rv, k2 as int));
        if d != 0 {
            tasks.push(Task::Wait(d * 1000));
        }
        let key = map_u8_key(codes[k2]);
        if key == KeyCode::Unmapped {
            proof {
                lemma_count_unmappable_bounds(rv, k2 + 1);
            }
            unmappable = unmappable + 1;
        }
        tasks.push(Task::Key(key));
        proof {
            assert(spec_tasks_from(rv, k2 as int) == task_pair(rv, k2 as int) + spec_tasks_from(
                rv,
                k2 + 1,
            ));
            assert(tasks@ =~= pre + task_pair(rv, k2 as int));
            assert(tasks@ + spec_tasks_from(rv, k2 + 1) =~= pre + spec_tasks_from(
                rv,
                k2 as int,
            ));
        }
        k2 = k2 + 1;
    }
    proof {
        assert(tasks@ =~= tasks@ + spec_tasks_from(rv, k2 as int));
        assert(codes@ =~= Seq::new((rv.len() / 2) as nat, |j: int| nth_key_code(rv, j) as u8));
    }
    Ok(TaskList { tasks, key_codes: codes, unmappable })
}

/// Saturating microsecond addition: offsets never wrap, they clamp.
pub open spec fn sat_add_u64(a: u64, b: u64) -> u64 {
    if a + b > u64::MAX {
        u64::MAX
    } else {
        (a + b) as u64
    }
}

/// The action schedule of the tasks from index `i` on, with the running
/// offset at `offset`: each key press becomes a key-down and a key-up at
/// the same absolute offset, and each wait advances the offset.
pub open spec fn spec_task_schedule_from(tasks: Seq<Task>, i: int, offset: u64) -> Seq<Event>
    decreases tasks.len() - i,
{
    if i < 0 || i >= tasks.len() {
        Seq::empty()
    } else {
        match tasks[i] {
            Task::Wait(d) => spec_task_schedule_from(tasks, i + 1, sat_add_u64(offset, d)),
            Task::Key(k) => seq![
                (Event { timestamp: offset, key_event: KeyEvent::KeyDown(k) }),
                (Event { timestamp: offset, key_event: KeyEvent::KeyUp(k) }),
            ] + spec_task_schedule_from(tasks, i + 1, offset),
        }
    }
}

pub open spec fn spec_task_schedule(tasks: Seq<Task>) -> Seq<Event> {
    spec_task_schedule_from(tasks, 0, 0)
}

proof fn lemma_task_schedule_sorted(tasks: Seq<Task>, i: int, offset: u64)
    ensures
        schedule_sorted(spec_task_schedule_from(tasks, i, offset)),
        forall|j: int|
            0 <= j < spec_task_schedule_from(tasks, i, offset).len() ==> (
            #[trigger] spec_task_schedule_from(tasks, i, offset)[j]).timestamp >= offset,
    decreases tasks.len() - i,
{
    if 0 <= i && i < tasks.len() {
        match tasks[i] {
            Task::Wait(d) => {
                lemma_task_schedule_sorted(tasks, i + 1, sat_add_u64(offset, d));
            },
            Task::Key(k) => {
                lemma_task_schedule_sorted(tasks, i + 1, offset);
                let head = seq![
                    (Event { timestamp: offset, key_event: KeyEvent::KeyDown(k) }),
                    (Event { timestamp: offset, key_event: KeyEvent::KeyUp(k) }),
                ];
                let tail = spec_task_schedule_from(tasks, i + 1, offset);
                assert(spec_task_schedule_from(tasks, i, offset) == head + tail);
                assert forall|j: int|
                    0 <= j < (head + tail).len() implies (#[trigger] (head + tail)[j]).timestamp
                    >= offset by {
                    if j >= head.len() {
                        assert((head + tail)[j] == tail[j - head.len()]);
                    }
                }
                assert forall|j: int, k2: int|
                    0 <= j <= k2 < (head + tail).len() implies (#[trigger] (head
                    + tail)[j]).timestamp <= (#[trigger] (head + tail)[k2]).timestamp by {
                    if j < head.len() && k2 >= head.len() {
                        assert((head + tail)[k2] == tail[k2 - head.len()]);
                    }
                }
            },
        }
    }
}

/// Turns a task list into an action schedule: key presses become paired
/// key-down/key-up events at the running absolute offset.
pub fn tasks_to_schedule(tasks: &Vec<Task>) -> (r: Vec<Event>)
    ensures
        r@ == spec_task_schedule(tasks@),
        schedule_sorted(r@),
{
    let mut out: Vec<Event> = Vec::new();
    let mut offset: u64 = 0;
    let mut i: usize = 0;
    while i < tasks.len()
        invariant
            i <= tasks@.len(),
            out@ + spec_task_schedule_from(tasks@, i as int, offset) == spec_task_schedule(
                tasks@,
            ),
        decreases tasks@.len() - i,
    {
        let ghost pre = out@;
        let ghost old_offset = offset;
        match tasks[i] {
            Task::Wait(d) => {
                if offset > u64::MAX - d {
                    offset = u64::MAX;
                } else {
                    offset = offset + d;
                }
                proof {
                    assert(offset == sat_add_u64(old_offset, tasks@[i as int]->Wait_0));
                }
            },
            Task::Key(key) => {
                out.push(Event { timestamp: offset, key_event: KeyEvent::KeyDown(key) });
                out.push(Event { timestamp: offset, key_event: KeyEvent::KeyUp(key) });
                proof {
                    let head = seq![
                        (Event { timestamp: old_offset, key_event: KeyEvent::KeyDown(key) }),
                        (Event { timestamp: old_offset, key_event: KeyEvent::KeyUp(key) }),
                    ];
                    assert(out@ =~= pre + head);
                    assert(out@ + spec_task_schedule_from(tasks@, i + 1, offset) =~= pre
                        + spec_task_schedule_from(tasks@, i as int, old_offset));
                }
            },
        }
        i = i + 1;
    }
    proof {
        assert(out@ =~= out@ + spec_task_schedule_from(tasks@, i as int, offset));
        lemma_task_schedule_sorted(tasks@, 0, 0);
    }
    out
}

} // verus!
