//! Result-file rendering and re-reading.
//!
//! Result files are delimited text: one fixed header line, then one row
//! per item. The library renders rows and whole files to bytes and counts
//! the data rows of a file back; carrying the bytes to and from disk is
//! the caller's I/O. Timing fields are written as whole microseconds.

use vstd::prelude::*;
use crate::capture::{CapturedEvent, Direction};

verus! {

pub open spec fn is_digit_byte(b: u8) -> bool {
    48 <= b && b <= 57
}

pub open spec fn bytes_all_digits(s: Seq<u8>) -> bool {
    forall|i: int| 0 <= i < s.len() ==> is_digit_byte(#[trigger] s[i])
}

/// The numeric value of a digit-byte string, most significant first.
pub open spec fn bytes_value(s: Seq<u8>) -> int
    decreases s.len(),
{
    if s.len() == 0 {
        0
    } else {
        bytes_value(s.drop_last()) * 10 + (s.last() - 48)
    }
}

/// The decimal rendering of a non-negative number.
pub open spec fn spec_render_u64(n: int) -> Seq<u8>
    decreases n,
{
    if n < 10 {
        seq![(48 + if n < 0 { 0int } else { n }) as u8]
    } else {
        spec_render_u64(n / 10).push((48 + n % 10) as u8)
    }
}

pub proof fn lemma_render_u64_value(n: int)
    requires
        n >= 0,
    ensures
        spec_render_u64(n).len() >= 1,
        bytes_all_digits(spec_render_u64(n)),
        bytes_value(spec_render_u64(n)) == n,
    decreases n,
{
    if n < 10 {
        let s = spec_render_u64(n);
        assert(s.drop_last() =~= Seq::<u8>::empty());
        assert(bytes_value(s.drop_last()) == 0);
        assert(bytes_value(s) == s.last() - 48);
    } else {
        lemma_render_u64_value(n / 10);
        let p = spec_render_u64(n / 10);
        let d = (48 + n % 10) as u8;
        assert(p.push(d).drop_last() =~= p);
        assert(p.push(d).last() == d);
        assert(n == (n / 10) * 10 + n % 10) by (nonlinear_arith);
        assert(bytes_value(p.push(d)) == (n / 10) * 10 + (d - 48));
        assert(forall|i: int| 0 <= i < p.push(d).len() ==> is_digit_byte(#[trigger] p.push(d)[i]));
    }
}

/// Renders a number as its decimal digit bytes.
pub fn render_u64(n: u64) -> (r: Vec<u8>)
    ensures
        r@ == spec_render_u64(n as int),
        r@.len() >= 1,
        bytes_all_digits(r@),
        bytes_value(r@) == n as int,
    decreases n,
{
    proof {
        lemma_render_u64_value(n as int);
    }
    if n < 10 {
        let mut v: Vec<u8> = Vec::new();
        v.push(48 + n as u8);
        v
    } else {
        let mut v = render_u64(n / 10);
        v.push(48 + (n % 10) as u8);
        v
    }
}

/// Appends all of `src` to `dst`.
pub fn append_bytes(dst: &mut Vec<u8>, src: &Vec<u8>)
    ensures
        final(dst)@ == old(dst)@ + src@,
{
    let mut i: usize = 0;
    while i < src.len()
        invariant
            i <= src@.len(),
            dst@ == old(dst)@ + src@.take(i as int),
        decreases src@.len() - i,
    {
        dst.push(src[i]);
        proof {
            assert(old(dst)@ + src@.take(i + 1) =~= (old(dst)@ + src@.take(i as int)).push(
                src@[i as int],
            ));
        }
        i = i + 1;
    }
    proof {
        assert(old(dst)@ + src@.take(src@.len() as int) =~= old(dst)@ + src@);
    }
}

/// The header of a capture result file: `timestamp,key,type`.
pub open spec fn spec_captured_header() -> Seq<u8> {
    seq![
        ('t' as u8), ('i' as u8), ('m' as u8), ('e' as u8), ('s' as u8), ('t' as u8),
        ('a' as u8), ('m' as u8), ('p' as u8), (',' as u8), ('k' as u8), ('e' as u8),
        ('y' as u8), (',' as u8), ('t' as u8), ('y' as u8), ('p' as u8), ('e' as u8),
    ]
}

pub fn captured_header() -> (r: Vec<u8>)
    ensures
        r@ == spec_captured_header(),
{
    let mut v: Vec<u8> = Vec::new();
    v.push('t' as u8);
    v.push('i' as u8);
    v.push('m' as u8);
    v.push('e' as u8);
    v.push('s' as u8);
    v.push('t' as u8);
    v.push('a' as u8);
    v.push('m' as u8);
    v.push('p' as u8);
    v.push(',' as u8);
    v.push('k' as u8);
    v.push('e' as u8);
    v.push('y' as u8);
    v.push(',' as u8);
    v.push('t' as u8);
    v.push('y' as u8);
    v.push('p' as u8);
    v.push('e' as u8);
    proof {
        assert(v@ =~= spec_captured_header());
    }
    v
}

/// The type label of a captured event: `keydown` or `keyup`.
pub open spec fn spec_direction_label(d: Direction) -> Seq<u8> {
    if d == Direction::Down {
        seq![('k' as u8), ('e' as u8), ('y' as u8), ('d' as u8), ('o' as u8), ('w' as u8), ('n' as u8)]
    } else {
        seq![('k' as u8), ('e' as u8), ('y' as u8), ('u' as u8), ('p' as u8)]
    }
}

pub fn direction_label(d: Direction) -> (r: Vec<u8>)
    ensures
        r@ == spec_direction_label(d),
{
    let mut v: Vec<u8> = Vec::new();
    v.push('k' as u8);
    v.push('e' as u8);
    v.push('y' as u8);
    match d {
        Direction::Down => {
            v.push('d' as u8);
            v.push('o' as u8);
            v.push('w' as u8);
            v.push('n' as u8);
        },
        Direction::Up => {
            v.push('u' as u8);
            v.push('p' as u8);
        },
    }
    proof {
        assert(v@ =~= spec_direction_label(d));
    }
    v
}

/// One data row of a capture result file.
pub open spec fn spec_render_captured_row(e: CapturedEvent) -> Seq<u8> {
    spec_render_u64(e.elapsed_micros as int) + seq![(',' as u8)] + spec_render_u64(e.code as int)
        + seq![(',' as u8)] + spec_direction_label(e.direction)
}

pub fn render_captured_row(e: &CapturedEvent) -> (r: Vec<u8>)
    ensures
        r@ == spec_render_captured_row(*e),
{
    let mut out = render_u64(e.elapsed_micros);
    out.push(',' as u8);
    let code = render_u64(e.code as u64);
    append_bytes(&mut out, &code);
    out.push(',' as u8);
    let label = direction_label(e.direction);
    append_bytes(&mut out, &label);
    proof {
        assert(out@ =~= spec_render_captured_row(*e));
    }
    out
}

/// A whole capture result file: the header line, then one row per event.
pub open spec fn spec_render_captured_file(events: Seq<CapturedEvent>) -> Seq<Seq<u8>> {
    seq![spec_captured_header()] + Seq::new(events.len(), |i: int| spec_render_captured_row(events[i]))
}

pub fn render_captured_file(events: &Vec<CapturedEvent>) -> (r: Vec<Vec<u8>>)
    ensures
        r@.len() == events@.len() + 1,
        r@[0]@ == spec_captured_header(),
        forall|k: int|
            0 <= k < events@.len() ==> (#[trigger] r@[k + 1])@ == spec_render_captured_row(
                events@[k],
            ),
{
    let mut out: Vec<Vec<u8>> = Vec::new();
    out.push(captured_header());
    let mut i: usize = 0;
    while i < events.len()
        invariant
            i <= events@.len(),
            out@.len() == i + 1,
            out@[0]@ == spec_captured_header(),
            forall|k: int|
                0 <= k < i ==> (#[trigger] out@[k + 1])@ == spec_render_captured_row(
                    events@[k],
                ),
        decreases events@.len() - i,
    {
        out.push(render_captured_row(&events[i]));
        i = i + 1;
    }
    out
}

/// One row of a dispatch timing-audit file: which item, how long it
/// should have taken and did take (microseconds), and whose item it was.
pub struct ResultRow {
    pub index: u64,
    pub should_take_micros: u64,
    pub took_micros: u64,
    pub subject: Vec<u8>,
    pub session_index: u64,
    pub rep: u64,
}

/// The header of a timing-audit file: `i,should_take,took,subject,session,rep`.
pub open spec fn spec_result_header() -> Seq<u8> {
    seq![
        ('i' as u8), (',' as u8), ('s' as u8), ('h' as u8), ('o' as u8), ('u' as u8),
        ('l' as u8), ('d' as u8), ('_' as u8), ('t' as u8), ('a' as u8), ('k' as u8),
        ('e' as u8), (',' as u8), ('t' as u8), ('o' as u8), ('o' as u8), ('k' as u8),
        (',' as u8), ('s' as u8), ('u' as u8), ('b' as u8), ('j' as u8), ('e' as u8),
        ('c' as u8), ('t' as u8), (',' as u8), ('s' as u8), ('e' as u8), ('s' as u8),
        ('s' as u8), ('i' as u8), ('o' as u8), ('n' as u8), (',' as u8), ('r' as u8),
        ('e' as u8), ('p' as u8),
    ]
}

#[verifier::rlimit(50)]
pub fn result_header() -> (r: Vec<u8>)
    ensures
        r@ == spec_result_header(),
{
    let mut v: Vec<u8> = Vec::new();
    v.push('i' as u8);
    v.push(',' as u8);
    v.push('s' as u8);
    v.push('h' as u8);
    v.push('o' as u8);
    v.push('u' as u8);
    v.push('l' as u8);
    v.push('d' as u8);
    v.push('_' as u8);
    v.push('t' as u8);
    v.push('a' as u8);
    v.push('k' as u8);
    v.push('e' as u8);
    v.push(',' as u8);
    v.push('t' as u8);
    v.push('o' as u8);
    v.push('o' as u8);
    v.push('k' as u8);
    v.push(',' as u8);
    v.push('s' as u8);
    v.push('u' as u8);
    v.push('b' as u8);
    v.push('j' as u8);
    v.push('e' as u8);
    v.push('c' as u8);
    v.push('t' as u8);
    v.push(',' as u8);
    v.push('s' as u8);
    v.push('e' as u8);
    v.push('s' as u8);
    v.push('s' as u8);
    v.push('i' as u8);
    v.push('o' as u8);
    v.push('n' as u8);
    v.push(',' as u8);
    v.push('r' as u8);
    v.push('e' as u8);
    v.push('p' as u8);
    proof {
        assert(v@ =~= spec_result_header());
    }
    v
}

/// One data row of a timing-audit file.
pub open spec fn spec_render_result_row(row: ResultRow) -> Seq<u8> {
    spec_render_u64(row.index as int) + seq![(',' as u8)] + spec_render_u64(
        row.should_take_micros as int,
    ) + seq![(',' as u8)] + spec_render_u64(row.took_micros as int) + seq![(',' as u8)]
        + row.subject@ + seq![(',' as u8)] + spec_render_u64(row.session_index as int) + seq![
        (',' as u8),
    ] + spec_render_u64(row.rep as int)
}

pub fn render_result_row(row: &ResultRow) -> (r: Vec<u8>)
    ensures
        r@ == spec_render_result_row(*row),
{
    let mut out = render_u64(row.index);
    out.push(',' as u8);
    let should = render_u64(row.should_take_micros);
    append_bytes(&mut out, &should);
    out.push(',' as u8);
    let took = render_u64(row.took_micros);
    append_bytes(&mut out, &took);
    out.push(',' as u8);
    append_bytes(&mut out, &row.subject);
    out.push(',' as u8);
    let session = render_u64(row.session_index);
    append_bytes(&mut out, &session);
    out.push(',' as u8);
    let rep = render_u64(row.rep);
    append_bytes(&mut out, &rep);
    proof {
        assert(out@ =~= spec_render_result_row(*row));
    }
    out
}

/// A whole timing-audit file: the header line, then one row per item.
pub open spec fn spec_render_result_file(rows: Seq<ResultRow>) -> Seq<Seq<u8>> {
    seq![spec_result_header()] + Seq::new(rows.len(), |i: int| spec_render_result_row(rows[i]))
}

pub fn render_result_file(rows: &Vec<ResultRow>) -> (r: Vec<Vec<u8>>)
    ensures
        r@.len() == rows@.len() + 1,
        r@[0]@ == spec_result_header(),
        forall|k: int|
            0 <= k < rows@.len() ==> (#[trigger] r@[k + 1])@ == spec_render_result_row(rows@[k]),
{
    let mut out: Vec<Vec<u8>> = Vec::new();
    out.push(result_header());
    let mut i: usize = 0;
    while i < rows.len()
        invariant
            i <= rows@.len(),
            out@.len() == i + 1,
            out@[0]@ == spec_result_header(),
            forall|k: int|
                0 <= k < i ==> (#[trigger] out@[k + 1])@ == spec_render_result_row(rows@[k]),
        decreases rows@.len() - i,
    {
        out.push(render_result_row(&rows[i]));
        i = i + 1;
    }
    out
}

/// What re-reading a result file finds: the number of data rows under the
/// expected header, or nothing when the header is missing.
pub open spec fn spec_count_data_rows(lines: Seq<Seq<u8>>, header: Seq<u8>) -> Option<int> {
    if lines.len() >= 1 && lines[0] == header {
        Some((lines.len() - 1) as int)
    } else {
        None
    }
}

pub fn bytes_eq(a: &Vec<u8>, b: &Vec<u8>) -> (r: bool)
    ensures
        r == (a@ == b@),
{
    if a.len() != b.len() {
        return false;
    }
    let mut i: usize = 0;
    while i < a.len()
        invariant
            a@.len() == b@.len(),
            i <= a@.len(),
            forall|j: int| 0 <= j < i ==> a@[j] == b@[j],
        decreases a@.len() - i,
    {
        if a[i] != b[i] {
            return false;
        }
        i = i + 1;
    }
    proof {
        assert(a@ =~= b@);
    }
    true
}

/// Re-reads a result file far enough to audit it: checks the header line
/// and counts the data rows that follow it.
pub fn count_data_rows(lines: &Vec<Vec<u8>>, header: &Vec<u8>) -> (r: Option<usize>)
    ensures
        match r {
            Some(n) => lines@.len() >= 1 && lines@[0]@ == header@ && n + 1 == lines@.len(),
            None => lines@.len() == 0 || lines@[0]@ != header@,
        },
{
    if lines.len() == 0 {
        return None;
    }
    if !bytes_eq(&lines[0], header) {
        return None;
    }
    Some(lines.len() - 1)
}

/// Law: export round trip for a capture file. Re-reading an exported
/// capture file always succeeds and finds exactly one data row per
/// captured event.
pub proof fn lemma_captured_export_round_trip(events: Seq<CapturedEvent>)
    ensures
        spec_count_data_rows(spec_render_captured_file(events), spec_captured_header())
            == Some(events.len() as int),
{
    let lines = spec_render_captured_file(events);
    assert(lines[0] == spec_captured_header());
    assert(lines.len() == events.len() + 1);
}

/// Law: export round trip for a timing-audit file. Re-reading an exported
/// audit file always succeeds and finds exactly one data row per item of
/// the dispatched schedule.
pub proof fn lemma_result_export_round_trip(rows: Seq<ResultRow>)
    ensures
        spec_count_data_rows(spec_render_result_file(rows), spec_result_header()) == Some(
            rows.len() as int,
        ),
{
    let lines = spec_render_result_file(rows);
    assert(lines[0] == spec_result_header());
    assert(lines.len() == rows.len() + 1);
}

/// The header of a free-text key log: `key,`.
pub open spec fn spec_key_header() -> Seq<u8> {
    seq![('k' as u8), ('e' as u8), ('y' as u8), (',' as u8)]
}

/// A free-text key log: the header, then each raw key code on its own
/// line with a trailing delimiter.
pub open spec fn spec_render_key_file(codes: Seq<u8>) -> Seq<Seq<u8>> {
    seq![spec_key_header()] + Seq::new(
        codes.len(),
        |i: int| spec_render_u64(codes[i] as int).push(',' as u8),
    )
}

pub fn render_key_file(codes: &Vec<u8>) -> (r: Vec<Vec<u8>>)
    ensures
        r@.len() == codes@.len() + 1,
        r@[0]@ == spec_key_header(),
        forall|k: int|
            0 <= k < codes@.len() ==> (#[trigger] r@[k + 1])@ == spec_render_u64(
                codes@[k] as int,
            ).push(',' as u8),
{
    let mut header: Vec<u8> = Vec::new();
    header.push('k' as u8);
    header.push('e' as u8);
    header.push('y' as u8);
    header.push(',' as u8);
    proof {
        assert(header@ =~= spec_key_header());
    }
    let mut out: Vec<Vec<u8>> = Vec::new();
    out.push(header);
    let mut i: usize = 0;
    while i < codes.len()
        invariant
            i <= codes@.len(),
            out@.len() == i + 1,
            out@[0]@ == spec_key_header(),
            forall|k: int|
                0 <= k < i ==> (#[trigger] out@[k + 1])@ == spec_render_u64(
                    codes@[k] as int,
                ).push(',' as u8),
        decreases codes@.len() - i,
    {
        let mut line = render_u64(codes[i] as u64);
        line.push(',' as u8);
        out.push(line);
        i = i + 1;
    }
    out
}

} // verus!
