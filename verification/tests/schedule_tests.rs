use keytimer::keys::KeyCode;
use keytimer::row::Row;
use keytimer::schedule::{compile_structured, DurationRecord, Event, KeyEvent, KeyStroke};

fn two_key_record() -> DurationRecord {
    DurationRecord {
        strokes: vec![
            KeyStroke { code: KeyCode::Layout('a'), shifted: false, hold_micros: 100_000 },
            KeyStroke { code: KeyCode::Layout('b'), shifted: false, hold_micros: 100_000 },
        ],
        gaps: vec![50_000],
    }
}

fn sample_row() -> Row {
    Row {
        subject: b"s002".to_vec(),
        session_index: 1,
        rep: 1,
        h_period: 10_000,
        __dd_period_t: 0,
        ud_period_t: 1_000,
        h_t: 11_000,
        _dd_t_i: 0,
        ud_t_i: 2_000,
        h_i: 12_000,
        _dd_i_e: 0,
        ud_i_e: 3_000,
        h_e: 13_000,
        _dd_e_five: 0,
        ud_e_five: 4_000,
        h_five: 14_000,
        _dd_five_shift_r: 0,
        ud_five_shift_r: 5_000,
        h_shift_r: 15_000,
        _dd_shift_r_o: 0,
        ud_shift_r_o: 6_000,
        h_o: 16_000,
        _dd_o_a: 0,
        ud_o_a: 7_000,
        h_a: 17_000,
        _dd_a_n: 0,
        ud_a_n: 8_000,
        h_n: 18_000,
        _dd_n_l: 0,
        ud_n_l: 9_000,
        h_l: 19_000,
        _dd_l_return: 0,
        ud_l_return: 10_000,
        h_return: 20_000,
    }
}

#[test]
fn two_key_record_offsets() {
    let events = compile_structured(&two_key_record());
    let offsets: Vec<u64> = events.iter().map(|e| e.timestamp).collect();
    assert_eq!(offsets, vec![0, 100_000, 150_000, 250_000]);
    assert_eq!(events[0].key_event, KeyEvent::KeyDown(KeyCode::Layout('a')));
    assert_eq!(events[1].key_event, KeyEvent::KeyUp(KeyCode::Layout('a')));
    assert_eq!(events[2].key_event, KeyEvent::KeyDown(KeyCode::Layout('b')));
    assert_eq!(events[3].key_event, KeyEvent::KeyUp(KeyCode::Layout('b')));
}

#[test]
fn compile_is_deterministic() {
    let first = compile_structured(&two_key_record());
    let second = compile_structured(&two_key_record());
    assert_eq!(first, second);
    let row = sample_row();
    assert_eq!(row.create_events(), row.create_events());
}

#[test]
fn shifted_stroke_tie_break_order() {
    let rec = DurationRecord {
        strokes: vec![KeyStroke { code: KeyCode::Layout('r'), shifted: true, hold_micros: 30_000 }],
        gaps: vec![],
    };
    let events = compile_structured(&rec);
    assert_eq!(events.len(), 4);
    assert_eq!(events[0], Event { timestamp: 0, key_event: KeyEvent::KeyDown(KeyCode::Shift) });
    assert_eq!(
        events[1],
        Event { timestamp: 0, key_event: KeyEvent::KeyDown(KeyCode::Layout('r')) }
    );
    assert_eq!(events[2], Event { timestamp: 0, key_event: KeyEvent::KeyUp(KeyCode::Shift) });
    assert_eq!(
        events[3],
        Event { timestamp: 30_000, key_event: KeyEvent::KeyUp(KeyCode::Layout('r')) }
    );
}

#[test]
fn row_create_events_layout() {
    let row = sample_row();
    let events = row.create_events();
    // ten plain keys contribute two events each, the shifted R four
    assert_eq!(events.len(), 24);
    assert_eq!(events[0], Event { timestamp: 0, key_event: KeyEvent::KeyDown(KeyCode::Layout('.')) });
    assert_eq!(
        events[1],
        Event { timestamp: 10_000, key_event: KeyEvent::KeyUp(KeyCode::Layout('.')) }
    );
    // the shifted R starts after five plain keys
    let r_offset: u64 = (10_000 + 11_000 + 12_000 + 13_000 + 14_000) + (1_000 + 2_000 + 3_000
        + 4_000 + 5_000);
    assert_eq!(
        events[10],
        Event { timestamp: r_offset, key_event: KeyEvent::KeyDown(KeyCode::Shift) }
    );
    assert_eq!(
        events[11],
        Event { timestamp: r_offset, key_event: KeyEvent::KeyDown(KeyCode::Layout('r')) }
    );
    assert_eq!(
        events[12],
        Event { timestamp: r_offset, key_event: KeyEvent::KeyUp(KeyCode::Shift) }
    );
    assert_eq!(
        events[13],
        Event { timestamp: r_offset + 15_000, key_event: KeyEvent::KeyUp(KeyCode::Layout('r')) }
    );
    // the schedule ends with the return key released at the full span
    let span = row.should_take();
    assert_eq!(
        events[23],
        Event { timestamp: span, key_event: KeyEvent::KeyUp(KeyCode::Return) }
    );
    // offsets are sorted
    for pair in events.windows(2) {
        assert!(pair[0].timestamp <= pair[1].timestamp);
    }
}

#[test]
fn row_should_take_sums_holds_and_gaps() {
    let row = sample_row();
    let holds: u64 = 10_000 + 11_000 + 12_000 + 13_000 + 14_000 + 15_000 + 16_000 + 17_000
        + 18_000 + 19_000 + 20_000;
    let gaps: u64 = 1_000 + 2_000 + 3_000 + 4_000 + 5_000 + 6_000 + 7_000 + 8_000 + 9_000
        + 10_000;
    assert_eq!(row.should_take(), holds + gaps);
}

#[test]
fn event_constructors() {
    let down = Event::new_down(5, KeyCode::Space);
    assert_eq!(down, Event { timestamp: 5, key_event: KeyEvent::KeyDown(KeyCode::Space) });
    let up = Event::new_up(7, KeyCode::Space);
    assert_eq!(up, Event { timestamp: 7, key_event: KeyEvent::KeyUp(KeyCode::Space) });
}
