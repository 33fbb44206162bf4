use std::time::Instant;

use keytimer::dispatch::{drift_exceeded, Dispatcher};
use keytimer::keys::KeyCode;
use keytimer::schedule::{compile_structured, DurationRecord, KeyEvent, KeyStroke};

fn two_key_schedule() -> DurationRecord {
    DurationRecord {
        strokes: vec![
            KeyStroke { code: KeyCode::Layout('a'), shifted: false, hold_micros: 100_000 },
            KeyStroke { code: KeyCode::Layout('b'), shifted: false, hold_micros: 100_000 },
        ],
        gaps: vec![50_000],
    }
}

#[test]
fn dispatch_against_noop_injector_takes_the_span() {
    let schedule = compile_structured(&two_key_schedule());
    let mut dispatcher = Dispatcher::new(schedule, 3_000);
    let start = Instant::now();
    let mut count = 0;
    while let Some(step) = dispatcher.next_action() {
        assert_eq!(step.index, count);
        count += 1;
        // the injector is a no-op: nothing happens between steps
    }
    let elapsed = start.elapsed().as_secs_f64();
    assert_eq!(count, 4);
    // offsets were [0, 0.1, 0.15, 0.25]: the walk takes the full span and
    // only a sliver more
    assert!(elapsed >= 0.25);
    assert!(elapsed < 0.26);
    assert!(dispatcher.waited_micros() >= 250_000);
}

#[test]
fn dispatch_steps_follow_the_schedule() {
    let schedule = compile_structured(&two_key_schedule());
    let expected = schedule.clone();
    let mut dispatcher = Dispatcher::new(schedule, 1_000_000);
    let mut steps = Vec::new();
    while let Some(step) = dispatcher.next_action() {
        steps.push(step);
    }
    assert_eq!(steps.len(), expected.len());
    for (k, step) in steps.iter().enumerate() {
        assert_eq!(step.event, expected[k]);
        assert_eq!(step.nominal_micros, expected[k].timestamp);
        assert_eq!(step.index, k);
        // a generous tolerance keeps every step inside the band
        assert!(!step.drift_exceeded);
    }
    assert_eq!(steps[0].event.key_event, KeyEvent::KeyDown(KeyCode::Layout('a')));
    assert!(dispatcher.next_action().is_none());
}

#[test]
fn dispatch_remaining_counts_down() {
    let schedule = compile_structured(&two_key_schedule());
    let mut dispatcher = Dispatcher::new(schedule, 3_000);
    assert_eq!(dispatcher.remaining(), 4);
    dispatcher.next_action();
    assert_eq!(dispatcher.remaining(), 3);
}

#[test]
fn drift_band_widens_per_action() {
    // no drift at all
    assert!(!drift_exceeded(100, 100, 0, 0));
    // five over a band of four
    assert!(drift_exceeded(100, 105, 0, 4));
    // the same five inside the second action's band of eight
    assert!(!drift_exceeded(100, 105, 1, 4));
    // early is drift too
    assert!(drift_exceeded(105, 100, 0, 4));
}
