use keytimer::capture::{CaptureSession, CapturedEvent, Direction};
use keytimer::errors::SimError;

fn event(at: u64) -> CapturedEvent {
    CapturedEvent { elapsed_micros: at, direction: Direction::Down, code: 48 }
}

#[test]
fn capture_exact_count_at_five() {
    let mut session = CaptureSession::new(5, false);
    for k in 0..5 {
        assert!(!session.is_completed());
        assert!(session.offer(event(k)));
    }
    // after five matching events the flag is set
    assert!(session.is_completed());
    assert_eq!(session.captured_len(), 5);
    // a sixth event produces no buffer growth
    assert!(!session.offer(event(5)));
    assert_eq!(session.captured_len(), 5);
    assert!(session.is_completed());
    let events = session.drain().unwrap();
    assert_eq!(events.len(), 5);
    assert_eq!(events[0], event(0));
    assert_eq!(events[4], event(4));
}

#[test]
fn extended_mode_doubles_target() {
    let session = CaptureSession::new(3, true);
    assert_eq!(session.target_count(), 6);
}

#[test]
fn matches_presses_always_and_releases_only_extended() {
    let plain = CaptureSession::new(1, false);
    assert!(plain.matches(Direction::Down));
    assert!(!plain.matches(Direction::Up));
    let extended = CaptureSession::new(1, true);
    assert!(extended.matches(Direction::Down));
    assert!(extended.matches(Direction::Up));
}

#[test]
fn drain_before_completion_is_count_mismatch() {
    let mut session = CaptureSession::new(2, false);
    session.offer(event(0));
    assert_eq!(session.drain().unwrap_err(), SimError::CaptureCountMismatch);
    // the failed drain changed nothing
    assert_eq!(session.captured_len(), 1);
}

#[test]
fn zero_target_completes_immediately() {
    let mut session = CaptureSession::new(0, false);
    assert!(session.is_completed());
    assert!(!session.offer(event(0)));
    assert_eq!(session.drain().unwrap().len(), 0);
}
