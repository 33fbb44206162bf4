use keytimer::errors::SimError;
use keytimer::freetext::{create_task_list, tasks_to_schedule, wrap_delta, Task};
use keytimer::keys::{map_u8_key, KeyCode};
use keytimer::schedule::{Event, KeyEvent};

fn lines(tokens: &[&str]) -> Vec<String> {
    tokens.iter().map(|t| t.to_string()).collect()
}

#[test]
fn wrap_delta_wraps_across_reset() {
    assert_eq!(wrap_delta(99_950, 30), 80);
}

#[test]
fn wrap_delta_monotonic_increment() {
    assert_eq!(wrap_delta(100, 500), 400);
}

#[test]
fn wrap_delta_equal_readings() {
    assert_eq!(wrap_delta(100, 100), 0);
}

#[test]
fn task_list_interleaves_waits_and_keys() {
    let raw = lines(&["0", "97", "100", "98"]);
    let tl = create_task_list(&raw).unwrap();
    assert_eq!(
        tl.tasks,
        vec![
            Task::Key(KeyCode::Layout('a')),
            Task::Wait(100_000),
            Task::Key(KeyCode::Layout('b')),
        ]
    );
    assert_eq!(tl.key_codes, vec![97, 98]);
    assert_eq!(tl.unmappable, 0);
}

#[test]
fn task_list_first_key_has_no_wait() {
    let raw = lines(&["42", "97"]);
    let tl = create_task_list(&raw).unwrap();
    assert_eq!(tl.tasks, vec![Task::Key(KeyCode::Layout('a'))]);
}

#[test]
fn task_list_omits_zero_length_waits() {
    let raw = lines(&["50", "97", "50", "98"]);
    let tl = create_task_list(&raw).unwrap();
    assert_eq!(
        tl.tasks,
        vec![Task::Key(KeyCode::Layout('a')), Task::Key(KeyCode::Layout('b'))]
    );
}

#[test]
fn task_list_wraps_timestamps() {
    let raw = lines(&["99950", "97", "30", "98"]);
    let tl = create_task_list(&raw).unwrap();
    assert_eq!(
        tl.tasks,
        vec![
            Task::Key(KeyCode::Layout('a')),
            Task::Wait(80_000),
            Task::Key(KeyCode::Layout('b')),
        ]
    );
}

#[test]
fn task_list_rejects_odd_length() {
    let raw = lines(&["0", "97", "100"]);
    assert_eq!(create_task_list(&raw).unwrap_err(), SimError::MalformedRecord);
}

#[test]
fn task_list_rejects_non_numeric_token() {
    let raw = lines(&["0", "x"]);
    assert_eq!(create_task_list(&raw).unwrap_err(), SimError::MalformedRecord);
}

#[test]
fn task_list_rejects_timestamp_at_wrap_modulus() {
    let raw = lines(&["100000", "97"]);
    assert_eq!(create_task_list(&raw).unwrap_err(), SimError::MalformedRecord);
}

#[test]
fn task_list_rejects_oversized_key_code() {
    let raw = lines(&["0", "256"]);
    assert_eq!(create_task_list(&raw).unwrap_err(), SimError::MalformedRecord);
}

#[test]
fn task_list_flags_unmappable_codes() {
    let raw = lines(&["0", "7"]);
    let tl = create_task_list(&raw).unwrap();
    assert_eq!(tl.tasks, vec![Task::Key(KeyCode::Unmapped)]);
    assert_eq!(tl.unmappable, 1);
}

#[test]
fn tasks_to_schedule_pairs_down_and_up() {
    let tasks = vec![
        Task::Wait(100),
        Task::Key(KeyCode::Layout('a')),
        Task::Key(KeyCode::Layout('b')),
        Task::Wait(50),
        Task::Key(KeyCode::Layout('c')),
    ];
    let events = tasks_to_schedule(&tasks);
    assert_eq!(
        events,
        vec![
            Event { timestamp: 100, key_event: KeyEvent::KeyDown(KeyCode::Layout('a')) },
            Event { timestamp: 100, key_event: KeyEvent::KeyUp(KeyCode::Layout('a')) },
            Event { timestamp: 100, key_event: KeyEvent::KeyDown(KeyCode::Layout('b')) },
            Event { timestamp: 100, key_event: KeyEvent::KeyUp(KeyCode::Layout('b')) },
            Event { timestamp: 150, key_event: KeyEvent::KeyDown(KeyCode::Layout('c')) },
            Event { timestamp: 150, key_event: KeyEvent::KeyUp(KeyCode::Layout('c')) },
        ]
    );
}

#[test]
fn map_u8_key_folds_uppercase() {
    assert_eq!(map_u8_key(65), KeyCode::Layout('a'));
    assert_eq!(map_u8_key(90), KeyCode::Layout('z'));
}

#[test]
fn map_u8_key_keeps_lowercase_and_digits() {
    assert_eq!(map_u8_key(97), KeyCode::Layout('a'));
    assert_eq!(map_u8_key(122), KeyCode::Layout('z'));
    assert_eq!(map_u8_key(48), KeyCode::Layout('0'));
    assert_eq!(map_u8_key(57), KeyCode::Layout('9'));
}

#[test]
fn map_u8_key_special_codes() {
    assert_eq!(map_u8_key(8), KeyCode::Backspace);
    assert_eq!(map_u8_key(13), KeyCode::Layout('\r'));
    assert_eq!(map_u8_key(32), KeyCode::Space);
    assert_eq!(map_u8_key(44), KeyCode::Layout(','));
    assert_eq!(map_u8_key(45), KeyCode::Layout('-'));
    assert_eq!(map_u8_key(46), KeyCode::Layout('.'));
}

#[test]
fn map_u8_key_falls_back_on_unknown() {
    assert_eq!(map_u8_key(7), KeyCode::Unmapped);
    assert_eq!(map_u8_key(200), KeyCode::Unmapped);
}

#[test]
fn task_list_of_empty_record_is_empty() {
    let raw: Vec<String> = Vec::new();
    let tl = create_task_list(&raw).unwrap();
    assert!(tl.tasks.is_empty());
    assert!(tl.key_codes.is_empty());
    assert_eq!(tl.unmappable, 0);
}

#[test]
fn wrap_delta_longest_monotonic_step() {
    assert_eq!(wrap_delta(0, 99_999), 99_999);
}
