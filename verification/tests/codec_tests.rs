use keytimer::capture::{CapturedEvent, Direction};
use keytimer::codec::{
    captured_header, count_data_rows, render_captured_file, render_captured_row, render_key_file,
    render_result_file, render_result_row, render_u64, result_header, ResultRow,
};

#[test]
fn render_u64_decimal_digits() {
    assert_eq!(render_u64(0), b"0".to_vec());
    assert_eq!(render_u64(7), b"7".to_vec());
    assert_eq!(render_u64(1_234_567), b"1234567".to_vec());
    assert_eq!(render_u64(u64::MAX), b"18446744073709551615".to_vec());
}

#[test]
fn captured_row_renders_as_csv() {
    let down = CapturedEvent { elapsed_micros: 1_500, direction: Direction::Down, code: 48 };
    assert_eq!(render_captured_row(&down), b"1500,48,keydown".to_vec());
    let up = CapturedEvent { elapsed_micros: 2_750, direction: Direction::Up, code: 97 };
    assert_eq!(render_captured_row(&up), b"2750,97,keyup".to_vec());
}

#[test]
fn captured_file_round_trips_its_row_count() {
    let events = vec![
        CapturedEvent { elapsed_micros: 10, direction: Direction::Down, code: 48 },
        CapturedEvent { elapsed_micros: 20, direction: Direction::Up, code: 48 },
        CapturedEvent { elapsed_micros: 35, direction: Direction::Down, code: 48 },
    ];
    let lines = render_captured_file(&events);
    assert_eq!(lines.len(), 4);
    assert_eq!(lines[0], b"timestamp,key,type".to_vec());
    // re-reading the exported file finds one row per event
    assert_eq!(count_data_rows(&lines, &captured_header()), Some(3));
}

#[test]
fn count_data_rows_rejects_missing_header() {
    let lines = vec![b"not,the,header".to_vec(), b"1,2,keyup".to_vec()];
    assert_eq!(count_data_rows(&lines, &captured_header()), None);
    let empty: Vec<Vec<u8>> = Vec::new();
    assert_eq!(count_data_rows(&empty, &captured_header()), None);
}

#[test]
fn result_row_renders_as_csv() {
    let row = ResultRow {
        index: 0,
        should_take_micros: 250_000,
        took_micros: 251_000,
        subject: b"s002".to_vec(),
        session_index: 1,
        rep: 1,
    };
    assert_eq!(render_result_row(&row), b"0,250000,251000,s002,1,1".to_vec());
}

#[test]
fn result_file_round_trips_its_row_count() {
    let rows = vec![
        ResultRow {
            index: 0,
            should_take_micros: 100,
            took_micros: 101,
            subject: b"s002".to_vec(),
            session_index: 1,
            rep: 1,
        },
        ResultRow {
            index: 1,
            should_take_micros: 200,
            took_micros: 199,
            subject: b"s002".to_vec(),
            session_index: 1,
            rep: 2,
        },
    ];
    let lines = render_result_file(&rows);
    assert_eq!(lines.len(), 3);
    assert_eq!(lines[0], b"i,should_take,took,subject,session,rep".to_vec());
    assert_eq!(count_data_rows(&lines, &result_header()), Some(2));
}

#[test]
fn key_file_lists_codes_with_delimiters() {
    let codes: Vec<u8> = vec![97, 200];
    let lines = render_key_file(&codes);
    assert_eq!(lines.len(), 3);
    assert_eq!(lines[0], b"key,".to_vec());
    assert_eq!(lines[1], b"97,".to_vec());
    assert_eq!(lines[2], b"200,".to_vec());
}

#[test]
fn render_u64_carries_across_digit_boundaries() {
    assert_eq!(render_u64(9), b"9".to_vec());
    assert_eq!(render_u64(10), b"10".to_vec());
    assert_eq!(render_u64(100), b"100".to_vec());
}
