use keytimer::errors::Error;
use keytimer::numbers::parse_u64_token;
use keytimer::keys::{sampler_key, KeyCode, DOWNLOAD_KEY};
use keytimer::simulate::{simulated_hold_micros, simulated_units};

#[test]
fn error_carries_its_message() {
    let e = Error::new("something went sideways".to_string());
    assert_eq!(e.message(), "something went sideways");
    assert_eq!(e.0, "something went sideways");
}

#[test]
fn simulated_hold_stays_in_its_band() {
    for _ in 0..200 {
        let hold = simulated_hold_micros();
        assert!((90_000..200_000).contains(&hold));
    }
}

#[test]
fn simulated_units_double_in_extended_mode() {
    assert_eq!(simulated_units(false), 1);
    assert_eq!(simulated_units(true), 2);
}

#[test]
fn sampler_cycles_through_its_keys() {
    assert_eq!(sampler_key(0), KeyCode::Layout('a'));
    assert_eq!(sampler_key(25), KeyCode::Layout('z'));
    assert_eq!(sampler_key(26), KeyCode::Delete);
    assert_eq!(sampler_key(27), KeyCode::Layout('.'));
    assert_eq!(sampler_key(28), KeyCode::Layout('a'));
    assert_eq!(sampler_key(61), KeyCode::Layout('f'));
}

#[test]
fn download_key_is_the_escape_key() {
    assert_eq!(DOWNLOAD_KEY, KeyCode::Escape);
}

#[test]
fn parse_u64_token_boundaries() {
    assert_eq!(parse_u64_token("0"), Some(0));
    assert_eq!(parse_u64_token("18446744073709551615"), Some(u64::MAX));
    assert_eq!(parse_u64_token("18446744073709551616"), None);
    assert_eq!(parse_u64_token(""), None);
    assert_eq!(parse_u64_token("12a"), None);
    assert_eq!(parse_u64_token("-3"), None);
}
