//! Decimal ASCII conversions and the command-line validators.

use contego::decimal::{parse_dec, u64_to_dec, validate_buffersize, validate_port};

#[test]
fn decimal_render_known_values() {
    assert_eq!(u64_to_dec(0), b"0".to_vec());
    assert_eq!(u64_to_dec(7), b"7".to_vec());
    assert_eq!(u64_to_dec(8080), b"8080".to_vec());
    assert_eq!(u64_to_dec(u64::MAX), b"18446744073709551615".to_vec());
}

#[test]
fn decimal_parse_known_values() {
    assert_eq!(parse_dec(b"0"), Some(0));
    assert_eq!(parse_dec(b"8192"), Some(8192));
    assert_eq!(parse_dec(b"007"), Some(7));
    assert_eq!(parse_dec(b"18446744073709551615"), Some(u64::MAX));
}

#[test]
fn decimal_parse_rejects_bad_input() {
    assert_eq!(parse_dec(b""), None);
    assert_eq!(parse_dec(b"12a"), None);
    assert_eq!(parse_dec(b"-1"), None);
    assert_eq!(parse_dec(b" 1"), None);
    assert_eq!(parse_dec(b"18446744073709551616"), None);
}

#[test]
fn decimal_round_trip() {
    for n in [0u64, 1, 9, 10, 99, 100, 12345, u64::MAX] {
        assert_eq!(parse_dec(&u64_to_dec(n)), Some(n));
    }
}

#[test]
fn port_validation() {
    assert_eq!(validate_port("8080"), Ok(8080));
    assert_eq!(validate_port("0"), Ok(0));
    assert_eq!(validate_port("65535"), Ok(65535));
    assert!(validate_port("65536").is_err());
    assert!(validate_port("").is_err());
    assert!(validate_port("80a").is_err());
}

#[test]
fn buffersize_validation() {
    assert_eq!(validate_buffersize("8192"), Ok(8192));
    assert_eq!(validate_buffersize("1"), Ok(1));
    assert!(validate_buffersize("").is_err());
    assert!(validate_buffersize("8k").is_err());
}
