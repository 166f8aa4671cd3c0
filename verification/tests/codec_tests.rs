//! Frame codec behaviour on concrete wires.

use contego::codec::{find_terminator, parse_record, take_record, write_record};
use contego::errors::TransferError;

#[test]
fn frame_empty_payload() {
    // An empty payload encodes to a bare terminator.
    let wire = write_record(&Vec::new());
    assert_eq!(wire, b":".to_vec());
    assert_eq!(parse_record(&wire), Ok(Vec::new()));
}

#[test]
fn frame_known_vectors() {
    // Unpadded standard base-64 of "f", "fo", "foo".
    assert_eq!(write_record(&b"f".to_vec()), b"Zg:".to_vec());
    assert_eq!(write_record(&b"fo".to_vec()), b"Zm8:".to_vec());
    assert_eq!(write_record(&b"foo".to_vec()), b"Zm9v:".to_vec());
}

#[test]
fn frame_round_trip() {
    // Payloads survive framing unchanged, terminator bytes included.
    let payloads: Vec<Vec<u8>> = vec![
        b"hello world".to_vec(),
        b"with:colons::".to_vec(),
        vec![0u8, 255, 58, 58, 1, 2, 3],
        (0u8..=255).collect(),
    ];
    for p in payloads {
        let wire = write_record(&p);
        assert_eq!(parse_record(&wire), Ok(p));
    }
}

#[test]
fn parse_rejects_unterminated() {
    assert_eq!(
        parse_record(&b"Zg".to_vec()),
        Err(TransferError::UnterminatedRecord)
    );
    assert_eq!(
        parse_record(&Vec::new()),
        Err(TransferError::UnterminatedRecord)
    );
}

#[test]
fn parse_rejects_bad_encoding() {
    // '!' is outside the alphabet; "Zg=" carries padding; "A" dangles.
    assert_eq!(parse_record(&b"Z!:".to_vec()), Err(TransferError::Encoding));
    assert_eq!(parse_record(&b"Zg=:".to_vec()), Err(TransferError::Encoding));
    assert_eq!(parse_record(&b"A:".to_vec()), Err(TransferError::Encoding));
}

#[test]
fn parse_rejects_noncanonical_trailing_bits() {
    // "Zh" decodes the same 6-bit groups as "Zg" but with nonzero trailing
    // bits; a canonical codec must reject it.
    assert_eq!(parse_record(&b"Zh:".to_vec()), Err(TransferError::Encoding));
}

#[test]
fn take_record_splits_stream() {
    let mut buf = Vec::new();
    buf.extend_from_slice(b"Zg:");
    buf.extend_from_slice(b"Zm8:");
    buf.extend_from_slice(b"Zm");
    let first = take_record(&mut buf).expect("first record");
    assert_eq!(first, b"Zg:".to_vec());
    let second = take_record(&mut buf).expect("second record");
    assert_eq!(second, b"Zm8:".to_vec());
    assert!(take_record(&mut buf).is_none());
    assert_eq!(buf, b"Zm".to_vec());
}

#[test]
fn find_terminator_first_colon() {
    assert_eq!(find_terminator(&b"ab:cd:".to_vec()), Some(2));
    assert_eq!(find_terminator(&b"abcd".to_vec()), None);
}
