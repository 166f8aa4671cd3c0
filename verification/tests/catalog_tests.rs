//! Catalog construction and the entry wire format.

use contego::catalog::{encode_entry, parse_entry, Catalog};
use contego::errors::TransferError;
use contego::util::{file_entry, FileInfo};

const ABC_DIGEST: &str = "ba7816bf8f01cfea414140de5dae2223b00361a396177a9cb410ff61f20015ad";

#[test]
fn file_entry_known_digest() {
    let info = file_entry("a.txt".to_string(), &b"abc".to_vec()).expect("entry");
    assert_eq!(info.name, "a.txt");
    assert_eq!(info.size, 3);
    assert_eq!(info.hash, ABC_DIGEST);
}

#[test]
fn file_entry_excludes_empty() {
    // Zero-size exclusion starts at the descriptor: empty contents yield none.
    assert!(file_entry("empty.txt".to_string(), &Vec::new()).is_none());
}

#[test]
fn entry_line_round_trip() {
    let info = file_entry("1.txt".to_string(), &b"hello".to_vec()).expect("entry");
    let line = encode_entry(&info);
    let parsed = parse_entry(&line).expect("parse");
    assert_eq!(parsed.name, info.name);
    assert_eq!(parsed.size, info.size);
    assert_eq!(parsed.hash, info.hash);
}

#[test]
fn entry_line_round_trip_with_colon_in_name() {
    // Names may hold the separator; parsing works from the right.
    let info = file_entry("we:ird:name".to_string(), &b"data".to_vec()).expect("entry");
    let line = encode_entry(&info);
    let parsed = parse_entry(&line).expect("parse");
    assert_eq!(parsed.name, "we:ird:name");
    assert_eq!(parsed.size, 4);
}

#[test]
fn entry_line_shape() {
    let info = FileInfo::new("n".to_string(), 5, ABC_DIGEST.to_string());
    let line = encode_entry(&info);
    let mut expected = b"n:5:".to_vec();
    expected.extend_from_slice(ABC_DIGEST.as_bytes());
    assert_eq!(line, expected);
}

#[test]
fn entry_parse_rejects_malformed() {
    let cases: Vec<Vec<u8>> = vec![
        b"no separators".to_vec(),
        b"name:sizeless".to_vec(),
        b"name:12x:hash".to_vec(),
        // Non-canonical size digits are refused too.
        b"name:007:hash".to_vec(),
    ];
    for case in cases {
        assert!(matches!(
            parse_entry(&case),
            Err(TransferError::MalformedEntry)
        ));
    }
    // A name that is not valid UTF-8 is refused.
    let mut bad = vec![0xFFu8, 0xFE];
    bad.extend_from_slice(b":1:aa");
    assert!(matches!(parse_entry(&bad), Err(TransferError::MalformedEntry)));
}

#[test]
fn catalog_build_keeps_order_and_origin() {
    let sources = vec![
        file_entry("1.txt".to_string(), &b"alpha".to_vec()),
        None,
        file_entry("2.txt".to_string(), &b"beta".to_vec()),
    ];
    let catalog = Catalog::build(&sources);
    assert_eq!(catalog.len(), 2);
    assert_eq!(catalog.get(0).name, "1.txt");
    assert_eq!(catalog.get(1).name, "2.txt");
    assert_eq!(catalog.origin_of(0), 0);
    assert_eq!(catalog.origin_of(1), 2);
}

#[test]
fn catalog_build_collapses_duplicate_digests() {
    // Identical contents under two names share a digest: the first stays.
    let sources = vec![
        file_entry("first.txt".to_string(), &b"same bytes".to_vec()),
        file_entry("second.txt".to_string(), &b"same bytes".to_vec()),
        file_entry("other.txt".to_string(), &b"different".to_vec()),
    ];
    let catalog = Catalog::build(&sources);
    assert_eq!(catalog.len(), 2);
    assert_eq!(catalog.get(0).name, "first.txt");
    assert_eq!(catalog.get(1).name, "other.txt");
}

#[test]
fn catalog_lookup_by_digest_bytes() {
    let sources = vec![file_entry("a.txt".to_string(), &b"abc".to_vec())];
    let catalog = Catalog::build(&sources);
    assert_eq!(catalog.lookup_bytes(&ABC_DIGEST.as_bytes().to_vec()), Some(0));
    assert_eq!(catalog.lookup_bytes(&b"unknown".to_vec()), None);
}
