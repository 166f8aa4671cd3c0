//! Resolving download requests against a learned catalog.

use contego::peer::Request;
use contego::util::{FileInfo, Ip};

fn metadata() -> Vec<FileInfo> {
    vec![
        FileInfo::new("1.txt".to_string(), 10, "aa".repeat(32)),
        FileInfo::new("2.txt".to_string(), 20, "bb".repeat(32)),
    ]
}

#[test]
fn request_resolves_known_name() {
    let req = Request::new("2.txt".to_string(), &metadata()).expect("request");
    assert_eq!(req.name, "2.txt");
    assert_eq!(req.size, 20);
    assert_eq!(req.hash, "bb".repeat(32));
}

#[test]
fn request_unknown_name_is_none() {
    assert!(Request::new("3.txt".to_string(), &metadata()).is_none());
}

#[test]
fn ip_variants_compare() {
    assert_eq!(Ip::Local, Ip::Local);
    assert_ne!(Ip::V4, Ip::V6);
}
