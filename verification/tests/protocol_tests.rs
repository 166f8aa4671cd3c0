//! Whole-protocol runs: a host machine and a peer machine wired together
//! in memory, with an in-memory set of source files.

use contego::catalog::Catalog;
use contego::errors::TransferError;
use contego::host::{HostConn, HostEffect, HostEvent};
use contego::peer::{Peer, PeerEffect};
use contego::session::{handshake_begin, handshake_complete};
use contego::codec::parse_record;
use contego::util::file_entry;

fn build_catalog(names: &[&str], data: &[Vec<u8>]) -> Catalog {
    let mut sources = Vec::new();
    for (name, content) in names.iter().zip(data.iter()) {
        sources.push(file_entry(name.to_string(), content));
    }
    Catalog::build(&sources)
}

/// Pumps messages between the two machines until both fall silent.
/// Returns the files the peer wrote and the errors either side reported.
fn run_session(
    host: &mut HostConn,
    peer: &mut Peer,
    data: &[Vec<u8>],
) -> (
    Vec<(String, Vec<u8>)>,
    Option<TransferError>,
    Option<TransferError>,
) {
    let mut written = Vec::new();
    let mut host_err = None;
    let mut peer_err = None;
    let mut to_host: Vec<Vec<u8>> = vec![peer.start()];
    let mut to_peer: Vec<Vec<u8>> = Vec::new();
    let mut rounds = 0;
    while (!to_host.is_empty() || !to_peer.is_empty()) && rounds < 10_000 {
        rounds += 1;
        if !to_host.is_empty() {
            let m = to_host.remove(0);
            if host.finished() {
                continue;
            }
            let (sends, mut effect) = host.step(HostEvent::Message(m));
            to_peer.extend(sends);
            while let HostEffect::NeedFile(i) = effect {
                let (more, next) = host.step(HostEvent::FileContent(data[i].clone()));
                to_peer.extend(more);
                effect = next;
            }
            if let HostEffect::CloseErr(e) = effect {
                host_err = Some(e);
            }
        } else {
            let m = to_peer.remove(0);
            if peer.finished() {
                continue;
            }
            let (sends, effect) = peer.step(m);
            to_host.extend(sends);
            match effect {
                PeerEffect::WriteFile { name, content } => written.push((name, content)),
                PeerEffect::CloseErr(e) => peer_err = Some(e),
                _ => {}
            }
        }
    }
    (written, host_err, peer_err)
}

#[test]
fn full_transfer_three_files() {
    // A correct key downloads every advertised file byte-identically, in
    // catalog order, through chunked records.
    let names = ["1.txt", "2.txt", "3.txt"];
    let data = vec![
        b"the first file's thirty bytes!".to_vec(),
        b"second file contents go here..".to_vec(),
        b"third and last of the files...".to_vec(),
    ];
    let catalog = build_catalog(&names, &data);
    let mut host = HostConn::new("test".to_string(), 8, catalog);
    let mut peer = Peer::new("test".to_string());
    let (written, host_err, peer_err) = run_session(&mut host, &mut peer, &data);
    assert_eq!(host_err, None);
    assert_eq!(peer_err, None);
    assert!(host.finished());
    assert!(peer.finished());
    assert_eq!(written.len(), 3);
    for (i, (name, content)) in written.iter().enumerate() {
        assert_eq!(name, names[i]);
        assert_eq!(content, &data[i]);
    }
}

#[test]
fn wrong_key_gets_nothing() {
    // Authorization gate: a wrong key sees the rejection and nothing else.
    let names = ["1.txt"];
    let data = vec![b"secret contents".to_vec()];
    let catalog = build_catalog(&names, &data);
    let mut host = HostConn::new("right".to_string(), 8, catalog);
    let mut peer = Peer::new("wrong".to_string());
    let (written, host_err, peer_err) = run_session(&mut host, &mut peer, &data);
    assert_eq!(written.len(), 0);
    assert_eq!(host_err, Some(TransferError::Unauthorized));
    assert_eq!(peer_err, Some(TransferError::Unauthorized));
    assert!(host.finished());
    assert!(peer.finished());
}

#[test]
fn empty_catalog_closes_cleanly() {
    // Catalog count zero: the peer echoes it, requests nothing, and both
    // sides close without error.
    let catalog = build_catalog(&[], &[]);
    let mut host = HostConn::new("key".to_string(), 8, catalog);
    let mut peer = Peer::new("key".to_string());
    let (written, host_err, peer_err) = run_session(&mut host, &mut peer, &[]);
    assert_eq!(written.len(), 0);
    assert_eq!(host_err, None);
    assert_eq!(peer_err, None);
    assert!(host.finished());
    assert!(peer.finished());
}

#[test]
fn unknown_digest_closes_with_error() {
    let names = ["1.txt"];
    let data = vec![b"contents".to_vec()];
    let catalog = build_catalog(&names, &data);
    let mut host = HostConn::new("key".to_string(), 8, catalog);
    let (_, effect) = host.step(HostEvent::Message(b"key".to_vec()));
    assert_eq!(effect, HostEffect::Continue);
    let (_, effect) = host.step(HostEvent::Message(b"1".to_vec()));
    assert_eq!(effect, HostEffect::Continue);
    let bogus = "0000000000000000000000000000000000000000000000000000000000000000";
    let (sends, effect) = host.step(HostEvent::Message(bogus.as_bytes().to_vec()));
    assert_eq!(sends.len(), 0);
    assert_eq!(effect, HostEffect::CloseErr(TransferError::UnknownDigest));
    assert!(host.finished());
}

#[test]
fn count_echo_mismatch_breaks_sequence() {
    let names = ["1.txt"];
    let data = vec![b"contents".to_vec()];
    let catalog = build_catalog(&names, &data);
    let mut host = HostConn::new("key".to_string(), 8, catalog);
    let (_, effect) = host.step(HostEvent::Message(b"key".to_vec()));
    assert_eq!(effect, HostEffect::Continue);
    let (sends, effect) = host.step(HostEvent::Message(b"5".to_vec()));
    assert_eq!(sends.len(), 0);
    assert_eq!(effect, HostEffect::CloseErr(TransferError::BrokenSequence));
}

#[test]
fn wrong_confirmation_is_digest_mismatch() {
    let names = ["1.txt"];
    let data = vec![b"contents".to_vec()];
    let catalog = build_catalog(&names, &data);
    let digest = catalog.get(0).hash.clone();
    let mut host = HostConn::new("key".to_string(), 64, catalog);
    host.step(HostEvent::Message(b"key".to_vec()));
    host.step(HostEvent::Message(b"1".to_vec()));
    let (_, effect) = host.step(HostEvent::Message(digest.as_bytes().to_vec()));
    assert!(matches!(effect, HostEffect::NeedFile(0)));
    host.step(HostEvent::FileContent(data[0].clone()));
    let wrong = "1111111111111111111111111111111111111111111111111111111111111111";
    let (_, effect) = host.step(HostEvent::Message(wrong.as_bytes().to_vec()));
    assert_eq!(effect, HostEffect::CloseErr(TransferError::DigestMismatch));
}

#[test]
fn malformed_entry_closes_peer() {
    let mut peer = Peer::new("key".to_string());
    let _ = peer.start();
    let (_, effect) = peer.step(b"VALID".to_vec());
    assert!(matches!(effect, PeerEffect::Continue));
    let (_, effect) = peer.step(b"2".to_vec());
    assert!(matches!(effect, PeerEffect::Continue));
    let (_, effect) = peer.step(b"garbage without separators".to_vec());
    assert!(matches!(
        effect,
        PeerEffect::CloseErr(TransferError::MalformedEntry)
    ));
    assert!(peer.finished());
}

#[test]
fn two_peers_get_identical_catalogs() {
    // Connections are independent: two hosts over one source set serve two
    // peers the same catalog, and both complete.
    let names = ["a.bin", "b.bin"];
    let data = vec![vec![1u8; 20], vec![2u8; 33]];
    let mut host1 = HostConn::new("k".to_string(), 7, build_catalog(&names, &data));
    let mut host2 = HostConn::new("k".to_string(), 7, build_catalog(&names, &data));
    let mut peer1 = Peer::new("k".to_string());
    let mut peer2 = Peer::new("k".to_string());
    let (written1, _, e1) = run_session(&mut host1, &mut peer1, &data);
    let (written2, _, e2) = run_session(&mut host2, &mut peer2, &data);
    assert_eq!(e1, None);
    assert_eq!(e2, None);
    assert_eq!(written1.len(), written2.len());
    for (w1, w2) in written1.iter().zip(written2.iter()) {
        assert_eq!(w1, w2);
    }
}

#[test]
fn encrypted_end_to_end_transfer() {
    // The full stack: key agreement over framed records, then the whole
    // protocol with every message sealed by one side and opened by the
    // other.
    let names = ["e2e.txt"];
    let data = vec![b"encrypted end to end".to_vec()];
    let catalog = build_catalog(&names, &data);
    let mut host = HostConn::new("k".to_string(), 6, catalog);
    let mut peer = Peer::new("k".to_string());

    let (secret_h, wire_h) = handshake_begin();
    let (secret_p, wire_p) = handshake_begin();
    let mut session_h = handshake_complete(secret_h, &parse_record(&wire_p).unwrap()).unwrap();
    let mut session_p = handshake_complete(secret_p, &parse_record(&wire_h).unwrap()).unwrap();

    let mut written = Vec::new();
    let mut to_host = vec![session_p.seal(&peer.start()).unwrap()];
    let mut to_peer: Vec<Vec<u8>> = Vec::new();
    let mut rounds = 0;
    while (!to_host.is_empty() || !to_peer.is_empty()) && rounds < 10_000 {
        rounds += 1;
        if !to_host.is_empty() {
            let wire = to_host.remove(0);
            if host.finished() {
                continue;
            }
            let m = session_h.open_record(&wire).unwrap();
            let (sends, mut effect) = host.step(HostEvent::Message(m));
            for s in sends {
                to_peer.push(session_h.seal(&s).unwrap());
            }
            while let HostEffect::NeedFile(i) = effect {
                let (more, next) = host.step(HostEvent::FileContent(data[i].clone()));
                for s in more {
                    to_peer.push(session_h.seal(&s).unwrap());
                }
                effect = next;
            }
        } else {
            let wire = to_peer.remove(0);
            if peer.finished() {
                continue;
            }
            let m = session_p.open_record(&wire).unwrap();
            let (sends, effect) = peer.step(m);
            for s in sends {
                to_host.push(session_p.seal(&s).unwrap());
            }
            if let PeerEffect::WriteFile { name, content } = effect {
                written.push((name, content));
            }
        }
    }
    assert!(host.finished());
    assert!(peer.finished());
    assert_eq!(written.len(), 1);
    assert_eq!(written[0].0, "e2e.txt");
    assert_eq!(written[0].1, data[0]);
}
