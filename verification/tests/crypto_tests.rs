//! Cipher state and secure channel behaviour, against the real crypto.

use contego::codec::parse_record;
use contego::crypto::CipherState;
use contego::errors::TransferError;
use contego::session::{handshake_begin, handshake_complete};

fn fixed_key() -> Vec<u8> {
    (0u8..32).collect()
}

#[test]
fn cipher_round_trip() {
    // Encryption bijection: decrypt(encrypt(p)) == p for a fresh state.
    let mut cipher = CipherState::new(fixed_key());
    let plaintext = b"attack at dawn".to_vec();
    let sealed = cipher.encrypt(&plaintext).expect("encrypt");
    assert_ne!(sealed, plaintext);
    assert!(sealed.len() == plaintext.len() + 28);
    let opened = cipher.decrypt(&sealed).expect("decrypt");
    assert_eq!(opened, plaintext);
}

#[test]
fn cipher_distinct_nonces() {
    // Two encryptions of one plaintext carry distinct nonces, so the
    // records differ even before the ciphertext.
    let mut cipher = CipherState::new(fixed_key());
    let plaintext = b"same bytes".to_vec();
    let first = cipher.encrypt(&plaintext).expect("encrypt");
    let second = cipher.encrypt(&plaintext).expect("encrypt");
    assert_ne!(first[..12], second[..12]);
}

#[test]
fn cipher_rejects_tampering() {
    let mut cipher = CipherState::new(fixed_key());
    let mut sealed = cipher.encrypt(&b"integrity".to_vec()).expect("encrypt");
    let last = sealed.len() - 1;
    sealed[last] ^= 1;
    assert_eq!(cipher.decrypt(&sealed), Err(TransferError::Cipher));
}

#[test]
fn cipher_rejects_short_record() {
    let cipher = CipherState::new(fixed_key());
    assert_eq!(
        cipher.decrypt(&b"shorty".to_vec()),
        Err(TransferError::Cipher)
    );
}

#[test]
fn handshake_and_channel_interop() {
    // Two endpoints exchange public-key records in the clear, then each
    // can open what the other seals.
    let (secret_a, wire_a) = handshake_begin();
    let (secret_b, wire_b) = handshake_begin();
    let pub_b = parse_record(&wire_b).expect("payload b");
    let pub_a = parse_record(&wire_a).expect("payload a");
    let mut session_a = handshake_complete(secret_a, &pub_b).expect("session a");
    let session_b = handshake_complete(secret_b, &pub_a).expect("session b");

    let msg = b"over the wire".to_vec();
    let wire = session_a.seal(&msg).expect("seal");
    assert_ne!(wire, msg);
    let opened = session_b.open_record(&wire).expect("open");
    assert_eq!(opened, msg);
}

#[test]
fn handshake_rejects_short_key() {
    let (secret, _) = handshake_begin();
    let result = handshake_complete(secret, &b"short".to_vec());
    assert!(matches!(result, Err(TransferError::KeyExchange)));
}
