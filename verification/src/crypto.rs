//! The cryptographic session.
//!
//! Each connection derives a fresh 32-byte session key from an ephemeral
//! X25519 key agreement and protects every later record with AES-256-GCM.
//! Outbound nonces are drawn from a per-session counter, so no nonce is
//! ever reused under one key; the nonce travels in clear in front of the
//! ciphertext.  The plaintext key agreement is deliberately unauthenticated:
//! the peer is authenticated later, by the access key sent over the
//! encrypted channel, which protects the key's confidentiality but binds no
//! cryptographic identity.

use vstd::prelude::*;

use crate::errors::TransferError;
use aes_gcm::KeyInit;
use aes_gcm::aead::Aead;
use vstd::bytes::{lemma_auto_spec_u64_to_from_le_bytes, spec_u64_to_le_bytes, u64_to_le_bytes};

verus! {

/// The longest plaintext AES-GCM accepts, two to the power thirty-six bytes.
pub const GCM_PLAINTEXT_MAX: u64 = 0x10_0000_0000;

#[verifier::external_type_specification]
#[verifier::external_body]
pub struct ExEphemeralSecret(x25519_dalek::EphemeralSecret);

/// Relies on x25519_dalek::EphemeralSecret::random_from_rng with the
/// operating-system rng: a fresh ephemeral secret.  Nothing can be promised
/// of a random value.
#[verifier::external_body]
pub(crate) fn dh_generate() -> x25519_dalek::EphemeralSecret {
    x25519_dalek::EphemeralSecret::random_from_rng(rand::rngs::OsRng)
}

/// Relies on x25519_dalek::PublicKey::from and PublicKey::as_bytes: the
/// 32-byte public component of the secret.
#[verifier::external_body]
pub(crate) fn dh_public(secret: &x25519_dalek::EphemeralSecret) -> (r: Vec<u8>)
    ensures
        r@.len() == 32,
{
    x25519_dalek::PublicKey::from(secret).as_bytes().to_vec()
}

/// Relies on x25519_dalek::EphemeralSecret::diffie_hellman and
/// SharedSecret::as_bytes: the 32-byte shared secret of the scalar
/// multiplication.
#[verifier::external_body]
pub(crate) fn dh_shared(secret: x25519_dalek::EphemeralSecret, peer_public: &Vec<u8>) -> (r: Vec<
    u8,
>)
    requires
        peer_public@.len() == 32,
    ensures
        r@.len() == 32,
{
    let mut pk = [0u8; 32];
    pk.copy_from_slice(peer_public.as_slice());
    let shared = secret.diffie_hellman(&x25519_dalek::PublicKey::from(pk));
    shared.as_bytes().to_vec()
}

/// What sealing a plaintext under AES-256-GCM yields: the ciphertext with
/// its appended tag.  A function of key, nonce and plaintext alone.
pub uninterp spec fn gcm_seal(key: Seq<u8>, nonce: Seq<u8>, plaintext: Seq<u8>) -> Seq<u8>;

/// What opening a ciphertext under AES-256-GCM yields: the plaintext when
/// the tag authenticates, nothing otherwise.  A function of key, nonce and
/// ciphertext alone.
pub uninterp spec fn gcm_open(key: Seq<u8>, nonce: Seq<u8>, ciphertext: Seq<u8>) -> Option<
    Seq<u8>,
>;

/// Relies on aes_gcm::Aes256Gcm through aead::Aead::encrypt: deterministic
/// in key, nonce and plaintext; the ciphertext is the plaintext's length
/// plus the 16-byte tag; opening it with the same key and nonce returns the
/// plaintext; encryption fails only beyond the GCM plaintext length cap.
#[verifier::external_body]
fn gcm_encrypt(key: &Vec<u8>, nonce: &Vec<u8>, plaintext: &Vec<u8>) -> (r: Option<Vec<u8>>)
    requires
        key@.len() == 32,
        nonce@.len() == 12,
    ensures
        r matches Some(c) ==> c@ == gcm_seal(key@, nonce@, plaintext@) && c@.len() == plaintext@.len()
            + 16 && gcm_open(key@, nonce@, c@) == Some(plaintext@),
        r is Some <==> plaintext@.len() <= GCM_PLAINTEXT_MAX,
{
    let cipher = aes_gcm::Aes256Gcm::new_from_slice(key.as_slice()).unwrap();
    let nonce_arr = aes_gcm::Nonce::from_slice(nonce.as_slice());
    cipher.encrypt(nonce_arr, plaintext.as_slice()).ok()
}

/// Relies on aes_gcm::Aes256Gcm through aead::Aead::decrypt: deterministic
/// in key, nonce and ciphertext; succeeds exactly when the tag
/// authenticates, which only holds of ciphertexts sealed under the same key
/// and nonce, and then returns the sealed plaintext.
#[verifier::external_body]
fn gcm_decrypt(key: &Vec<u8>, nonce: &Vec<u8>, ciphertext: &Vec<u8>) -> (r: Option<Vec<u8>>)
    requires
        key@.len() == 32,
        nonce@.len() == 12,
    ensures
        r is Some <==> gcm_open(key@, nonce@, ciphertext@) is Some,
        r matches Some(p) ==> Some(p@) == gcm_open(key@, nonce@, ciphertext@) && ciphertext@
            == gcm_seal(key@, nonce@, p@),
{
    let cipher = aes_gcm::Aes256Gcm::new_from_slice(key.as_slice()).unwrap();
    let nonce_arr = aes_gcm::Nonce::from_slice(nonce.as_slice());
    cipher.decrypt(nonce_arr, ciphertext.as_slice()).ok()
}

/// The 96-bit nonce carrying counter value `ctr`: eight little-endian bytes
/// followed by four zero bytes.
pub open spec fn nonce_bytes(ctr: u64) -> Seq<u8> {
    spec_u64_to_le_bytes(ctr) + seq![0u8, 0u8, 0u8, 0u8]
}

/// Distinct counters yield distinct nonces.
pub proof fn lemma_nonce_injective(c1: u64, c2: u64)
    requires
        c1 != c2,
    ensures
        nonce_bytes(c1) != nonce_bytes(c2),
{
    lemma_auto_spec_u64_to_from_le_bytes();
    if nonce_bytes(c1) == nonce_bytes(c2) {
        assert(spec_u64_to_le_bytes(c1) =~= spec_u64_to_le_bytes(c2)) by {
            assert forall|i: int| 0 <= i < 8 implies spec_u64_to_le_bytes(c1)[i]
                == spec_u64_to_le_bytes(c2)[i] by {
                assert(nonce_bytes(c1)[i] == spec_u64_to_le_bytes(c1)[i]);
                assert(nonce_bytes(c2)[i] == spec_u64_to_le_bytes(c2)[i]);
            }
        }
        assert(false);
    }
}

/// The full encrypted record body for counter `ctr`: clear nonce, then the
/// sealed plaintext.
pub open spec fn sealed_record(key: Seq<u8>, ctr: u64, plaintext: Seq<u8>) -> Seq<u8> {
    nonce_bytes(ctr) + gcm_seal(key, nonce_bytes(ctr), plaintext)
}

/// One side's AEAD state: the session key and the outbound nonce counter.
pub struct CipherState {
    key: Vec<u8>,
    counter: u64,
}

impl CipherState {
    /// The session key.
    pub closed spec fn key_view(&self) -> Seq<u8> {
        self.key@
    }

    /// The next outbound nonce counter.
    pub closed spec fn counter_view(&self) -> u64 {
        self.counter
    }

    /// A usable state holds a full-size key.
    pub open spec fn wf(&self) -> bool {
        self.key_view().len() == 32
    }

    /// Starts a session under `key` with the nonce counter at zero.
    pub fn new(key: Vec<u8>) -> (r: CipherState)
        requires
            key@.len() == 32,
        ensures
            r.wf(),
            r.key_view() == key@,
            r.counter_view() == 0,
    {
        CipherState { key, counter: 0 }
    }

    /// Encrypts one plaintext under a fresh nonce.  Succeeds exactly when a
    /// nonce is left and the plaintext is within the GCM cap; the counter
    /// advances only on success, so every sealed record uses its own nonce.
    pub fn encrypt(&mut self, plaintext: &Vec<u8>) -> (r: Result<Vec<u8>, TransferError>)
        requires
            old(self).wf(),
        ensures
            final(self).wf(),
            final(self).key_view() == old(self).key_view(),
            r matches Ok(c) ==> {
                &&& old(self).counter_view() < u64::MAX
                &&& final(self).counter_view() == old(self).counter_view() + 1
                &&& c@ == sealed_record(old(self).key_view(), old(self).counter_view(), plaintext@)
                &&& c@.len() == plaintext@.len() + 28
                &&& gcm_open(
                    old(self).key_view(),
                    nonce_bytes(old(self).counter_view()),
                    c@.skip(12),
                ) == Some(plaintext@)
            },
            r is Err ==> *final(self) == *old(self),
            r is Ok <==> old(self).counter_view() < u64::MAX && plaintext@.len()
                <= GCM_PLAINTEXT_MAX,
            r matches Err(e) ==> e == TransferError::NonceExhausted || e == TransferError::Cipher,
    {
        if self.counter == u64::MAX {
            return Err(TransferError::NonceExhausted);
        }
        let mut nonce = u64_to_le_bytes(self.counter);
        nonce.push(0);
        nonce.push(0);
        nonce.push(0);
        nonce.push(0);
        proof {
            lemma_auto_spec_u64_to_from_le_bytes();
            assert(nonce@ =~= nonce_bytes(self.counter));
        }
        match gcm_encrypt(&self.key, &nonce, plaintext) {
            Some(sealed) => {
                let mut body = nonce;
                let ghost sealed_view = sealed@;
                let mut tail = sealed;
                body.append(&mut tail);
                self.counter = self.counter + 1;
                proof {
                    assert(body@ =~= sealed_record(
                        self.key@,
                        old(self).counter_view(),
                        plaintext@,
                    ));
                    assert(body@.skip(12) =~= sealed_view);
                }
                Ok(body)
            },
            None => Err(TransferError::Cipher),
        }
    }

    /// Decrypts one received record body: the first twelve bytes are the
    /// sender's nonce, the rest the sealed plaintext.  Succeeds exactly when
    /// the record is long enough and the tag authenticates.
    pub fn decrypt(&self, data: &Vec<u8>) -> (r: Result<Vec<u8>, TransferError>)
        requires
            self.wf(),
        ensures
            r matches Ok(p) ==> {
                &&& data@.len() >= 12
                &&& Some(p@) == gcm_open(self.key_view(), data@.take(12), data@.skip(12))
                &&& data@ == data@.take(12) + gcm_seal(self.key_view(), data@.take(12), p@)
            },
            data@.len() >= 12 ==> (r is Ok <==> gcm_open(
                self.key_view(),
                data@.take(12),
                data@.skip(12),
            ) is Some),
            r matches Err(e) ==> e == TransferError::Cipher,
    {
        if data.len() < 12 {
            return Err(TransferError::Cipher);
        }
        let nonce = vstd::slice::slice_to_vec(vstd::slice::slice_subrange(data.as_slice(), 0, 12));
        let body = vstd::slice::slice_to_vec(vstd::slice::slice_subrange(
            data.as_slice(),
            12,
            data.len(),
        ));
        proof {
            assert(nonce@ =~= data@.take(12));
            assert(body@ =~= data@.skip(12));
        }
        match gcm_decrypt(&self.key, &nonce, &body) {
            Some(p) => {
                proof {
                    assert(data@ =~= data@.take(12) + data@.skip(12));
                }
                Ok(p)
            },
            None => Err(TransferError::Cipher),
        }
    }
}

/// Encryption bijection: decrypting a freshly encrypted record returns the
/// plaintext unchanged.
pub fn cipher_round_trip(cipher: &mut CipherState, plaintext: &Vec<u8>) -> (r: Vec<u8>)
    requires
        old(cipher).wf(),
        old(cipher).counter_view() < u64::MAX,
        plaintext@.len() <= GCM_PLAINTEXT_MAX,
    ensures
        r@ == plaintext@,
{
    let sealed = cipher.encrypt(plaintext).unwrap();
    proof {
        lemma_auto_spec_u64_to_from_le_bytes();
        assert(sealed@.take(12) =~= nonce_bytes(old(cipher).counter_view()));
        assert(sealed@.skip(12) =~= gcm_seal(
            cipher.key_view(),
            nonce_bytes(old(cipher).counter_view()),
            plaintext@,
        ));
    }
    cipher.decrypt(&sealed).unwrap()
}

/// No nonce reuse: records sealed under distinct counter values carry
/// distinct nonces, whatever their plaintexts; and every successful
/// encryption advances the counter.
pub proof fn lemma_distinct_nonces(key: Seq<u8>, c1: u64, c2: u64, p1: Seq<u8>, p2: Seq<u8>)
    requires
        c1 != c2,
    ensures
        sealed_record(key, c1, p1).take(12) != sealed_record(key, c2, p2).take(12),
{
    lemma_auto_spec_u64_to_from_le_bytes();
    lemma_nonce_injective(c1, c2);
    assert(sealed_record(key, c1, p1).take(12) =~= nonce_bytes(c1));
    assert(sealed_record(key, c2, p2).take(12) =~= nonce_bytes(c2));
}

} // verus!
