//! The secure channel.
//!
//! A session composes the frame codec with the cipher state: `seal` turns an
//! application payload into the wire bytes of one encrypted record, and
//! `open_record` turns one received wire record back into its payload.
//! Callers see plaintext payloads only; nonces, ciphertext and base-64 stay
//! inside.  Key agreement runs over the same codec in the clear before the
//! session exists: each side sends the record made by [`handshake_begin`]
//! and feeds the payload of the peer's record to [`handshake_complete`].
//! Exactly one side must send first; that ordering is the caller's.

use vstd::prelude::*;

use crate::codec::{base64_parse, record_bytes, record_wf, write_record, parse_record, TERMINATOR};
use crate::crypto::{
    dh_generate, dh_public, dh_shared, gcm_open, gcm_seal, nonce_bytes, sealed_record, CipherState,
    GCM_PLAINTEXT_MAX,
};
use crate::errors::TransferError;

verus! {

/// One endpoint's secure channel state after key agreement.
pub struct Session {
    cipher: CipherState,
}

impl Session {
    /// The session key shared with the peer.
    pub closed spec fn key_view(&self) -> Seq<u8> {
        self.cipher.key_view()
    }

    /// The next outbound nonce counter.
    pub closed spec fn counter_view(&self) -> u64 {
        self.cipher.counter_view()
    }

    /// A usable session holds a full-size key.
    pub closed spec fn wf(&self) -> bool {
        self.cipher.wf()
    }

    /// Installs a session under a freshly agreed 32-byte key.
    pub fn new(key: Vec<u8>) -> (r: Session)
        requires
            key@.len() == 32,
        ensures
            r.wf(),
            r.key_view() == key@,
            r.counter_view() == 0,
    {
        Session { cipher: CipherState::new(key) }
    }

    /// Encrypts one application payload under a fresh nonce and frames the
    /// result as one wire record.
    pub fn seal(&mut self, payload: &Vec<u8>) -> (r: Result<Vec<u8>, TransferError>)
        requires
            old(self).wf(),
        ensures
            final(self).wf(),
            final(self).key_view() == old(self).key_view(),
            r matches Ok(w) ==> {
                &&& old(self).counter_view() < u64::MAX
                &&& final(self).counter_view() == old(self).counter_view() + 1
                &&& w@ == record_bytes(
                    sealed_record(old(self).key_view(), old(self).counter_view(), payload@),
                )
                &&& record_wf(w@)
                &&& base64_parse(w@.drop_last()) == Some(
                    sealed_record(old(self).key_view(), old(self).counter_view(), payload@),
                )
                &&& gcm_open(
                    old(self).key_view(),
                    nonce_bytes(old(self).counter_view()),
                    gcm_seal(
                        old(self).key_view(),
                        nonce_bytes(old(self).counter_view()),
                        payload@,
                    ),
                ) == Some(payload@)
            },
            r is Ok <==> old(self).counter_view() < u64::MAX && payload@.len()
                <= GCM_PLAINTEXT_MAX,
            r is Err ==> *final(self) == *old(self),
            r matches Err(e) ==> e == TransferError::NonceExhausted || e == TransferError::Cipher,
    {
        match self.cipher.encrypt(payload) {
            Ok(body) => {
                let wire = write_record(&body);
                proof {
                    vstd::bytes::lemma_auto_spec_u64_to_from_le_bytes();
                    assert(wire@.drop_last() =~= crate::codec::base64_of(body@));
                    assert(body@.skip(12) =~= gcm_seal(
                        old(self).key_view(),
                        nonce_bytes(old(self).counter_view()),
                        payload@,
                    ));
                }
                Ok(wire)
            },
            Err(e) => Err(e),
        }
    }

    /// Parses one complete wire record and decrypts its payload.  Succeeds
    /// exactly when the record is canonically framed, long enough to carry a
    /// nonce, and its tag authenticates under the session key.
    pub fn open_record(&self, wire: &Vec<u8>) -> (r: Result<Vec<u8>, TransferError>)
        requires
            self.wf(),
        ensures
            r matches Ok(p) ==> {
                &&& wire@.len() > 0
                &&& wire@.last() == TERMINATOR
                &&& (base64_parse(wire@.drop_last()) matches Some(body) && body.len() >= 12
                    && Some(p@) == gcm_open(self.key_view(), body.take(12), body.skip(12)))
            },
            wire@.len() > 0 && wire@.last() == TERMINATOR && (base64_parse(
                wire@.drop_last(),
            ) matches Some(body) && body.len() >= 12 && gcm_open(
                self.key_view(),
                body.take(12),
                body.skip(12),
            ) is Some) ==> r is Ok,
            wire@.len() == 0 || wire@.last() != TERMINATOR ==> r == Err::<
                Vec<u8>,
                TransferError,
            >(TransferError::UnterminatedRecord),
            wire@.len() > 0 && wire@.last() == TERMINATOR && base64_parse(wire@.drop_last())
                is None ==> r == Err::<Vec<u8>, TransferError>(TransferError::Encoding),
            r matches Err(e) ==> e == TransferError::UnterminatedRecord || e
                == TransferError::Encoding || e == TransferError::Cipher,
    {
        match parse_record(wire) {
            Ok(body) => self.cipher.decrypt(&body),
            Err(e) => Err(e),
        }
    }
}

/// Channel bijection: a payload sealed by one end of the channel is
/// returned unchanged by `open_record` at the other end, under the shared
/// key.
pub fn secure_round_trip(sender: &mut Session, receiver: &Session, payload: &Vec<u8>) -> (r: Vec<
    u8,
>)
    requires
        old(sender).wf(),
        receiver.wf(),
        receiver.key_view() == old(sender).key_view(),
        old(sender).counter_view() < u64::MAX,
        payload@.len() <= GCM_PLAINTEXT_MAX,
    ensures
        r@ == payload@,
{
    let wire = sender.seal(payload).unwrap();
    proof {
        vstd::bytes::lemma_auto_spec_u64_to_from_le_bytes();
        let body = sealed_record(
            old(sender).key_view(),
            old(sender).counter_view(),
            payload@,
        );
        assert(body.take(12) =~= nonce_bytes(old(sender).counter_view()));
        assert(body.skip(12) =~= gcm_seal(
            old(sender).key_view(),
            nonce_bytes(old(sender).counter_view()),
            payload@,
        ));
    }
    receiver.open_record(&wire).unwrap()
}

/// Begins key agreement: a fresh ephemeral secret, and the clear-text wire
/// record that carries its 32-byte public component to the peer.
pub fn handshake_begin() -> (r: (x25519_dalek::EphemeralSecret, Vec<u8>))
    ensures
        record_wf(r.1@),
        exists|pk: Seq<u8>| pk.len() == 32 && r.1@ == record_bytes(pk),
{
    let secret = dh_generate();
    let public = dh_public(&secret);
    let wire = write_record(&public);
    (secret, wire)
}

/// Completes key agreement: derives the session key from our ephemeral
/// secret and the payload of the peer's public-key record.  Rejects a
/// payload that is not exactly 32 bytes.
pub fn handshake_complete(secret: x25519_dalek::EphemeralSecret, peer_public: &Vec<u8>) -> (r:
    Result<Session, TransferError>)
    ensures
        r is Ok <==> peer_public@.len() == 32,
        r matches Ok(s) ==> s.wf() && s.counter_view() == 0,
        r matches Err(e) ==> e == TransferError::KeyExchange,
{
    if peer_public.len() != 32 {
        return Err(TransferError::KeyExchange);
    }
    let key = dh_shared(secret, peer_public);
    Ok(Session::new(key))
}

} // verus!
