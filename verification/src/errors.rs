//! The error taxonomy of the transport and protocol layers.

use vstd::prelude::*;

verus! {

/// Why a connection ends early.  Every failure inside the core is reported as
/// one of these values; none of the verified functions panics.
#[derive(Clone, Copy, Debug, PartialEq, Eq, Structural)]
pub enum TransferError {
    /// The wire bytes of a record did not end in the terminator byte.
    UnterminatedRecord,
    /// A record's textual payload was not canonical unpadded base-64.
    Encoding,
    /// An encrypted record was too short to carry a nonce, or its
    /// authentication tag did not verify.
    Cipher,
    /// The outbound nonce counter is exhausted; no further record may be
    /// encrypted under this session key.
    NonceExhausted,
    /// The peer's key-agreement message did not carry a public key of the
    /// expected size.
    KeyExchange,
    /// A message arrived that the protocol state machine did not expect,
    /// such as a catalog-count echo that does not match the count sent.
    BrokenSequence,
    /// A catalog entry could not be parsed as `name:size:digest`.
    MalformedEntry,
    /// The peer requested a digest that is not in the host's index.
    UnknownDigest,
    /// The digest computed over the transferred bytes does not match the
    /// advertised digest.
    DigestMismatch,
    /// The peer presented an access key other than the configured one.
    Unauthorized,
}

} // verus!
