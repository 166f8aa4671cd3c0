//! Point-to-point encrypted file distribution.
//!
//! A host advertises a catalog of files and serves their bytes to an
//! authenticated peer over a record-framed, AEAD-protected transport.  This
//! crate holds the verified core: the frame codec, the cipher session, the
//! catalog with its integrity metadata, and the host and peer protocol state
//! machines.  Socket, file and console I/O live outside the crate; the core
//! consumes plain values (received records, file contents) and yields plain
//! values (records to send, files to write).

pub mod catalog;
pub mod chunks;
pub mod codec;
pub mod crypto;
pub mod decimal;
pub mod hashing;
pub mod host;
pub mod peer;
pub mod errors;
pub mod session;
pub mod util;
