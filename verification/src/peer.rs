//! The peer endpoint's protocol state machine.
//!
//! One `Peer` drives one download session: it authenticates with the access
//! key, receives and echoes the catalog count, parses exactly that many
//! catalog entries, then requests every advertised file in catalog order,
//! reassembling each from its chunks and confirming its digest.  The
//! machine consumes decrypted messages and yields the plaintext messages to
//! send next plus an effect: keep going, write a completed file, or close.

use vstd::prelude::*;

use crate::catalog::{entry_bytes, parse_entry, sep_free};
use crate::decimal::{dec_value, is_dec_digits, parse_dec};
use crate::errors::TransferError;
use crate::hashing::{digest_hex, sha256_hex};
use crate::host::{disconnect_msg, msg_disconnect};
use crate::util::{bytes_eq, entries_positive, FileInfo};
use vstd::string::StrSliceExecFns;
use vstd::utf8::encode_utf8;

verus! {

/// Where the peer stands within one session.
#[derive(Clone, Copy, Debug, PartialEq, Eq, Structural)]
pub enum PeerState {
    /// The session has not begun; nothing was sent yet.
    Start,
    /// The access key was sent; waiting for acceptance or rejection.
    AwaitAuthReply,
    /// Waiting for the catalog count.
    AwaitCount,
    /// Waiting for catalog entries until `expected` have arrived.
    AwaitEntry { expected: u64 },
    /// Receiving the chunks of catalog slot `current`.
    Downloading { current: usize },
    /// The session is over.
    Closed,
}

/// What the caller must do after a step.
pub enum PeerEffect {
    /// Send the returned messages, then wait for the next record.
    Continue,
    /// A file arrived whole and its digest matched: write it out under
    /// `name`, then send the returned messages.
    WriteFile { name: String, content: Vec<u8> },
    /// The session ended normally; close the socket.
    CloseOk,
    /// A fatal error; close the socket and discard any partial output.
    CloseErr(TransferError),
}

/// One file a peer intends to fetch, resolved from the learned catalog by
/// its advertised name.
#[derive(Debug)]
pub struct Request {
    pub name: String,
    pub size: u64,
    pub hash: String,
}

impl Request {
    /// Resolves `name` against the catalog: the first entry advertised
    /// under that name, if any.
    pub fn new(name: String, metadata: &Vec<FileInfo>) -> (r: Option<Request>)
        ensures
            r matches Some(req) ==> {
                &&& req.name == name
                &&& exists|j: int|
                    0 <= j < metadata@.len() && (#[trigger] metadata@[j]).name@ == name@
                        && req.size == metadata@[j].size && req.hash == metadata@[j].hash
            },
            r is None ==> forall|j: int|
                0 <= j < metadata@.len() ==> (#[trigger] metadata@[j]).name@ != name@,
    {
        let mut j: usize = 0;
        while j < metadata.len()
            invariant
                j <= metadata@.len(),
                forall|k: int| 0 <= k < j ==> (#[trigger] metadata@[k]).name@ != name@,
            decreases metadata@.len() - j,
        {
            if metadata[j].name.eq(&name) {
                let size = metadata[j].size;
                let hash = metadata[j].hash.clone();
                return Some(Request { name, size, hash });
            }
            j = j + 1;
        }
        None
    }
}

/// Round-trip fidelity: a file cut into chunks and reassembled in order is
/// byte-identical to the original, so the digest the peer computes over the
/// reassembled bytes is the digest of the host's file.
pub proof fn lemma_round_trip_fidelity(content: Seq<u8>, chunksize: nat)
    requires
        chunksize > 0,
    ensures
        crate::chunks::concat_chunks(crate::chunks::chunks_of(content, chunksize)) == content,
        sha256_hex(crate::chunks::concat_chunks(crate::chunks::chunks_of(content, chunksize)))
            == sha256_hex(content),
{
    crate::chunks::lemma_chunks_reassemble(content, chunksize);
}

/// The peer's session state: the access key, the catalog learned from the
/// host, and the bytes of the file currently in flight.
pub struct Peer {
    key: String,
    catalog: Vec<FileInfo>,
    received: Vec<u8>,
    state: PeerState,
}

impl Peer {
    /// The UTF-8 bytes of the access key this peer presents.
    pub closed spec fn key_bytes(&self) -> Seq<u8> {
        encode_utf8(self.key@)
    }

    /// The catalog entries parsed so far, in arrival order.
    pub closed spec fn catalog_view(&self) -> Seq<FileInfo> {
        self.catalog@
    }

    /// The bytes received so far of the file being downloaded.
    pub closed spec fn received_view(&self) -> Seq<u8> {
        self.received@
    }

    /// The current protocol state.
    pub closed spec fn state_view(&self) -> PeerState {
        self.state
    }

    /// Session invariant: every learned entry has a positive size, the
    /// catalog is empty until entries arrive, and a download in flight
    /// stays strictly short of its advertised size.
    pub closed spec fn wf(&self) -> bool {
        &&& entries_positive(self.catalog_view())
        &&& match self.state_view() {
            PeerState::Start => self.received_view().len() == 0 && self.catalog_view().len() == 0,
            PeerState::AwaitAuthReply => self.received_view().len() == 0 && self.catalog_view().len()
                == 0,
            PeerState::AwaitCount => self.received_view().len() == 0 && self.catalog_view().len()
                == 0,
            PeerState::AwaitEntry { expected } => self.catalog_view().len() <= expected
                && self.received_view().len() == 0,
            PeerState::Downloading { current } => {
                &&& current < self.catalog_view().len()
                &&& self.received_view().len() < self.catalog_view()[current as int].size
            },
            PeerState::Closed => true,
        }
    }

    /// A fresh session that has not spoken yet.
    pub fn new(key: String) -> (r: Peer)
        ensures
            r.wf(),
            r.state_view() == PeerState::Start,
            r.key_bytes() == encode_utf8(key@),
            r.catalog_view().len() == 0,
    {
        Peer { key, catalog: Vec::new(), received: Vec::new(), state: PeerState::Start }
    }

    /// The session is over.
    pub fn finished(&self) -> (r: bool)
        ensures
            r == (self.state_view() == PeerState::Closed),
    {
        match self.state {
            PeerState::Closed => true,
            _ => false,
        }
    }

    /// Opens the session: the first message, carrying the access key.
    pub fn start(&mut self) -> (r: Vec<u8>)
        requires
            old(self).wf(),
            old(self).state_view() == PeerState::Start,
        ensures
            final(self).wf(),
            final(self).key_bytes() == old(self).key_bytes(),
            final(self).state_view() == PeerState::AwaitAuthReply,
            final(self).catalog_view() == old(self).catalog_view(),
            r@ == old(self).key_bytes(),
    {
        self.state = PeerState::AwaitAuthReply;
        self.key.as_str().as_bytes_vec()
    }

    /// Requests catalog slot `next`, or ends the session when every file
    /// has been fetched.
    fn advance(&mut self, next: usize) -> (r: (Vec<Vec<u8>>, PeerEffect))
        requires
            entries_positive(old(self).catalog_view()),
            next <= old(self).catalog_view().len(),
            old(self).received_view().len() == 0,
        ensures
            final(self).wf(),
            final(self).key_bytes() == old(self).key_bytes(),
            final(self).catalog_view() == old(self).catalog_view(),
            final(self).received_view().len() == 0,
            next < old(self).catalog_view().len() ==> {
                &&& final(self).state_view() == (PeerState::Downloading { current: next })
                &&& r.0@.map_values(|v: Vec<u8>| v@) == seq![
                    encode_utf8(old(self).catalog_view()[next as int].hash@),
                ]
                &&& r.1 is Continue
            },
            next == old(self).catalog_view().len() ==> {
                &&& final(self).state_view() == PeerState::Closed
                &&& r.0@.map_values(|v: Vec<u8>| v@) == seq![msg_disconnect()]
                &&& r.1 is CloseOk
            },
    {
        let mut sends: Vec<Vec<u8>> = Vec::new();
        if next < self.catalog.len() {
            sends.push(self.catalog[next].hash.as_str().as_bytes_vec());
            self.state = PeerState::Downloading { current: next };
            proof {
                assert(sends@.map_values(|v: Vec<u8>| v@) =~= seq![
                    encode_utf8(old(self).catalog_view()[next as int].hash@),
                ]);
            }
            (sends, PeerEffect::Continue)
        } else {
            sends.push(disconnect_msg());
            self.state = PeerState::Closed;
            proof {
                assert(sends@.map_values(|v: Vec<u8>| v@) =~= seq![msg_disconnect()]);
            }
            (sends, PeerEffect::CloseOk)
        }
    }

    /// Feeds one decrypted message to the machine; returns the messages to
    /// send and the effect to carry out.
    pub fn step(&mut self, msg: Vec<u8>) -> (r: (Vec<Vec<u8>>, PeerEffect))
        requires
            old(self).wf(),
        ensures
            final(self).wf(),
            final(self).key_bytes() == old(self).key_bytes(),
            old(self).state_view() == PeerState::AwaitAuthReply ==> {
                if msg@ == msg_disconnect() {
                    &&& final(self).state_view() == PeerState::Closed
                    &&& r.0@.len() == 0
                    &&& r.1 == PeerEffect::CloseErr(TransferError::Unauthorized)
                } else {
                    &&& final(self).state_view() == PeerState::AwaitCount
                    &&& r.0@.len() == 0
                    &&& r.1 is Continue
                    &&& final(self).catalog_view() == old(self).catalog_view()
                }
            },
            old(self).state_view() == PeerState::AwaitCount ==> {
                if is_dec_digits(msg@) && dec_value(msg@) <= u64::MAX {
                    if dec_value(msg@) == 0 {
                        &&& final(self).state_view() == PeerState::Closed
                        &&& r.0@.map_values(|v: Vec<u8>| v@) == seq![msg@, msg_disconnect()]
                        &&& r.1 is CloseOk
                    } else {
                        &&& final(self).state_view() == (PeerState::AwaitEntry {
                            expected: dec_value(msg@) as u64,
                        })
                        &&& r.0@.map_values(|v: Vec<u8>| v@) == seq![msg@]
                        &&& r.1 is Continue
                        &&& final(self).catalog_view().len() == 0
                    }
                } else {
                    &&& final(self).state_view() == PeerState::Closed
                    &&& r.0@.len() == 0
                    &&& r.1 == PeerEffect::CloseErr(TransferError::BrokenSequence)
                }
            },
            old(self).state_view() matches PeerState::AwaitEntry { expected } ==> {
                &&& (forall|nm: Seq<u8>, sz: u64, h: Seq<u8>|
                    msg@ == entry_bytes(nm, sz as nat, h) && sep_free(h)
                        && vstd::utf8::valid_utf8(nm) && vstd::utf8::valid_utf8(h) && sz > 0 ==> {
                        &&& final(self).catalog_view().len() == old(self).catalog_view().len() + 1
                        &&& final(self).catalog_view().take(
                            old(self).catalog_view().len() as int,
                        ) == old(self).catalog_view()
                        &&& final(self).catalog_view().last().name@ == vstd::utf8::decode_utf8(nm)
                        &&& final(self).catalog_view().last().size == sz
                        &&& final(self).catalog_view().last().hash@ == vstd::utf8::decode_utf8(h)
                        &&& (final(self).catalog_view().len() < expected ==> final(self).state_view() == (PeerState::AwaitEntry { expected }) && r.1 is Continue
                            && r.0@.len() == 0)
                        &&& (final(self).catalog_view().len() == expected ==> final(self).state_view() == (PeerState::Downloading { current: 0 }) && r.1
                            is Continue && r.0@.map_values(|v: Vec<u8>| v@) == seq![
                            encode_utf8(final(self).catalog_view()[0].hash@),
                        ])
                    })
                &&& (r.1 matches PeerEffect::CloseErr(e) ==> e == TransferError::MalformedEntry)
                &&& ((forall|nm: Seq<u8>, sz: u64, h: Seq<u8>|
                    !(msg@ == entry_bytes(nm, sz as nat, h) && sep_free(h)
                        && vstd::utf8::valid_utf8(nm) && vstd::utf8::valid_utf8(h))) ==> {
                    &&& final(self).state_view() == PeerState::Closed
                    &&& r.0@.len() == 0
                    &&& r.1 matches PeerEffect::CloseErr(e) && e == TransferError::MalformedEntry
                })
                &&& (forall|nm: Seq<u8>, h: Seq<u8>|
                    msg@ == entry_bytes(nm, 0, h) && sep_free(h) && vstd::utf8::valid_utf8(nm)
                        && vstd::utf8::valid_utf8(h) ==> (final(self).state_view()
                        == PeerState::Closed && r.0@.len() == 0 && (
                    r.1 matches PeerEffect::CloseErr(e) && e == TransferError::MalformedEntry)))
            },
            old(self).state_view() matches PeerState::Downloading { current } ==> {
                let size = old(self).catalog_view()[current as int].size;
                let have = old(self).received_view().len();
                &&& (have + msg@.len() < size ==> {
                    &&& final(self).state_view() == (PeerState::Downloading { current })
                    &&& final(self).received_view() == old(self).received_view() + msg@
                    &&& final(self).catalog_view() == old(self).catalog_view()
                    &&& r.0@.len() == 0
                    &&& r.1 is Continue
                })
                &&& (have + msg@.len() == size ==> {
                    let content = old(self).received_view() + msg@;
                    let digest = sha256_hex(content);
                    &&& (digest == old(self).catalog_view()[current as int].hash@ ==> {
                        &&& (r.1 matches PeerEffect::WriteFile { name, content: c } && name == old(self).catalog_view()[current as int].name && c@ == content)
                        &&& (current as int + 1 < old(self).catalog_view().len() ==> final(self).state_view() == (PeerState::Downloading {
                            current: (current + 1) as usize,
                        }) && r.0@.map_values(|v: Vec<u8>| v@) == seq![
                            encode_utf8(digest),
                            encode_utf8(old(self).catalog_view()[current as int + 1].hash@),
                        ])
                        &&& (current as int + 1 == old(self).catalog_view().len() ==> final(self).state_view() == PeerState::Closed && r.0@.map_values(|v: Vec<u8>| v@)
                            == seq![encode_utf8(digest), msg_disconnect()])
                    })
                    &&& (digest != old(self).catalog_view()[current as int].hash@ ==> {
                        &&& final(self).state_view() == PeerState::Closed
                        &&& r.0@.map_values(|v: Vec<u8>| v@) == seq![encode_utf8(digest)]
                        &&& r.1 == PeerEffect::CloseErr(TransferError::DigestMismatch)
                    })
                })
                &&& (have + msg@.len() > size ==> {
                    &&& final(self).state_view() == PeerState::Closed
                    &&& r.0@.len() == 0
                    &&& r.1 == PeerEffect::CloseErr(TransferError::BrokenSequence)
                })
            },
            old(self).state_view() == PeerState::Start || old(self).state_view()
                == PeerState::Closed ==> final(self).state_view() == PeerState::Closed && r.0@.len()
                == 0 && r.1 == PeerEffect::CloseErr(TransferError::BrokenSequence),
    {
        match self.state {
            PeerState::AwaitAuthReply => {
                let disc = disconnect_msg();
                if bytes_eq(&msg, &disc) {
                    self.state = PeerState::Closed;
                    (Vec::new(), PeerEffect::CloseErr(TransferError::Unauthorized))
                } else {
                    self.state = PeerState::AwaitCount;
                    (Vec::new(), PeerEffect::Continue)
                }
            },
            PeerState::AwaitCount => {
                match parse_dec(msg.as_slice()) {
                    Some(n) => {
                        let mut sends: Vec<Vec<u8>> = Vec::new();
                        sends.push(msg);
                        if n == 0 {
                            sends.push(disconnect_msg());
                            self.state = PeerState::Closed;
                            proof {
                                assert(sends@.map_values(|v: Vec<u8>| v@) =~= seq![
                                    msg@,
                                    msg_disconnect(),
                                ]);
                            }
                            (sends, PeerEffect::CloseOk)
                        } else {
                            self.state = PeerState::AwaitEntry { expected: n };
                            proof {
                                assert(sends@.map_values(|v: Vec<u8>| v@) =~= seq![msg@]);
                            }
                            (sends, PeerEffect::Continue)
                        }
                    },
                    None => {
                        self.state = PeerState::Closed;
                        (Vec::new(), PeerEffect::CloseErr(TransferError::BrokenSequence))
                    },
                }
            },
            PeerState::AwaitEntry { expected } => {
                match parse_entry(&msg) {
                    Ok(info) => {
                        proof {
                            vstd::utf8::encode_utf8_valid_utf8(info.name@);
                            vstd::utf8::encode_utf8_valid_utf8(info.hash@);
                        }
                        if info.size == 0 {
                            self.state = PeerState::Closed;
                            (Vec::new(), PeerEffect::CloseErr(TransferError::MalformedEntry))
                        } else {
                            let ghost cat0 = self.catalog@;
                            self.catalog.push(info);
                            proof {
                                assert(self.catalog@.take(cat0.len() as int) =~= cat0);
                                assert forall|j: int|
                                    0 <= j < self.catalog@.len() implies (#[trigger] self
                                    .catalog@[j]).size > 0 by {
                                    if j < cat0.len() {
                                        assert(cat0[j].size > 0);
                                    }
                                }
                            }
                            if (self.catalog.len() as u64) < expected {
                                (Vec::new(), PeerEffect::Continue)
                            } else {
                                self.advance(0)
                            }
                        }
                    },
                    Err(_) => {
                        self.state = PeerState::Closed;
                        (Vec::new(), PeerEffect::CloseErr(TransferError::MalformedEntry))
                    },
                }
            },
            PeerState::Downloading { current } => {
                let size = self.catalog[current].size;
                let have = self.received.len() as u64;
                let incoming = msg.len() as u64;
                if incoming > size - have {
                    self.state = PeerState::Closed;
                    (Vec::new(), PeerEffect::CloseErr(TransferError::BrokenSequence))
                } else if incoming < size - have {
                    let mut m = msg;
                    self.received.append(&mut m);
                    (Vec::new(), PeerEffect::Continue)
                } else {
                    let mut m = msg;
                    self.received.append(&mut m);
                    let content = vstd::slice::slice_to_vec(self.received.as_slice());
                    self.received = Vec::new();
                    let digest = digest_hex(&content);
                    let mut sends: Vec<Vec<u8>> = Vec::new();
                    sends.push(digest.as_str().as_bytes_vec());
                    if digest.eq(&self.catalog[current].hash) {
                        let name = self.catalog[current].name.clone();
                        let n = self.catalog.len();
                        proof {
                            assert(current < n);
                        }
                        let ghost first = sends@;
                        let (mut rest, _advance_effect) = self.advance(current + 1);
                        let ghost rest0 = rest@;
                        sends.append(&mut rest);
                        proof {
                            assert(sends@.map_values(|v: Vec<u8>| v@) =~= first.map_values(
                                |v: Vec<u8>| v@,
                            ) + rest0.map_values(|v: Vec<u8>| v@));
                        }
                        (sends, PeerEffect::WriteFile { name, content })
                    } else {
                        self.state = PeerState::Closed;
                        (sends, PeerEffect::CloseErr(TransferError::DigestMismatch))
                    }
                }
            },
            PeerState::Start => {
                self.state = PeerState::Closed;
                (Vec::new(), PeerEffect::CloseErr(TransferError::BrokenSequence))
            },
            PeerState::Closed => {
                self.state = PeerState::Closed;
                (Vec::new(), PeerEffect::CloseErr(TransferError::BrokenSequence))
            },
        }
    }
}

} // verus!
