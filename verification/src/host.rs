//! The host endpoint's protocol state machine.
//!
//! One `HostConn` serves one authenticated peer.  The machine consumes
//! plain events — a decrypted message, or the contents of a requested file —
//! and yields the plaintext messages to send next together with an effect
//! for the caller: keep going, load a source file, or close.  The caller
//! owns the socket and the channel; the machine never sees either.

use vstd::prelude::*;

use crate::catalog::{entry_bytes, Catalog};
use crate::chunks::{chunk_split, chunks_of};
use crate::decimal::{dec_digits_of, dec_value, is_dec_digits, parse_dec, u64_to_dec};
use crate::errors::TransferError;
use crate::util::{bytes_eq, FileInfo};
use vstd::string::StrSliceExecFns;
use vstd::utf8::encode_utf8;

verus! {

/// The rejection and session-termination message.
pub open spec fn msg_disconnect() -> Seq<u8> {
    encode_utf8("DISCONNECT"@)
}

/// The acceptance message after a correct access key.
pub open spec fn msg_valid() -> Seq<u8> {
    encode_utf8("VALID"@)
}

/// The rejection and session-termination message, as bytes to send.
pub fn disconnect_msg() -> (r: Vec<u8>)
    ensures
        r@ == msg_disconnect(),
{
    "DISCONNECT".as_bytes_vec()
}

/// The acceptance message, as bytes to send.
pub fn valid_msg() -> (r: Vec<u8>)
    ensures
        r@ == msg_valid(),
{
    "VALID".as_bytes_vec()
}

/// The advertised lines of a catalog, in catalog order.
pub open spec fn catalog_lines(files: Seq<FileInfo>) -> Seq<Seq<u8>> {
    Seq::new(
        files.len(),
        |i: int|
            entry_bytes(
                encode_utf8(files[i].name@),
                files[i].size as nat,
                encode_utf8(files[i].hash@),
            ),
    )
}

/// Where the host stands within one connection.
#[derive(Clone, Copy, Debug, PartialEq, Eq, Structural)]
pub enum HostState {
    /// Waiting for the peer's access key.
    AwaitKey,
    /// Waiting for the peer to echo the catalog count.
    AwaitCount,
    /// Waiting for a file request or the termination message.
    AwaitRequest,
    /// Waiting for the caller to load the contents of catalog slot `slot`.
    AwaitFile { slot: usize },
    /// Waiting for the peer's digest confirmation for catalog slot `slot`.
    AwaitConfirm { slot: usize },
    /// The connection is over.
    Closed,
}

/// One plain input to the machine.
pub enum HostEvent {
    /// A decrypted message from the peer.
    Message(Vec<u8>),
    /// The contents of the source file the machine asked for.
    FileContent(Vec<u8>),
}

/// What the caller must do after a step.
#[derive(Clone, Copy, Debug, PartialEq, Eq, Structural)]
pub enum HostEffect {
    /// Send the returned messages, then wait for the next event.
    Continue,
    /// Read the file of the named source slot and hand its bytes back.
    NeedFile(usize),
    /// The peer ended the session; close the socket.
    CloseOk,
    /// A fatal error; close the socket.
    CloseErr(TransferError),
}

/// The per-connection server: immutable configuration and catalog, plus the
/// current protocol state.
pub struct HostConn {
    key: String,
    chunksize: usize,
    catalog: Catalog,
    state: HostState,
}

impl HostConn {
    /// The UTF-8 bytes of the configured access key.
    pub closed spec fn key_bytes(&self) -> Seq<u8> {
        encode_utf8(self.key@)
    }

    /// The configured chunk size.
    pub closed spec fn chunksize_view(&self) -> usize {
        self.chunksize
    }

    /// The advertised catalog.
    pub closed spec fn files(&self) -> Seq<FileInfo> {
        self.catalog.files_view()
    }

    /// The source slot of each catalog slot.
    pub closed spec fn origins(&self) -> Seq<usize> {
        self.catalog.origin_view()
    }

    /// The current protocol state.
    pub closed spec fn state_view(&self) -> HostState {
        self.state
    }

    /// Connection invariant: a usable chunk size, a well-formed catalog,
    /// and any stored slot within it.
    pub closed spec fn wf(&self) -> bool {
        &&& self.chunksize_view() > 0
        &&& self.catalog.wf()
        &&& self.files().len() == self.origins().len()
        &&& match self.state_view() {
            HostState::AwaitFile { slot } => slot < self.files().len(),
            HostState::AwaitConfirm { slot } => slot < self.files().len(),
            _ => true,
        }
    }

    /// Starts serving one connection: the machine first awaits the access
    /// key.
    pub fn new(key: String, chunksize: usize, catalog: Catalog) -> (r: HostConn)
        requires
            chunksize > 0,
            catalog.wf(),
        ensures
            r.wf(),
            r.state_view() == HostState::AwaitKey,
            r.key_bytes() == encode_utf8(key@),
            r.chunksize_view() == chunksize,
            r.files() == catalog.files_view(),
            r.origins() == catalog.origin_view(),
    {
        HostConn { key, chunksize, catalog, state: HostState::AwaitKey }
    }

    /// The connection is over.
    pub fn finished(&self) -> (r: bool)
        ensures
            r == (self.state_view() == HostState::Closed),
    {
        match self.state {
            HostState::Closed => true,
            _ => false,
        }
    }

    /// Feeds one event to the machine; returns the messages to send and the
    /// effect to carry out.  The result is exactly [`host_step`] of the
    /// previous state and the event.
    pub fn step(&mut self, event: HostEvent) -> (r: (Vec<Vec<u8>>, HostEffect))
        requires
            old(self).wf(),
        ensures
            final(self).wf(),
            final(self).key_bytes() == old(self).key_bytes(),
            final(self).chunksize_view() == old(self).chunksize_view(),
            final(self).files() == old(self).files(),
            final(self).origins() == old(self).origins(),
            final(self).state_view() == host_step(*old(self), event).0,
            r.0@.map_values(|v: Vec<u8>| v@) == host_step(*old(self), event).1,
            r.1 == host_step(*old(self), event).2,
    {
        let ghost pre = *self;
        match self.state {
            HostState::AwaitKey => {
                match event {
                    HostEvent::Message(k) => {
                        let key_bytes = self.key.as_str().as_bytes_vec();
                        if bytes_eq(&k, &key_bytes) {
                            self.state = HostState::AwaitCount;
                            let mut sends: Vec<Vec<u8>> = Vec::new();
                            sends.push(valid_msg());
                            sends.push(u64_to_dec(self.catalog.len() as u64));
                            proof {
                                assert(sends@.map_values(|v: Vec<u8>| v@) =~= seq![
                                    msg_valid(),
                                    dec_digits_of(pre.files().len() as nat),
                                ]);
                            }
                            (sends, HostEffect::Continue)
                        } else {
                            self.state = HostState::Closed;
                            let mut sends: Vec<Vec<u8>> = Vec::new();
                            sends.push(disconnect_msg());
                            proof {
                                assert(sends@.map_values(|v: Vec<u8>| v@) =~= seq![
                                    msg_disconnect(),
                                ]);
                            }
                            (sends, HostEffect::CloseErr(TransferError::Unauthorized))
                        }
                    },
                    HostEvent::FileContent(_) => self.close_broken(),
                }
            },
            HostState::AwaitCount => {
                match event {
                    HostEvent::Message(m) => {
                        let expected = self.catalog.len() as u64;
                        match parse_dec(m.as_slice()) {
                            Some(n) => {
                                if n == expected {
                                    self.state = HostState::AwaitRequest;
                                    let sends = self.catalog_messages();
                                    (sends, HostEffect::Continue)
                                } else {
                                    self.state = HostState::Closed;
                                    (
                                        Vec::new(),
                                        HostEffect::CloseErr(TransferError::BrokenSequence),
                                    )
                                }
                            },
                            None => {
                                self.state = HostState::Closed;
                                (Vec::new(), HostEffect::CloseErr(TransferError::BrokenSequence))
                            },
                        }
                    },
                    HostEvent::FileContent(_) => self.close_broken(),
                }
            },
            HostState::AwaitRequest => {
                match event {
                    HostEvent::Message(m) => {
                        let disc = disconnect_msg();
                        if bytes_eq(&m, &disc) {
                            self.state = HostState::Closed;
                            (Vec::new(), HostEffect::CloseOk)
                        } else {
                            match self.catalog.lookup_bytes(&m) {
                                Some(slot) => {
                                    let source = self.catalog.origin_of(slot);
                                    self.state = HostState::AwaitFile { slot };
                                    proof {
                                        let jj = choose|j: int|
                                            0 <= j < pre.files().len() && encode_utf8(
                                                #[trigger] pre.files()[j].hash@,
                                            ) == m@;
                                        assert(encode_utf8(pre.files()[jj].hash@) == m@);
                                        assert(encode_utf8(pre.files()[slot as int].hash@) == m@);
                                        assert(jj == slot as int);
                                    }
                                    (Vec::new(), HostEffect::NeedFile(source))
                                },
                                None => {
                                    self.state = HostState::Closed;
                                    (Vec::new(), HostEffect::CloseErr(TransferError::UnknownDigest))
                                },
                            }
                        }
                    },
                    HostEvent::FileContent(_) => self.close_broken(),
                }
            },
            HostState::AwaitFile { slot } => {
                match event {
                    HostEvent::FileContent(content) => {
                        self.state = HostState::AwaitConfirm { slot };
                        let sends = chunk_split(&content, self.chunksize);
                        (sends, HostEffect::Continue)
                    },
                    HostEvent::Message(_) => self.close_broken(),
                }
            },
            HostState::AwaitConfirm { slot } => {
                match event {
                    HostEvent::Message(m) => {
                        let expected = self.catalog.get(slot).hash.as_str().as_bytes_vec();
                        if bytes_eq(&m, &expected) {
                            self.state = HostState::AwaitRequest;
                            (Vec::new(), HostEffect::Continue)
                        } else {
                            self.state = HostState::Closed;
                            (Vec::new(), HostEffect::CloseErr(TransferError::DigestMismatch))
                        }
                    },
                    HostEvent::FileContent(_) => self.close_broken(),
                }
            },
            HostState::Closed => (Vec::new(), HostEffect::CloseErr(TransferError::BrokenSequence)),
        }
    }

    /// Closes the connection on an event the state never expects.
    fn close_broken(&mut self) -> (r: (Vec<Vec<u8>>, HostEffect))
        ensures
            *final(self) == (HostConn { state: HostState::Closed, ..*old(self) }),
            r.0@.len() == 0,
            r.1 == HostEffect::CloseErr(TransferError::BrokenSequence),
    {
        self.state = HostState::Closed;
        (Vec::new(), HostEffect::CloseErr(TransferError::BrokenSequence))
    }

    /// Renders every advertised line, in catalog order.
    fn catalog_messages(&self) -> (r: Vec<Vec<u8>>)
        requires
            self.wf(),
        ensures
            r@.map_values(|v: Vec<u8>| v@) == catalog_lines(self.files()),
    {
        let mut out: Vec<Vec<u8>> = Vec::new();
        let n = self.catalog.len();
        let mut j: usize = 0;
        while j < n
            invariant
                self.wf(),
                n == self.files().len(),
                j <= n,
                out@.map_values(|v: Vec<u8>| v@) =~= catalog_lines(self.files()).take(j as int),
            decreases n - j,
        {
            let line = crate::catalog::encode_entry(self.catalog.get(j));
            let ghost prev = out@;
            out.push(line);
            proof {
                assert(line@ == catalog_lines(self.files())[j as int]);
                assert(out@.map_values(|v: Vec<u8>| v@) =~= prev.map_values(
                    |v: Vec<u8>| v@,
                ).push(line@));
                assert(catalog_lines(self.files()).take(j + 1) =~= catalog_lines(
                    self.files(),
                ).take(j as int).push(catalog_lines(self.files())[j as int]));
                assert(out@.map_values(|v: Vec<u8>| v@) =~= catalog_lines(self.files()).take(
                    j + 1,
                ));
            }
            j = j + 1;
        }
        proof {
            assert(catalog_lines(self.files()).take(n as int) =~= catalog_lines(self.files()));
        }
        out
    }
}

/// The transition relation of the host machine: from a connection and an
/// event to the next protocol state, the plaintext messages sent, and the
/// effect.
pub open spec fn host_step(pre: HostConn, event: HostEvent) -> (HostState, Seq<Seq<u8>>, HostEffect) {
    match pre.state_view() {
        HostState::AwaitKey => match event {
            HostEvent::Message(k) => {
                if k@ == pre.key_bytes() {
                    (
                        HostState::AwaitCount,
                        seq![msg_valid(), dec_digits_of(pre.files().len() as nat)],
                        HostEffect::Continue,
                    )
                } else {
                    (
                        HostState::Closed,
                        seq![msg_disconnect()],
                        HostEffect::CloseErr(TransferError::Unauthorized),
                    )
                }
            },
            HostEvent::FileContent(_) => closed_broken(),
        },
        HostState::AwaitCount => match event {
            HostEvent::Message(m) => {
                if is_dec_digits(m@) && dec_value(m@) == pre.files().len() {
                    (HostState::AwaitRequest, catalog_lines(pre.files()), HostEffect::Continue)
                } else {
                    (
                        HostState::Closed,
                        Seq::empty(),
                        HostEffect::CloseErr(TransferError::BrokenSequence),
                    )
                }
            },
            HostEvent::FileContent(_) => closed_broken(),
        },
        HostState::AwaitRequest => match event {
            HostEvent::Message(m) => {
                if m@ == msg_disconnect() {
                    (HostState::Closed, Seq::empty(), HostEffect::CloseOk)
                } else if exists|j: int|
                    0 <= j < pre.files().len() && encode_utf8(#[trigger] pre.files()[j].hash@)
                        == m@ {
                    let j = choose|j: int|
                        0 <= j < pre.files().len() && encode_utf8(#[trigger] pre.files()[j].hash@)
                            == m@;
                    (
                        HostState::AwaitFile { slot: j as usize },
                        Seq::empty(),
                        HostEffect::NeedFile(pre.origins()[j]),
                    )
                } else {
                    (
                        HostState::Closed,
                        Seq::empty(),
                        HostEffect::CloseErr(TransferError::UnknownDigest),
                    )
                }
            },
            HostEvent::FileContent(_) => closed_broken(),
        },
        HostState::AwaitFile { slot } => match event {
            HostEvent::FileContent(content) => {
                (
                    HostState::AwaitConfirm { slot },
                    chunks_of(content@, pre.chunksize_view() as nat),
                    HostEffect::Continue,
                )
            },
            HostEvent::Message(_) => closed_broken(),
        },
        HostState::AwaitConfirm { slot } => match event {
            HostEvent::Message(m) => {
                if slot < pre.files().len() && m@ == encode_utf8(pre.files()[slot as int].hash@) {
                    (HostState::AwaitRequest, Seq::empty(), HostEffect::Continue)
                } else {
                    (
                        HostState::Closed,
                        Seq::empty(),
                        HostEffect::CloseErr(TransferError::DigestMismatch),
                    )
                }
            },
            HostEvent::FileContent(_) => closed_broken(),
        },
        HostState::Closed => (
            HostState::Closed,
            Seq::empty(),
            HostEffect::CloseErr(TransferError::BrokenSequence),
        ),
    }
}

/// The step of a state that accepts nothing more.
pub open spec fn closed_broken() -> (HostState, Seq<Seq<u8>>, HostEffect) {
    (HostState::Closed, Seq::empty(), HostEffect::CloseErr(TransferError::BrokenSequence))
}

/// A connection like `pre` but standing in state `s`.
pub closed spec fn with_state(pre: HostConn, s: HostState) -> HostConn {
    HostConn { state: s, ..pre }
}

/// Everything a host connection sends over a whole run, an event at a time.
pub open spec fn host_run_sends(pre: HostConn, events: Seq<HostEvent>) -> Seq<Seq<u8>>
    decreases events.len(),
{
    if events.len() == 0 {
        Seq::empty()
    } else {
        let (s, sends, _) = host_step(pre, events.first());
        sends + host_run_sends(with_state(pre, s), events.drop_first())
    }
}

/// A closed connection never sends another byte, whatever else arrives.
pub proof fn lemma_closed_sends_nothing(pre: HostConn, events: Seq<HostEvent>)
    requires
        pre.state_view() == HostState::Closed,
    ensures
        host_run_sends(pre, events) == Seq::<Seq<u8>>::empty(),
    decreases events.len(),
{
    if events.len() > 0 {
        assert(with_state(pre, HostState::Closed).state_view() == HostState::Closed);
        lemma_closed_sends_nothing(with_state(pre, HostState::Closed), events.drop_first());
        assert(host_run_sends(pre, events) =~= Seq::<Seq<u8>>::empty());
    }
}

/// Authorization gate: when the first message of a connection is any access
/// key other than the configured one, the host's entire run sends exactly
/// the rejection message — no catalog line and no byte of any file.
pub proof fn lemma_authorization_gate(pre: HostConn, events: Seq<HostEvent>, k: Vec<u8>)
    requires
        pre.state_view() == HostState::AwaitKey,
        events.len() > 0,
        events.first() == HostEvent::Message(k),
        k@ != pre.key_bytes(),
    ensures
        host_run_sends(pre, events) == seq![msg_disconnect()],
{
    let (s, sends, _) = host_step(pre, events.first());
    assert(s == HostState::Closed);
    assert(sends =~= seq![msg_disconnect()]);
    lemma_closed_sends_nothing(with_state(pre, s), events.drop_first());
    assert(host_run_sends(pre, events) =~= seq![msg_disconnect()]);
}

} // verus!
