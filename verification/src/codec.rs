//! The frame codec.
//!
//! Every record on the wire is the unpadded standard-alphabet base-64
//! encoding of its payload followed by a single terminator byte, ASCII
//! `':'`.  The alphabet contains no terminator byte, so the terminator
//! delimits records unambiguously and payload bytes never need escaping.

use vstd::prelude::*;

use crate::errors::TransferError;
use base64::Engine;

verus! {

/// The byte that ends every record on the wire: ASCII `':'`.
pub const TERMINATOR: u8 = 58;

/// The unpadded, standard-alphabet base-64 encoding of a byte sequence.
/// The encoding is a function of the bytes alone; what is known of it is
/// carried by the contracts of the two conversions below.
pub uninterp spec fn base64_of(data: Seq<u8>) -> Seq<u8>;

/// What decoding a byte sequence as unpadded standard base-64 yields:
/// `Some` payload on a canonical encoding, `None` otherwise.  A function of
/// the bytes alone.
pub uninterp spec fn base64_parse(data: Seq<u8>) -> Option<Seq<u8>>;

/// The wire form of one record carrying `payload`.
pub open spec fn record_bytes(payload: Seq<u8>) -> Seq<u8> {
    base64_of(payload) + seq![TERMINATOR]
}

/// A well-formed wire record: nonempty, ends with the terminator, and holds
/// no terminator anywhere earlier.
pub open spec fn record_wf(w: Seq<u8>) -> bool {
    &&& w.len() > 0
    &&& w.last() == TERMINATOR
    &&& forall|i: int| 0 <= i < w.len() - 1 ==> w[i] != TERMINATOR
}

/// Relies on base64's `STANDARD_NO_PAD` engine: `encode` yields the unpadded
/// RFC 4648 standard-alphabet encoding, whose alphabet (`A`-`Z`, `a`-`z`,
/// `0`-`9`, `+`, `/`) does not contain the `':'` terminator, and `decode`
/// inverts it.
#[verifier::external_body]
fn b64_encode(data: &Vec<u8>) -> (r: Vec<u8>)
    ensures
        r@ == base64_of(data@),
        base64_parse(r@) == Some(data@),
        forall|i: int| 0 <= i < r@.len() ==> r@[i] != TERMINATOR,
{
    base64::engine::general_purpose::STANDARD_NO_PAD.encode(data).into_bytes()
}

/// Relies on base64's `STANDARD_NO_PAD` engine: `decode` accepts exactly the
/// canonical unpadded encodings (it rejects the wrong alphabet, padding, a
/// dangling symbol, and nonzero trailing bits), and returns the encoded
/// payload.
#[verifier::external_body]
fn b64_decode(data: &Vec<u8>) -> (r: Option<Vec<u8>>)
    ensures
        r is Some <==> base64_parse(data@) is Some,
        r matches Some(q) ==> Some(q@) == base64_parse(data@) && data@ == base64_of(q@),
{
    match base64::engine::general_purpose::STANDARD_NO_PAD.decode(data) {
        Ok(v) => Some(v),
        Err(_) => None,
    }
}

/// Frames one payload as a record: encodes it and appends the terminator.
pub fn write_record(payload: &Vec<u8>) -> (r: Vec<u8>)
    ensures
        r@ == record_bytes(payload@),
        record_wf(r@),
        base64_parse(base64_of(payload@)) == Some(payload@),
{
    let mut out = b64_encode(payload);
    out.push(TERMINATOR);
    proof {
        assert(out@ =~= record_bytes(payload@));
    }
    out
}

/// Parses one complete wire record back into its payload.  Together with
/// [`write_record`] this is the framing bijection, witnessed by
/// [`frame_round_trip`].
pub fn parse_record(wire: &Vec<u8>) -> (r: Result<Vec<u8>, TransferError>)
    ensures
        r matches Ok(q) ==> wire@ == record_bytes(q@) && base64_parse(wire@.drop_last())
            == Some(q@),
        wire@.len() == 0 || wire@.last() != TERMINATOR ==> r == Err::<
            Vec<u8>,
            TransferError,
        >(TransferError::UnterminatedRecord),
        wire@.len() > 0 && wire@.last() == TERMINATOR ==> match base64_parse(
            wire@.drop_last(),
        ) {
            Some(p) => r matches Ok(q) && q@ == p,
            None => r == Err::<Vec<u8>, TransferError>(TransferError::Encoding),
        },
{
    if wire.len() == 0 {
        return Err(TransferError::UnterminatedRecord);
    }
    if wire[wire.len() - 1] != TERMINATOR {
        return Err(TransferError::UnterminatedRecord);
    }
    let body = vstd::slice::slice_to_vec(vstd::slice::slice_subrange(
        wire.as_slice(),
        0,
        wire.len() - 1,
    ));
    proof {
        assert(body@ =~= wire@.drop_last());
    }
    match b64_decode(&body) {
        Some(p) => {
            proof {
                assert(wire@ =~= record_bytes(p@));
            }
            Ok(p)
        },
        None => Err(TransferError::Encoding),
    }
}

/// Framing bijection: framing any payload and parsing the frame back yields
/// the payload unchanged.
pub fn frame_round_trip(payload: &Vec<u8>) -> (r: Vec<u8>)
    ensures
        r@ == payload@,
{
    let wire = write_record(payload);
    proof {
        assert(wire@.drop_last() =~= base64_of(payload@));
    }
    parse_record(&wire).unwrap()
}

/// The index of the first terminator byte in `buf`, if any.
pub fn find_terminator(buf: &Vec<u8>) -> (r: Option<usize>)
    ensures
        r matches Some(i) ==> i < buf@.len() && buf@[i as int] == TERMINATOR && forall|j: int|
            0 <= j < i ==> buf@[j] != TERMINATOR,
        r is None ==> forall|j: int| 0 <= j < buf@.len() ==> buf@[j] != TERMINATOR,
{
    let mut i: usize = 0;
    while i < buf.len()
        invariant
            i <= buf@.len(),
            forall|j: int| 0 <= j < i ==> buf@[j] != TERMINATOR,
        decreases buf@.len() - i,
    {
        if buf[i] == TERMINATOR {
            return Some(i);
        }
        i = i + 1;
    }
    None
}

/// Removes the first complete record (terminator included) from the front of
/// a receive buffer.  Because no record holds a terminator before its last
/// byte, a buffer that starts with a well-formed record yields exactly that
/// record, whatever follows it.
pub fn take_record(buf: &mut Vec<u8>) -> (r: Option<Vec<u8>>)
    ensures
        r matches Some(rec) ==> {
            &&& 0 < rec@.len() <= old(buf)@.len()
            &&& rec@ == old(buf)@.take(rec@.len() as int)
            &&& record_wf(rec@)
            &&& final(buf)@ == old(buf)@.skip(rec@.len() as int)
        },
        r is None ==> final(buf)@ == old(buf)@ && forall|j: int|
            0 <= j < old(buf)@.len() ==> old(buf)@[j] != TERMINATOR,
        forall|w: Seq<u8>, rest: Seq<u8>| old(buf)@ == w + rest && record_wf(w) ==> (
        r matches Some(rec) && rec@ == w && final(buf)@ == rest),
{
    match find_terminator(buf) {
        Some(i) => {
            let n = buf.len();
            proof {
                assert(i < n);
            }
            let rec = vstd::slice::slice_to_vec(vstd::slice::slice_subrange(
                buf.as_slice(),
                0,
                i + 1,
            ));
            let rest = vstd::slice::slice_to_vec(vstd::slice::slice_subrange(
                buf.as_slice(),
                i + 1,
                buf.len(),
            ));
            let ghost orig = buf@;
            *buf = rest;
            proof {
                assert(rec@ =~= orig.take(rec@.len() as int));
                assert(buf@ =~= orig.skip(rec@.len() as int));
                assert forall|w: Seq<u8>, rest2: Seq<u8>|
                    orig == w + rest2 && record_wf(w) implies rec@ == w && buf@ == rest2 by {
                    assert(w.len() - 1 == i) by {
                        assert(orig[w.len() - 1] == w[w.len() - 1]);
                        assert(orig[w.len() - 1] == TERMINATOR);
                        assert forall|j: int| 0 <= j < w.len() - 1 implies orig[j] != TERMINATOR by {
                            assert(orig[j] == w[j]);
                        }
                    }
                    assert(rec@ =~= w);
                    assert(buf@ =~= rest2);
                }
            }
            Some(rec)
        },
        None => {
            proof {
                assert forall|w: Seq<u8>, rest2: Seq<u8>|
                    buf@ == w + rest2 && record_wf(w) implies false by {
                    assert(buf@[w.len() - 1] == w[w.len() - 1]);
                }
            }
            None
        },
    }
}

/// Well-formed records never bleed into each other: a byte stream splits
/// into records in exactly one way.
pub proof fn lemma_frame_unambiguous(w1: Seq<u8>, r1: Seq<u8>, w2: Seq<u8>, r2: Seq<u8>)
    requires
        record_wf(w1),
        record_wf(w2),
        w1 + r1 == w2 + r2,
    ensures
        w1 == w2,
        r1 == r2,
{
    let s = w1 + r1;
    if w1.len() < w2.len() {
        assert(s[w1.len() - 1] == TERMINATOR);
        assert(s[w1.len() - 1] == w2[w1.len() - 1]);
        assert(false);
    }
    if w2.len() < w1.len() {
        assert(s[w2.len() - 1] == TERMINATOR);
        assert(s[w2.len() - 1] == w1[w2.len() - 1]);
        assert(false);
    }
    assert(w1.len() == w2.len());
    assert forall|i: int| 0 <= i < w1.len() implies w1[i] == w2[i] by {
        assert(w1[i] == s[i]);
        assert(w2[i] == (w2 + r2)[i]);
    }
    assert(w1 =~= w2);
    assert((w1 + r1).len() == w1.len() + r1.len());
    assert((w2 + r2).len() == w2.len() + r2.len());
    assert(r1.len() == r2.len());
    assert forall|i: int| 0 <= i < r1.len() implies r1[i] == r2[i] by {
        assert((w1 + r1)[w1.len() + i] == r1[i]);
        assert((w2 + r2)[w2.len() + i] == r2[i]);
    }
    assert(r1 =~= r2);
}

} // verus!
