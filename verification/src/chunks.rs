//! Chunked transfer.
//!
//! File bytes travel as a run of records of at most `chunksize` bytes each,
//! in file order; the receiver reconstructs the file by concatenation.

use vstd::prelude::*;

verus! {

/// `data` cut into pieces of `n` bytes; only the last piece may be shorter.
pub open spec fn chunks_of(data: Seq<u8>, n: nat) -> Seq<Seq<u8>>
    decreases data.len(),
    when n > 0
{
    if data.len() == 0 {
        Seq::empty()
    } else if data.len() <= n {
        seq![data]
    } else {
        seq![data.take(n as int)] + chunks_of(data.skip(n as int), n)
    }
}

/// The concatenation of a run of chunks, in order.
pub open spec fn concat_chunks(cs: Seq<Seq<u8>>) -> Seq<u8>
    decreases cs.len(),
{
    if cs.len() == 0 {
        Seq::empty()
    } else {
        cs.first() + concat_chunks(cs.drop_first())
    }
}

/// Ordering: concatenating the chunks of `data`, in the order they were
/// cut, yields `data` again.
pub proof fn lemma_chunks_reassemble(data: Seq<u8>, n: nat)
    requires
        n > 0,
    ensures
        concat_chunks(chunks_of(data, n)) == data,
    decreases data.len(),
{
    if data.len() == 0 {
        assert(concat_chunks(chunks_of(data, n)) =~= data);
    } else if data.len() <= n {
        let cs = seq![data];
        assert(cs.drop_first() =~= Seq::<Seq<u8>>::empty());
        assert(concat_chunks(cs) == data + concat_chunks(cs.drop_first()));
        assert(data + Seq::<u8>::empty() =~= data);
    } else {
        let head = data.take(n as int);
        let tail = data.skip(n as int);
        lemma_chunks_reassemble(tail, n);
        let cs = seq![head] + chunks_of(tail, n);
        assert(cs.first() == head);
        assert(cs.drop_first() =~= chunks_of(tail, n));
        assert(head + tail =~= data);
    }
}

/// Every chunk is nonempty and at most `n` bytes; all but the last are
/// exactly `n` bytes.
pub proof fn lemma_chunk_sizes(data: Seq<u8>, n: nat, i: int)
    requires
        n > 0,
        0 <= i < chunks_of(data, n).len(),
    ensures
        0 < chunks_of(data, n)[i].len() <= n,
        i < chunks_of(data, n).len() - 1 ==> chunks_of(data, n)[i].len() == n,
    decreases data.len(),
{
    if data.len() == 0 {
    } else if data.len() <= n {
    } else {
        if i > 0 {
            lemma_chunk_sizes(data.skip(n as int), n, i - 1);
        }
    }
}

/// Cuts `data` into chunks of at most `n` bytes.
pub fn chunk_split(data: &Vec<u8>, n: usize) -> (r: Vec<Vec<u8>>)
    requires
        n > 0,
    ensures
        r@.map_values(|c: Vec<u8>| c@) == chunks_of(data@, n as nat),
{
    let mut out: Vec<Vec<u8>> = Vec::new();
    let mut i: usize = 0;
    proof {
        assert(data@.skip(0) =~= data@);
        assert(out@.map_values(|c: Vec<u8>| c@) =~= Seq::<Seq<u8>>::empty());
        assert(chunks_of(data@, n as nat) =~= Seq::<Seq<u8>>::empty() + chunks_of(
            data@,
            n as nat,
        ));
    }
    while i < data.len()
        invariant
            n > 0,
            i <= data@.len(),
            chunks_of(data@, n as nat) == out@.map_values(|c: Vec<u8>| c@) + chunks_of(
                data@.skip(i as int),
                n as nat,
            ),
        decreases data@.len() - i,
    {
        let remaining = data.len() - i;
        let m = if remaining <= n {
            remaining
        } else {
            n
        };
        let piece = vstd::slice::slice_to_vec(vstd::slice::slice_subrange(
            data.as_slice(),
            i,
            i + m,
        ));
        let ghost prev = out@;
        out.push(piece);
        proof {
            let rest = data@.skip(i as int);
            assert(rest.len() == data@.len() - i);
            if rest.len() <= n as nat {
                assert(piece@ =~= rest);
                assert(data@.skip(i + m as int) =~= Seq::<u8>::empty());
                assert(chunks_of(rest, n as nat) == seq![rest]);
            } else {
                assert(piece@ =~= rest.take(n as int));
                assert(data@.skip(i + m as int) =~= rest.skip(n as int));
            }
            assert(out@.map_values(|c: Vec<u8>| c@) =~= prev.map_values(|c: Vec<u8>| c@)
                + seq![piece@]);
            assert(chunks_of(data@, n as nat) =~= out@.map_values(|c: Vec<u8>| c@) + chunks_of(
                data@.skip((i + m) as int),
                n as nat,
            ));
        }
        i = i + m;
    }
    proof {
        assert(data@.skip(i as int) =~= Seq::<u8>::empty());
        assert(chunks_of(data@, n as nat) =~= out@.map_values(|c: Vec<u8>| c@));
    }
    out
}

} // verus!
