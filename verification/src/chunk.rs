//! Decomposition of a payload into bounded, offset-indexed chunks.
//!
//! A single transaction cannot carry an arbitrarily large payload, so
//! program deployment uploads it in fixed-size pieces, each written at the
//! offset it came from.  The decomposition is proved to cover the payload
//! exactly: the pieces are in order, every piece but the last is full, and
//! concatenating them yields the original bytes.

use vstd::prelude::*;
use vstd::slice::{slice_subrange, slice_to_vec};

verus! {

/// Largest number of payload bytes one write instruction carries.
pub const CHUNK_SIZE: usize = 900;

/// How many chunks a payload of `len` bytes decomposes into.
pub open spec fn spec_chunk_count(len: nat) -> nat {
    ((len + CHUNK_SIZE - 1) / (CHUNK_SIZE as int)) as nat
}

/// The end of chunk `i`: one full stride further, or the payload's end.
pub open spec fn spec_chunk_end(len: nat, i: int) -> int {
    if CHUNK_SIZE * (i + 1) <= len {
        CHUNK_SIZE * (i + 1)
    } else {
        len as int
    }
}

/// The bytes of chunk `i` of the payload.
pub open spec fn spec_chunk_at(data: Seq<u8>, i: int) -> Seq<u8> {
    data.subrange(CHUNK_SIZE * i, spec_chunk_end(data.len(), i))
}

/// The first `n` chunks of the payload, concatenated.
pub open spec fn spec_chunks_concat(data: Seq<u8>, n: int) -> Seq<u8>
    decreases n,
{
    if n <= 0 {
        Seq::empty()
    } else {
        spec_chunks_concat(data, n - 1) + spec_chunk_at(data, n - 1)
    }
}

/// Splits the payload into its chunks, each paired with the offset it is to
/// be written at: chunk `i` starts at offset `CHUNK_SIZE * i`, every chunk
/// but the last is exactly `CHUNK_SIZE` bytes, and the last holds the
/// remainder.
pub fn chunk_payload(data: &[u8]) -> (r: Vec<(u32, Vec<u8>)>)
    requires
        data@.len() <= u32::MAX,
    ensures
        r@.len() == spec_chunk_count(data@.len()),
        forall|i: int| 0 <= i < r@.len() ==> (#[trigger] r@[i]).0 as int == CHUNK_SIZE * i,
        forall|i: int| 0 <= i < r@.len() ==> (#[trigger] r@[i]).1@ == spec_chunk_at(data@, i),
{
    let mut r: Vec<(u32, Vec<u8>)> = Vec::new();
    let mut offset: usize = 0;
    while offset < data.len()
        invariant
            data@.len() <= u32::MAX,
            offset <= data@.len(),
            offset < data@.len() ==> offset == CHUNK_SIZE * r@.len(),
            offset == data@.len() ==> r@.len() == spec_chunk_count(data@.len()),
            forall|i: int| 0 <= i < r@.len() ==> (#[trigger] r@[i]).0 as int == CHUNK_SIZE * i,
            forall|i: int| 0 <= i < r@.len() ==> (#[trigger] r@[i]).1@ == spec_chunk_at(data@, i),
        decreases data@.len() - offset,
    {
        let ghost n_old = r@.len() as int;
        let ghost prev = r@;
        let end = if CHUNK_SIZE <= data.len() && offset <= data.len() - CHUNK_SIZE {
            offset + CHUNK_SIZE
        } else {
            data.len()
        };
        let chunk = slice_to_vec(slice_subrange(data, offset, end));
        r.push((offset as u32, chunk));
        proof {
            assert(offset == CHUNK_SIZE * n_old);
            assert(end == spec_chunk_end(data@.len(), n_old)) by {
                assert(CHUNK_SIZE * (n_old + 1) == CHUNK_SIZE * n_old + CHUNK_SIZE)
                    by (nonlinear_arith);
            }
            assert(r@[n_old].1@ == spec_chunk_at(data@, n_old));
            assert((r@[n_old].0 as int) == CHUNK_SIZE * n_old);
            assert forall|i: int|
                0 <= i < r@.len() implies ((#[trigger] r@[i]).0 as int == CHUNK_SIZE * i && r@[i].1@
                == spec_chunk_at(data@, i)) by {
                if i < n_old {
                    assert(r@[i] == prev[i]);
                }
            }
            if end == data@.len() {
                assert(data@.len() <= CHUNK_SIZE * n_old + CHUNK_SIZE);
                assert(r@.len() == spec_chunk_count(data@.len())) by (nonlinear_arith)
                    requires
                        CHUNK_SIZE == 900,
                        r@.len() == n_old + 1,
                        CHUNK_SIZE * n_old < data@.len(),
                        data@.len() <= CHUNK_SIZE * n_old + CHUNK_SIZE,
                ;
            } else {
                assert(end == CHUNK_SIZE * (n_old + 1)) by (nonlinear_arith)
                    requires
                        end == CHUNK_SIZE * n_old + CHUNK_SIZE,
                ;
            }
        }
        offset = end;
    }
    r
}

/// Concatenating the first `n` chunks reproduces the payload's first bytes,
/// up to where chunk `n` ends.
proof fn lemma_chunks_concat_prefix(data: Seq<u8>, n: int)
    requires
        0 <= n <= spec_chunk_count(data.len()),
    ensures
        spec_chunks_concat(data, n) == data.subrange(
            0,
            if n == 0 {
                0
            } else {
                spec_chunk_end(data.len(), n - 1)
            },
        ),
    decreases n,
{
    if n == 0 {
        assert(spec_chunks_concat(data, 0) =~= data.subrange(0, 0));
    } else {
        lemma_chunks_concat_prefix(data, n - 1);
        assert(CHUNK_SIZE * (n - 1) <= data.len()) by (nonlinear_arith)
            requires
                n <= spec_chunk_count(data.len()),
                n >= 1,
                CHUNK_SIZE == 900,
        ;
        let prev_end: int = if n == 1 {
            0
        } else {
            spec_chunk_end(data.len(), n - 2)
        };
        assert(prev_end == CHUNK_SIZE * (n - 1) || prev_end == data.len());
        if prev_end == data.len() && n >= 2 {
            assert(CHUNK_SIZE * (n - 1) <= data.len());
            assert(CHUNK_SIZE * ((n - 2) + 1) > data.len() || CHUNK_SIZE * (n - 1)
                == data.len());
        }
        assert(spec_chunks_concat(data, n) =~= data.subrange(
            0,
            spec_chunk_end(data.len(), n - 1),
        ));
    }
}

/// Chunk coverage: concatenating every chunk of a payload yields exactly
/// the payload.  This is what makes the chunked upload faithful — the
/// account ends up holding the original bytes.
pub proof fn lemma_chunks_reconstruct(data: Seq<u8>)
    ensures
        spec_chunks_concat(data, spec_chunk_count(data.len()) as int) == data,
{
    let n = spec_chunk_count(data.len()) as int;
    lemma_chunks_concat_prefix(data, n);
    if n == 0 {
        assert(data.len() == 0);
        assert(data.subrange(0, 0) =~= data);
    } else {
        assert(spec_chunk_end(data.len(), n - 1) == data.len()) by (nonlinear_arith)
            requires
                n == spec_chunk_count(data.len()),
                n >= 1,
                CHUNK_SIZE == 900,
        ;
        assert(data.subrange(0, data.len() as int) =~= data);
    }
}

/// Every chunk is at most one stride long, and every chunk before the last
/// is exactly one stride long.
pub proof fn lemma_chunk_sizes(data: Seq<u8>, i: int)
    requires
        0 <= i < spec_chunk_count(data.len()),
    ensures
        spec_chunk_at(data, i).len() <= CHUNK_SIZE,
        spec_chunk_at(data, i).len() > 0,
        i < spec_chunk_count(data.len()) - 1 ==> spec_chunk_at(data, i).len() == CHUNK_SIZE,
{
    assert(CHUNK_SIZE * i < data.len() && (i < spec_chunk_count(data.len()) - 1 ==> CHUNK_SIZE * (
    i + 1) <= data.len())) by (nonlinear_arith)
        requires
            0 <= i < spec_chunk_count(data.len()),
            CHUNK_SIZE == 900,
    ;
}

} // verus!
