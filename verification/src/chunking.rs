//! The model of a segmented buffer: a sequence of internal chunks, each a
//! sequence of bytes, laid out one after the other. A fixed-width read
//! succeeds only when its whole window lies inside a single chunk.

use vstd::prelude::*;

verus! {

/// The byte offset at which chunk `k` starts: the summed lengths of the
/// chunks before it.
pub open spec fn chunk_start(cs: Seq<Seq<u8>>, k: int) -> int
    decreases k,
{
    if k <= 0 {
        0
    } else {
        chunk_start(cs, k - 1) + cs[k - 1].len()
    }
}

/// Chunk `k` covers the byte at offset `off`.
pub open spec fn covers(cs: Seq<Seq<u8>>, k: int, off: int) -> bool {
    &&& 0 <= k < cs.len()
    &&& chunk_start(cs, k) <= off < chunk_start(cs, k) + cs[k].len()
}

/// Chunk `k` of `cs` is exactly the chunk `chunk`, starts at byte offset
/// `start`, and covers the byte at offset `off`.
pub open spec fn chunk_at(cs: Seq<Seq<u8>>, k: int, chunk: Seq<u8>, start: int, off: int) -> bool {
    &&& 0 <= k < cs.len()
    &&& cs[k] == chunk
    &&& start == chunk_start(cs, k)
    &&& covers(cs, k, off)
}

/// The window `[off, off + size)` lies entirely inside one chunk.
pub open spec fn fits_in_chunk(cs: Seq<Seq<u8>>, off: int, size: int) -> bool {
    exists|k: int| covers(cs, k, off) && off + size <= chunk_start(cs, k) + cs[k].len()
}

/// Chunk start offsets never decrease from one chunk to the next.
pub proof fn lemma_chunk_start_monotone(cs: Seq<Seq<u8>>, k1: int, k2: int)
    requires
        0 <= k1 <= k2,
    ensures
        chunk_start(cs, k1) <= chunk_start(cs, k2),
    decreases k2 - k1,
{
    if k1 < k2 {
        lemma_chunk_start_monotone(cs, k1, k2 - 1);
    }
}

/// At most one chunk covers a given offset: the chunks' ranges are
/// disjoint.
pub proof fn lemma_covers_unique(cs: Seq<Seq<u8>>, k1: int, k2: int, off: int)
    requires
        covers(cs, k1, off),
        covers(cs, k2, off),
    ensures
        k1 == k2,
{
    if k1 < k2 {
        lemma_chunk_start_monotone(cs, k1 + 1, k2);
    } else if k2 < k1 {
        lemma_chunk_start_monotone(cs, k2 + 1, k1);
    }
}

} // verus!
