//! The chunked byte source: a read-only, borrowed view over a rope's
//! byte content, answering fixed-width reads at arbitrary offsets,
//! sub-range slicing, and character-boundary queries, so that a scanner
//! written against a contiguous buffer can consume a segmented one.

use vstd::prelude::*;

use crate::chunking::chunk_at;
use crate::chunking::chunk_start;
use crate::chunking::covers;
use crate::chunking::fits_in_chunk;
use crate::chunking::lemma_covers_unique;
use crate::rope::rope_bytes;
use crate::rope::rope_chunks;
use crate::rope::rs_byte_to_char;
use crate::rope::rs_char_to_byte;
use crate::rope::rs_chunk_at_byte;
use crate::rope::rs_get_byte_slice;
use crate::rope::rs_len_bytes;
use crate::text::boundary;
use crate::text::chars_before;
use crate::text::lemma_boundary_unique;
use crate::text::lemma_chars_before_bounds;
use crate::text::lemma_next_boundary_minimal;
use crate::text::next_boundary;

verus! {

/// A read-only view over a rope slice, exposing its content as one
/// logical byte buffer. It owns nothing and never mutates the rope; it
/// is constructed once per scan and dropped when the scan completes.
#[derive(Clone, Copy)]
pub struct RopeSliceSource<'s>(pub ropey::RopeSlice<'s>);

impl<'s> From<ropey::RopeSlice<'s>> for RopeSliceSource<'s> {
    fn from(value: ropey::RopeSlice<'s>) -> (r: Self) {
        RopeSliceSource(value)
    }
}

impl<'s> vstd::std_specs::convert::FromSpecImpl<ropey::RopeSlice<'s>> for RopeSliceSource<'s> {
    open spec fn obeys_from_spec() -> bool {
        true
    }

    open spec fn from_spec(value: ropey::RopeSlice<'s>) -> Self {
        RopeSliceSource(value)
    }
}

impl<'s> View for RopeSliceSource<'s> {
    type V = Seq<u8>;

    open spec fn view(&self) -> Seq<u8> {
        rope_bytes(self.0)
    }
}

impl<'s> RopeSliceSource<'s> {
    /// The internal chunk decomposition of the underlying rope slice.
    pub open spec fn chunks(&self) -> Seq<Seq<u8>> {
        rope_chunks(self.0)
    }

    /// Total number of bytes in the view.
    pub fn len(&self) -> (n: usize)
        ensures
            n == self@.len(),
    {
        rs_len_bytes(&self.0)
    }

    /// Attempts to copy out exactly `size` contiguous bytes starting at
    /// `offset`. The read succeeds exactly when the whole window lies
    /// inside the internal chunk containing `offset`; a window that
    /// straddles two internal chunks, or runs past the end, reports
    /// absence rather than assembling bytes across the boundary.
    pub fn read(&self, offset: usize, size: usize) -> (r: Option<Vec<u8>>)
        requires
            offset <= self@.len(),
            1 <= size,
        ensures
            r is Some <==> (offset + size <= self@.len() && fits_in_chunk(
                self.chunks(),
                offset as int,
                size as int,
            )),
            r matches Some(v) ==> v@ == self@.subrange(offset as int, offset + size),
    {
        let (data, start) = rs_chunk_at_byte(&self.0, offset);
        let in_chunk = offset - start;
        let remaining = data.len() - in_chunk;
        if remaining < size {
            proof {
                if offset + size <= self@.len() && fits_in_chunk(
                    self.chunks(),
                    offset as int,
                    size as int,
                ) {
                    let k = choose|k: int|
                        covers(self.chunks(), k, offset as int) && offset + size <= chunk_start(
                            self.chunks(),
                            k,
                        ) + self.chunks()[k].len();
                    let k0 = choose|k0: int|
                        chunk_at(self.chunks(), k0, data@, start as int, offset as int);
                    lemma_covers_unique(self.chunks(), k, k0, offset as int);
                }
            }
            None
        } else {
            let piece = vstd::slice::slice_subrange(data, in_chunk, in_chunk + size);
            let v = vstd::slice::slice_to_vec(piece);
            proof {
                let k0 = choose|k0: int|
                    chunk_at(self.chunks(), k0, data@, start as int, offset as int);
                assert(fits_in_chunk(self.chunks(), offset as int, size as int)) by {
                    assert(covers(self.chunks(), k0, offset as int) && offset + size
                        <= chunk_start(self.chunks(), k0) + self.chunks()[k0].len());
                }
                assert(v@ =~= self@.subrange(offset as int, offset + size));
            }
            Some(v)
        }
    }

    /// The fast path of `read`, for call sites that have already
    /// established that the read succeeds: identical result, with the
    /// precondition demanded instead of re-checked.
    pub fn read_unchecked(&self, offset: usize, size: usize) -> (v: Vec<u8>)
        requires
            1 <= size,
            offset + size <= self@.len(),
            fits_in_chunk(self.chunks(), offset as int, size as int),
        ensures
            v@ == self@.subrange(offset as int, offset + size),
    {
        self.read(offset, size).unwrap()
    }

    /// The logical sub-view of the bytes in `[start, end)`. The rope
    /// hands out a sub-slice exactly when the range is ordered, ends
    /// within the view, and both ends lie on character boundaries;
    /// anything else reports absence.
    pub fn slice(&self, start: usize, end: usize) -> (r: Option<RopeSliceSource<'s>>)
        ensures
            r matches Some(sub) ==> sub@ == self@.subrange(start as int, end as int),
            r is Some <==> (start <= end <= self@.len() && boundary(self@, start as int)
                && boundary(self@, end as int)),
    {
        match rs_get_byte_slice(&self.0, start, end) {
            Some(sub) => Some(RopeSliceSource(sub)),
            None => None,
        }
    }

    /// The fast path of `slice`, for call sites that have already
    /// established that the range is valid: identical result, with the
    /// precondition demanded instead of re-checked.
    pub fn slice_unchecked(&self, start: usize, end: usize) -> (sub: RopeSliceSource<'s>)
        requires
            start <= end <= self@.len(),
            boundary(self@, start as int),
            boundary(self@, end as int),
        ensures
            sub@ == self@.subrange(start as int, end as int),
    {
        self.slice(start, end).unwrap()
    }

    /// The smallest character boundary at or after `index`: `index`
    /// itself when it already is one, otherwise the start of the next
    /// character.
    pub fn find_boundary(&self, index: usize) -> (r: usize)
        requires
            index <= self@.len(),
        ensures
            r == next_boundary(self@, index as int),
    {
        proof {
            lemma_chars_before_bounds(self@, index as int, self@.len() as int);
        }
        let c = rs_byte_to_char(&self.0, index);
        let b = rs_char_to_byte(&self.0, c);
        if b == index {
            index
        } else {
            proof {
                if boundary(self@, index as int) {
                    lemma_boundary_unique(self@, b as int, index as int);
                }
            }
            let b2 = rs_char_to_byte(&self.0, c + 1);
            proof {
                lemma_next_boundary_minimal(self@, index as int);
                lemma_boundary_unique(self@, b2 as int, next_boundary(self@, index as int));
            }
            b2
        }
    }

    /// Whether `index` is a character boundary of the view: false when
    /// it runs past the end or falls inside a multi-byte character.
    pub fn is_boundary(&self, index: usize) -> (r: bool)
        ensures
            r == boundary(self@, index as int),
    {
        let n = rs_len_bytes(&self.0);
        if index > n {
            false
        } else {
            proof {
                lemma_chars_before_bounds(self@, index as int, self@.len() as int);
            }
            let c = rs_byte_to_char(&self.0, index);
            let b = rs_char_to_byte(&self.0, c);
            proof {
                if boundary(self@, index as int) {
                    lemma_boundary_unique(self@, b as int, index as int);
                } else {
                    if b == index {
                        assert(boundary(self@, index as int));
                    }
                }
            }
            b == index
        }
    }
}

} // verus!
