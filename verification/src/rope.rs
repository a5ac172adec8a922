//! The trusted surface over the rope buffer.
//!
//! The rope is an outside collection: a tree of disjoint byte chunks that
//! together hold one logical UTF-8 string. Its content and its chunk
//! decomposition are given names here, and each method the adapter calls
//! is wrapped in a function whose contract states, over those names, what
//! the rope's own source shows.

use vstd::prelude::*;

use crate::chunking::chunk_at;
use crate::text::boundary;
use crate::text::chars_before;

verus! {

/// Declares ropey::RopeSlice to the verifier as an opaque type.
#[verifier::external_type_specification]
#[verifier::external_body]
pub struct ExRopeSlice<'a>(ropey::RopeSlice<'a>);

/// The bytes a rope slice holds, in logical order.
pub uninterp spec fn rope_bytes(r: ropey::RopeSlice) -> Seq<u8>;

/// The internal chunk decomposition of a rope slice: the chunks in
/// logical order, as the rope itself segments its content. Laid end to
/// end they are exactly `rope_bytes`.
pub uninterp spec fn rope_chunks(r: ropey::RopeSlice) -> Seq<Seq<u8>>;

/// Relies on ropey::RopeSlice::len_bytes: the total number of bytes in
/// the slice.
#[verifier::external_body]
pub(crate) fn rs_len_bytes(r: &ropey::RopeSlice) -> (n: usize)
    ensures
        n == rope_bytes(*r).len(),
{
    r.len_bytes()
}

/// Relies on ropey::RopeSlice::chunk_at_byte: returns the internal chunk
/// containing the given byte offset together with the byte offset at
/// which that chunk starts; a one-past-the-end offset returns a chunk
/// ending at the end of the slice. The chunks partition the content, so
/// the returned chunk reads back the corresponding bytes.
#[verifier::external_body]
pub(crate) fn rs_chunk_at_byte<'a>(r: &ropey::RopeSlice<'a>, offset: usize) -> (out: (
    &'a [u8],
    usize,
))
    requires
        offset <= rope_bytes(*r).len(),
    ensures
        out.1 + out.0@.len() <= rope_bytes(*r).len(),
        out.1 <= offset <= out.1 + out.0@.len(),
        out.0@ == rope_bytes(*r).subrange(out.1 as int, out.1 + out.0@.len()),
        offset < rope_bytes(*r).len() ==> (exists|k: int|
            chunk_at(rope_chunks(*r), k, out.0@, out.1 as int, offset as int)),
{
    let (chunk, start, _, _) = r.chunk_at_byte(offset);
    (chunk.as_bytes(), start)
}

/// Relies on ropey::RopeSlice::byte_to_char: the index of the character
/// containing the given byte offset. At a boundary that is the count of
/// characters starting before the offset; inside a character it is one
/// less, the index of the character the byte belongs to.
#[verifier::external_body]
pub(crate) fn rs_byte_to_char(r: &ropey::RopeSlice, index: usize) -> (c: usize)
    requires
        index <= rope_bytes(*r).len(),
    ensures
        c == if boundary(rope_bytes(*r), index as int) {
            chars_before(rope_bytes(*r), index as int)
        } else {
            chars_before(rope_bytes(*r), index as int) - 1
        },
{
    r.byte_to_char(index)
}

/// Relies on ropey::RopeSlice::char_to_byte: the byte offset at which the
/// given character starts — the unique boundary with that many characters
/// before it; the one-past-the-end character index gives the total byte
/// length.
#[verifier::external_body]
pub(crate) fn rs_char_to_byte(r: &ropey::RopeSlice, c: usize) -> (b: usize)
    requires
        c <= chars_before(rope_bytes(*r), rope_bytes(*r).len() as int),
    ensures
        boundary(rope_bytes(*r), b as int),
        chars_before(rope_bytes(*r), b as int) == c,
{
    r.char_to_byte(c)
}

/// Relies on ropey::RopeSlice::get_byte_slice: the sub-slice over a byte
/// range, holding exactly the bytes of that range; it exists exactly when
/// the range is ordered, ends within the slice, and both ends lie on
/// character boundaries.
#[verifier::external_body]
pub(crate) fn rs_get_byte_slice<'a>(
    r: &ropey::RopeSlice<'a>,
    start: usize,
    end: usize,
) -> (out: Option<ropey::RopeSlice<'a>>)
    ensures
        out matches Some(sub) ==> rope_bytes(sub) == rope_bytes(*r).subrange(
            start as int,
            end as int,
        ),
        out is Some <==> (start <= end <= rope_bytes(*r).len() && boundary(
            rope_bytes(*r),
            start as int,
        ) && boundary(rope_bytes(*r), end as int)),
{
    r.get_byte_slice(start..end)
}

} // verus!
