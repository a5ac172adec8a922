//! The byte-level model of character boundaries.
//!
//! A buffer is modelled as a sequence of bytes holding UTF-8 encoded text.
//! An offset is a character boundary exactly when it is the end of the
//! buffer or the byte at it is not a continuation byte; characters are
//! counted by counting the leading (non-continuation) bytes.

use vstd::prelude::*;

verus! {

/// A UTF-8 continuation byte: the second and later bytes of a multi-byte
/// character have the bit pattern `10xxxxxx`.
pub open spec fn is_continuation(b: u8) -> bool {
    b & 0xC0 == 0x80
}

/// Offset `i` is a character boundary of `s`: the end of the buffer, or
/// the start of an encoded character (a non-continuation byte).
pub open spec fn boundary(s: Seq<u8>, i: int) -> bool {
    &&& 0 <= i <= s.len()
    &&& (i == s.len() || !is_continuation(s[i]))
}

/// The number of characters whose encoding starts in `s[0..i)`: the count
/// of leading bytes among the first `i` bytes.
pub open spec fn chars_before(s: Seq<u8>, i: int) -> int
    decreases i,
{
    if i <= 0 {
        0
    } else {
        chars_before(s, i - 1) + (if is_continuation(s[i - 1]) {
            0int
        } else {
            1int
        })
    }
}

/// The smallest character boundary of `s` at or after `i`.
pub open spec fn next_boundary(s: Seq<u8>, i: int) -> int
    decreases s.len() - i when 0 <= i <= s.len()
{
    if boundary(s, i) {
        i
    } else {
        next_boundary(s, i + 1)
    }
}

/// Counting characters never counts more than one per byte, and never
/// goes backwards: `chars_before` is monotone and bounded by the range
/// it counts over.
pub proof fn lemma_chars_before_bounds(s: Seq<u8>, i: int, j: int)
    requires
        0 <= i <= j,
    ensures
        chars_before(s, i) <= chars_before(s, j),
        chars_before(s, j) - chars_before(s, i) <= j - i,
        0 <= chars_before(s, i) <= i,
    decreases j,
{
    if i < j {
        lemma_chars_before_bounds(s, i, j - 1);
    } else if 0 < i {
        lemma_chars_before_bounds(s, i - 1, i - 1);
    }
}

/// Two boundaries with the same character count are the same offset.
pub proof fn lemma_boundary_unique(s: Seq<u8>, b1: int, b2: int)
    requires
        boundary(s, b1),
        boundary(s, b2),
        chars_before(s, b1) == chars_before(s, b2),
    ensures
        b1 == b2,
{
    if b1 < b2 {
        lemma_boundary_step_strict(s, b1, b2);
    } else if b2 < b1 {
        lemma_boundary_step_strict(s, b2, b1);
    }
}

/// Crossing a boundary strictly increases the character count.
proof fn lemma_boundary_step_strict(s: Seq<u8>, b1: int, b2: int)
    requires
        boundary(s, b1),
        b1 < b2 <= s.len(),
    ensures
        chars_before(s, b1) < chars_before(s, b2),
{
    assert(chars_before(s, b1 + 1) == chars_before(s, b1) + 1);
    lemma_chars_before_bounds(s, b1 + 1, b2);
}

/// Law: an offset is a boundary exactly when the next boundary at or
/// after it is the offset itself.
pub proof fn lemma_boundary_fixed_point(s: Seq<u8>, i: int)
    requires
        0 <= i <= s.len(),
    ensures
        boundary(s, i) <==> next_boundary(s, i) == i,
{
    lemma_next_boundary_minimal(s, i);
}

/// Law: the next boundary at or after `i` never lies before `i`, is
/// itself a boundary, and skips no boundary: every offset strictly
/// between `i` and it is not a boundary.
pub proof fn lemma_next_boundary_minimal(s: Seq<u8>, i: int)
    requires
        0 <= i <= s.len(),
    ensures
        i <= next_boundary(s, i) <= s.len(),
        boundary(s, next_boundary(s, i)),
        forall|j: int| i <= j < next_boundary(s, i) ==> !boundary(s, j),
        chars_before(s, next_boundary(s, i)) == chars_before(s, i),
    decreases s.len() - i,
{
    if !boundary(s, i) {
        lemma_next_boundary_minimal(s, i + 1);
    }
}

/// Law: the total length is always a boundary, so the next boundary at
/// or after the end is the end itself.
pub proof fn lemma_next_boundary_at_end(s: Seq<u8>)
    ensures
        next_boundary(s, s.len() as int) == s.len(),
{
}

} // verus!
