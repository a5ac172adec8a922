//! A chunked byte-source adapter: read, slice and character-boundary
//! operations over a rope-backed text buffer, so that a streaming scanner
//! written against a contiguous-buffer contract can consume a segmented
//! buffer without materializing it.

mod chunking;
mod rope;
mod source;
mod text;

pub use source::RopeSliceSource;

pub use rope::rope_bytes;
pub use rope::rope_chunks;

pub use chunking::chunk_start;
pub use chunking::covers;
pub use chunking::fits_in_chunk;

pub use text::is_continuation;
pub use text::boundary;
pub use text::chars_before;
pub use text::next_boundary;
pub use text::lemma_boundary_fixed_point;
pub use text::lemma_next_boundary_minimal;
pub use text::lemma_next_boundary_at_end;
