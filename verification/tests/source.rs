//! Tests driving the chunked byte source over real, fragmented ropes.

use logos_ropey::RopeSliceSource;

/// Builds a rope fragmented into many internal chunks by repeated appends.
fn fragmented_rope(unit: &str, count: usize) -> ropey::Rope {
    let mut rope = ropey::Rope::new();
    for _ in 0..count {
        rope.append(unit.into());
    }
    rope
}

/// Reads the byte at `pos` through the fixed-width read interface,
/// retrying at progressively smaller widths as a scanning engine would.
fn read_first_byte(src: &RopeSliceSource<'_>, pos: usize) -> u8 {
    let widths: [usize; 5] = [16, 8, 4, 2, 1];
    for w in widths {
        if pos + w <= src.len() {
            if let Some(v) = src.read(pos, w) {
                return v[0];
            }
        }
    }
    src.read(pos, 1).expect("a one-byte read at a valid offset never straddles a chunk")[0]
}

#[test]
fn test_source() {
    let mut rope = ropey::Rope::new();

    // Build a sufficiently large string that we exercise chunking.
    for len in 1..=1_000 {
        let mut token = str::repeat("x", len);
        token.push_str(",");
        rope.append(token.into());
    }

    // Make sure we have chunks.
    assert!(rope.chunks().count() > 10);

    let source = RopeSliceSource(rope.slice(..));

    // Scan for runs of non-delimiter bytes each followed by one
    // delimiter, as the pattern `[^,]*,` would match.
    let n = source.len();
    let mut pos = 0usize;
    let mut matches = 0usize;
    while pos < n {
        let mut ended_at_delimiter = false;
        while pos < n {
            let b = read_first_byte(&source, pos);
            pos += 1;
            if b == b',' {
                ended_at_delimiter = true;
                break;
            }
        }
        assert!(ended_at_delimiter);
        matches += 1;
    }
    assert_eq!(matches, 1_000);
}

#[test]
fn test_len() {
    let rope = fragmented_rope("ab\u{20AC}", 1_000);
    let source = RopeSliceSource(rope.slice(..));
    assert_eq!(source.len(), rope.len_bytes());
    assert_eq!(source.len(), 5_000);
}

#[test]
fn test_from() {
    let rope = fragmented_rope("xy,", 10);
    let source = RopeSliceSource::from(rope.slice(..));
    assert_eq!(source.len(), 30);
}

#[test]
fn test_boundary_multibyte() {
    // Each unit is "ab€": five bytes, the three-byte character starting
    // two bytes into the unit.
    let rope = fragmented_rope("ab\u{20AC}", 1_000);
    assert!(rope.chunks().count() > 1);
    let source = RopeSliceSource(rope.slice(..));
    let n = source.len();

    for unit in 0..1_000usize {
        let base = unit * 5;
        assert!(source.is_boundary(base));
        assert!(source.is_boundary(base + 1));
        assert!(source.is_boundary(base + 2));
        assert!(!source.is_boundary(base + 3));
        assert!(!source.is_boundary(base + 4));
        assert!(source.is_boundary(base + 5));
        assert_eq!(source.find_boundary(base + 2), base + 2);
        assert_eq!(source.find_boundary(base + 3), base + 5);
        assert_eq!(source.find_boundary(base + 4), base + 5);
    }

    // An offset is a boundary exactly when finding the next boundary
    // leaves it unchanged, and the found boundary never lies before the
    // offset.
    for i in 0..=n {
        let f = source.find_boundary(i);
        assert_eq!(source.is_boundary(i), f == i);
        assert!(f >= i);
        assert!(f <= n);
        // It is the nearest boundary: nothing between is one.
        for j in i..f {
            assert!(!source.is_boundary(j));
        }
    }

    // The end of the buffer is always a boundary.
    assert_eq!(source.find_boundary(n), n);
    assert!(!source.is_boundary(n + 1));
}

#[test]
fn test_read_within_chunk() {
    let rope = fragmented_rope("abcdefgh", 500);
    let source = RopeSliceSource(rope.slice(..));
    let all: String = str::repeat("abcdefgh", 500);

    // Walk the rope's own chunk layout: a window that stays inside one
    // chunk reads back exactly the corresponding bytes.
    let mut chunk_start = 0usize;
    for chunk in rope.chunks() {
        if chunk.len() >= 4 {
            let offset = chunk_start + 1;
            let got = source.read(offset, 2).expect("window lies inside one chunk");
            assert_eq!(&got[..], &all.as_bytes()[offset..offset + 2]);

            let unchecked = source.read_unchecked(offset, 2);
            assert_eq!(unchecked, got);
        }
        chunk_start += chunk.len();
    }
}

#[test]
fn test_read_chunk_crossing() {
    let rope = fragmented_rope("abcdefgh", 500);
    let source = RopeSliceSource(rope.slice(..));
    let n = source.len();

    // Request eight bytes exactly three bytes before the end of a
    // containing chunk: absent, even though eight valid bytes exist in
    // the logical buffer — they just cross a chunk boundary.
    let mut chunk_start = 0usize;
    let mut exercised = 0usize;
    for chunk in rope.chunks() {
        let chunk_end = chunk_start + chunk.len();
        if chunk.len() >= 3 && chunk_end + 5 <= n {
            let offset = chunk_end - 3;
            assert_eq!(source.read(offset, 8), None);
            exercised += 1;
        }
        chunk_start = chunk_end;
    }
    assert!(exercised > 0);

    // Reads that would run past the end of the buffer are absent too.
    assert_eq!(source.read(n, 1), None);
    assert_eq!(source.read(n - 1, 2), None);
}

#[test]
fn test_slice() {
    let rope = fragmented_rope("abcdefgh", 500);
    let source = RopeSliceSource(rope.slice(..));
    let all: String = str::repeat("abcdefgh", 500);
    let n = source.len();
    assert!(rope.chunks().count() > 2);

    // A range spanning many internal chunks reads back exactly the
    // logical content of that range.
    let (a, b) = (3usize, n - 5);
    let sub = source.slice(a, b).expect("a valid range yields a sub-view");
    assert_eq!(sub.len(), b - a);
    for i in 0..sub.len() {
        assert_eq!(read_first_byte(&sub, i), all.as_bytes()[a + i]);
    }

    let sub2 = source.slice_unchecked(a, b);
    assert_eq!(sub2.len(), b - a);

    // Invalid ranges are reported, never panicked on.
    assert!(source.slice(5, 2).is_none());
    assert!(source.slice(0, n + 1).is_none());
    assert!(source.slice(n, n).is_some());
}

#[test]
fn test_slice_mid_character() {
    // "ab€" repeated: offsets 3 and 4 of each unit fall inside the
    // three-byte character, and the rope refuses to slice there.
    let rope = fragmented_rope("ab\u{20AC}", 100);
    let source = RopeSliceSource(rope.slice(..));

    assert!(source.slice(0, 3).is_none());
    assert!(source.slice(3, 5).is_none());
    let sub = source.slice(0, 2).expect("boundary-aligned range");
    assert_eq!(read_first_byte(&sub, 0), b'a');
    assert_eq!(read_first_byte(&sub, 1), b'b');
    let whole_char = source.slice(2, 5).expect("boundary-aligned range");
    assert_eq!(whole_char.len(), 3);
}
