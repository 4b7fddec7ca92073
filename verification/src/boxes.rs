//! The data model of the box tree and the container/leaf classifier.

use vstd::prelude::*;

verus! {

/// A 4-byte box type tag.
///
/// Tags are opaque bytes: they are not guaranteed to be valid text and
/// are compared by exact byte equality.  Rendering a tag as text is a
/// display concern and belongs to the caller.
#[derive(Clone, Copy, Debug, PartialEq, Eq, Structural)]
pub struct BoxType {
    pub b0: u8,
    pub b1: u8,
    pub b2: u8,
    pub b3: u8,
}

/// One parsed box record.
///
/// `size` is the resolved total length in bytes, including the box's own
/// header (after applying the extended-size and zero-size rules).
/// `offset` is the absolute byte position of the box's first header byte.
#[derive(Clone, Copy, Debug, PartialEq, Eq, Structural)]
pub struct Mp4Box {
    pub box_type: BoxType,
    pub size: u64,
    pub offset: u64,
}

/// One traversal event: a discovered box together with its nesting depth.
///
/// The walker reports events in strict pre-order: a box before its
/// children, and each child before the next sibling.
#[derive(Clone, Copy, Debug, PartialEq, Eq, Structural)]
pub struct BoxEvent {
    pub item: Mp4Box,
    pub depth: usize,
}

/// Why a walk over a byte range was aborted.
///
/// Reaching the end of the range (or fewer than 8 trailing bytes, too few
/// for another header) is the normal termination of a walk, not an error.
/// A read fault of the underlying byte source is the byte supplier's
/// error, raised before the walker ever sees the bytes.
#[derive(Clone, Copy, Debug, PartialEq, Eq, Structural)]
pub enum ParseError {
    /// A box's resolved size is smaller than its own header, or the box
    /// would extend past the end of the enclosing range.
    MalformedBox,
    /// The nesting depth surpassed the configured cap: probable malicious
    /// or corrupt input.
    DepthExceeded,
}

/// Does `t` spell the four given bytes?
pub open spec fn tag_is(t: BoxType, c0: u8, c1: u8, c2: u8, c3: u8) -> bool {
    t.b0 == c0 && t.b1 == c1 && t.b2 == c2 && t.b3 == c3
}

/// The closed registry of known container tags: `moov`, `trak`, `mdia`,
/// `minf`, `stbl`.  Every other tag is a leaf.
pub open spec fn spec_is_container(t: BoxType) -> bool {
    ||| tag_is(t, 0x6d, 0x6f, 0x6f, 0x76)  // moov
    ||| tag_is(t, 0x74, 0x72, 0x61, 0x6b)  // trak
    ||| tag_is(t, 0x6d, 0x64, 0x69, 0x61)  // mdia
    ||| tag_is(t, 0x6d, 0x69, 0x6e, 0x66)  // minf
    ||| tag_is(t, 0x73, 0x74, 0x62, 0x6c)  // stbl
}

/// Classifies a tag: `true` for the known container tags, `false` for
/// every other (leaf) tag.
pub fn is_container(t: BoxType) -> (r: bool)
    ensures
        r == spec_is_container(t),
{
    (t.b0 == 0x6d && t.b1 == 0x6f && t.b2 == 0x6f && t.b3 == 0x76)
        || (t.b0 == 0x74 && t.b1 == 0x72 && t.b2 == 0x61 && t.b3 == 0x6b)
        || (t.b0 == 0x6d && t.b1 == 0x64 && t.b2 == 0x69 && t.b3 == 0x61)
        || (t.b0 == 0x6d && t.b1 == 0x69 && t.b2 == 0x6e && t.b3 == 0x66)
        || (t.b0 == 0x73 && t.b1 == 0x74 && t.b2 == 0x62 && t.b3 == 0x6c)
}

} // verus!
