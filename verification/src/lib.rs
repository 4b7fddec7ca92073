//! A hardened walker for the box-tree structure of ISOBMFF/MP4 data.
//!
//! An ISOBMFF file is a sequence of typed, length-prefixed, arbitrarily
//! nested binary records ("boxes").  Given a byte buffer and a declared
//! byte range, the walker discovers every box in that range, classifies
//! container vs. leaf boxes, and recurses into containers while
//! respecting declared boundaries — all without trusting the input.
//!
//! Reading the bytes from a file or a network stream is the caller's
//! business; the walker works on a buffer of plain bytes.

pub mod boxes;
pub mod header;
pub mod walker;
pub mod laws;

pub use boxes::{BoxType, Mp4Box, BoxEvent, ParseError, is_container, spec_is_container};
pub use header::{BoxHeader, read_u32, read_box, be32_at, be64_at, spec_read_box, tag_at};
pub use walker::{parse_mp4_boxes, spec_walk};
