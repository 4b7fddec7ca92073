//! The header decoder: one fixed-layout box header read from a byte
//! range, with the extended-size and zero-size rules resolved.

use vstd::prelude::*;
use crate::boxes::{BoxType, Mp4Box, ParseError};

verus! {

/// The 4 bytes of `b` starting at `p`, read as a big-endian unsigned
/// 32-bit value.
pub open spec fn be32_at(b: Seq<u8>, p: int) -> int
    recommends
        0 <= p,
        p + 4 <= b.len(),
{
    b[p] * 0x100_0000 + b[p + 1] * 0x1_0000 + b[p + 2] * 0x100 + b[p + 3]
}

/// The 8 bytes of `b` starting at `p`, read as a big-endian unsigned
/// 64-bit value.
pub open spec fn be64_at(b: Seq<u8>, p: int) -> int
    recommends
        0 <= p,
        p + 8 <= b.len(),
{
    b[p] * 0x100_0000_0000_0000 + b[p + 1] * 0x1_0000_0000_0000 + b[p + 2] * 0x100_0000_0000
        + b[p + 3] * 0x1_0000_0000 + b[p + 4] * 0x100_0000 + b[p + 5] * 0x1_0000 + b[p + 6] * 0x100
        + b[p + 7]
}

/// The 4-byte type tag of `b` starting at `p`.
pub open spec fn tag_at(b: Seq<u8>, p: int) -> BoxType
    recommends
        0 <= p,
        p + 4 <= b.len(),
{
    BoxType { b0: b[p], b1: b[p + 1], b2: b[p + 2], b3: b[p + 3] }
}

/// One decoded box header: the declared 32-bit size field as it stood in
/// the bytes, the box itself (tag, resolved size, offset), and the header
/// length that was consumed (8, or 16 when the extended size is present).
#[derive(Clone, Copy, Debug, PartialEq, Eq, Structural)]
pub struct BoxHeader {
    pub declared_size: u32,
    pub header_len: usize,
    pub item: Mp4Box,
}

/// What decoding a header at `cursor` in the range `[cursor, end)` of `b`
/// yields.
///
/// - `Ok(None)`: fewer than 8 bytes remain — no box here; the range ends
///   cleanly.
/// - `Ok(Some(h))`: a well-formed header.  A declared size of `1` is the
///   extended-size sentinel: the real size follows as an 8-byte
///   big-endian value and the header is 16 bytes long.  A declared size
///   of `0` means the box extends to the end of the range.
/// - `Err(MalformedBox)`: the resolved size is smaller than the header
///   itself, or the extended-size field is declared but truncated.
pub open spec fn spec_read_box(b: Seq<u8>, cursor: int, end: int) -> Result<
    Option<BoxHeader>,
    ParseError,
>
    recommends
        0 <= cursor <= end <= b.len(),
{
    if end - cursor < 8 {
        Ok(None)
    } else {
        let declared = be32_at(b, cursor);
        let tag = tag_at(b, cursor + 4);
        if declared == 1 {
            if end - cursor < 16 {
                Err(ParseError::MalformedBox)
            } else {
                let size = be64_at(b, cursor + 8);
                if size < 16 {
                    Err(ParseError::MalformedBox)
                } else {
                    Ok(
                        Some(
                            BoxHeader {
                                declared_size: 1,
                                header_len: 16,
                                item: Mp4Box {
                                    box_type: tag,
                                    size: size as u64,
                                    offset: cursor as u64,
                                },
                            },
                        ),
                    )
                }
            }
        } else if declared == 0 {
            Ok(
                Some(
                    BoxHeader {
                        declared_size: 0,
                        header_len: 8,
                        item: Mp4Box {
                            box_type: tag,
                            size: (end - cursor) as u64,
                            offset: cursor as u64,
                        },
                    },
                ),
            )
        } else if declared < 8 {
            Err(ParseError::MalformedBox)
        } else {
            Ok(
                Some(
                    BoxHeader {
                        declared_size: declared as u32,
                        header_len: 8,
                        item: Mp4Box {
                            box_type: tag,
                            size: declared as u64,
                            offset: cursor as u64,
                        },
                    },
                ),
            )
        }
    }
}

/// Reads 4 bytes at `pos` and interprets them as a big-endian u32.
pub fn read_u32(buf: &Vec<u8>, pos: usize) -> (r: u32)
    requires
        pos + 4 <= buf.len(),
    ensures
        r == be32_at(buf@, pos as int),
{
    let v0 = buf[pos] as u32;
    let v1 = buf[pos + 1] as u32;
    let v2 = buf[pos + 2] as u32;
    let v3 = buf[pos + 3] as u32;
    v0 * 0x100_0000 + v1 * 0x1_0000 + v2 * 0x100 + v3
}

/// Reads 8 bytes at `pos` and interprets them as a big-endian u64.
pub fn read_u64(buf: &Vec<u8>, pos: usize) -> (r: u64)
    requires
        pos + 8 <= buf.len(),
    ensures
        r == be64_at(buf@, pos as int),
{
    let v0 = buf[pos] as u64;
    let v1 = buf[pos + 1] as u64;
    let v2 = buf[pos + 2] as u64;
    let v3 = buf[pos + 3] as u64;
    let v4 = buf[pos + 4] as u64;
    let v5 = buf[pos + 5] as u64;
    let v6 = buf[pos + 6] as u64;
    let v7 = buf[pos + 7] as u64;
    v0 * 0x100_0000_0000_0000 + v1 * 0x1_0000_0000_0000 + v2 * 0x100_0000_0000 + v3 * 0x1_0000_0000
        + v4 * 0x100_0000 + v5 * 0x1_0000 + v6 * 0x100 + v7
}

/// Reads a single box header (not recursively) from `[cursor, end)`.
///
/// Returns exactly what `spec_read_box` says: `Ok(None)` when fewer than
/// 8 bytes remain (the clean end of an iteration), a decoded header with
/// the extended-size and zero-size rules applied, or `MalformedBox`.
pub fn read_box(buf: &Vec<u8>, cursor: usize, end: usize) -> (r: Result<
    Option<BoxHeader>,
    ParseError,
>)
    requires
        cursor <= end,
        end <= buf.len(),
    ensures
        r == spec_read_box(buf@, cursor as int, end as int),
{
    if end - cursor < 8 {
        return Ok(None);
    }
    let declared = read_u32(buf, cursor);
    let tag = BoxType {
        b0: buf[cursor + 4],
        b1: buf[cursor + 5],
        b2: buf[cursor + 6],
        b3: buf[cursor + 7],
    };
    if declared == 1 {
        if end - cursor < 16 {
            return Err(ParseError::MalformedBox);
        }
        let size = read_u64(buf, cursor + 8);
        if size < 16 {
            return Err(ParseError::MalformedBox);
        }
        Ok(
            Some(
                BoxHeader {
                    declared_size: 1,
                    header_len: 16,
                    item: Mp4Box { box_type: tag, size, offset: cursor as u64 },
                },
            ),
        )
    } else if declared == 0 {
        Ok(
            Some(
                BoxHeader {
                    declared_size: 0,
                    header_len: 8,
                    item: Mp4Box {
                        box_type: tag,
                        size: (end - cursor) as u64,
                        offset: cursor as u64,
                    },
                },
            ),
        )
    } else if declared < 8 {
        Err(ParseError::MalformedBox)
    } else {
        Ok(
            Some(
                BoxHeader {
                    declared_size: declared,
                    header_len: 8,
                    item: Mp4Box { box_type: tag, size: declared as u64, offset: cursor as u64 },
                },
            ),
        )
    }
}

} // verus!
