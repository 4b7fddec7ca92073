//! End-to-end tests of the box-tree walker on hand-built buffers.

use mp4walk::{read_u32, read_box, parse_mp4_boxes, is_container};
use mp4walk::{BoxType, BoxEvent, ParseError};

fn bt(bytes: &[u8; 4]) -> BoxType {
    BoxType { b0: bytes[0], b1: bytes[1], b2: bytes[2], b3: bytes[3] }
}

/// Appends one box with a plain 8-byte header and a zero-filled payload.
fn push_box(buf: &mut Vec<u8>, tag: &[u8; 4], size: u32) {
    buf.extend_from_slice(&size.to_be_bytes());
    buf.extend_from_slice(tag);
    for _ in 8..size {
        buf.push(0);
    }
}

/// Appends an 8-byte header whose payload is the given bytes.
fn push_box_with_payload(buf: &mut Vec<u8>, tag: &[u8; 4], payload: &[u8]) {
    let size = 8 + payload.len() as u32;
    buf.extend_from_slice(&size.to_be_bytes());
    buf.extend_from_slice(tag);
    buf.extend_from_slice(payload);
}

fn walk(buf: &Vec<u8>, max_depth: usize) -> (Vec<BoxEvent>, Result<(), ParseError>) {
    let mut out = Vec::new();
    let r = parse_mp4_boxes(buf, 0, buf.len(), 0, max_depth, &mut out);
    (out, r)
}

fn event(ev: &BoxEvent) -> (BoxType, u64, u64, usize) {
    (ev.item.box_type, ev.item.size, ev.item.offset, ev.depth)
}

#[test]
fn read_u32_big_endian() {
    let buf = vec![0x12, 0x34, 0x56, 0x78, 0xff];
    assert_eq!(read_u32(&buf, 0), 0x12345678);
    assert_eq!(read_u32(&buf, 1), 0x345678ff);
}

#[test]
fn classifier_knows_the_registry() {
    for tag in [b"moov", b"trak", b"mdia", b"minf", b"stbl"] {
        assert!(is_container(bt(tag)));
    }
    assert!(!is_container(bt(b"free")));
    assert!(!is_container(bt(b"mdat")));
    assert!(!is_container(bt(b"MOOV"))); // tags are case-sensitive
    assert!(!is_container(bt(b"moo\x00")));
}

#[test]
fn single_leaf_box() {
    let mut buf = Vec::new();
    push_box(&mut buf, b"free", 16);
    let (events, r) = walk(&buf, 10);
    assert_eq!(r, Ok(()));
    assert_eq!(events.len(), 1);
    assert_eq!(event(&events[0]), (bt(b"free"), 16, 0, 0));
}

#[test]
fn sibling_leaves_round_trip() {
    // Three sibling leaf boxes with known sizes: the walk emits exactly
    // three events in order, offsets partitioning the range contiguously.
    let mut buf = Vec::new();
    push_box(&mut buf, b"free", 8);
    push_box(&mut buf, b"mdat", 12);
    push_box(&mut buf, b"skip", 16);
    assert_eq!(buf.len(), 36);
    let (events, r) = walk(&buf, 10);
    assert_eq!(r, Ok(()));
    assert_eq!(events.len(), 3);
    assert_eq!(event(&events[0]), (bt(b"free"), 8, 0, 0));
    assert_eq!(event(&events[1]), (bt(b"mdat"), 12, 8, 0));
    assert_eq!(event(&events[2]), (bt(b"skip"), 16, 20, 0));
    // Contiguous, non-overlapping partition of [0, 36).
    for w in events.windows(2) {
        assert_eq!(w[1].item.offset, w[0].item.offset + w[0].item.size);
    }
    let last = events.last().unwrap();
    assert_eq!(last.item.offset + last.item.size, buf.len() as u64);
}

#[test]
fn container_recursion_pre_order() {
    // One container wrapping two leaves, then a sibling leaf: the
    // container comes at depth 0, its children at depth 1 follow it
    // before the depth-0 sibling.
    let mut inner = Vec::new();
    push_box(&mut inner, b"free", 12);
    push_box(&mut inner, b"mdat", 8);
    let mut buf = Vec::new();
    push_box_with_payload(&mut buf, b"moov", &inner);
    push_box(&mut buf, b"skip", 8);
    let (events, r) = walk(&buf, 10);
    assert_eq!(r, Ok(()));
    assert_eq!(events.len(), 4);
    assert_eq!(event(&events[0]), (bt(b"moov"), 28, 0, 0));
    assert_eq!(event(&events[1]), (bt(b"free"), 12, 8, 1));
    assert_eq!(event(&events[2]), (bt(b"mdat"), 8, 20, 1));
    assert_eq!(event(&events[3]), (bt(b"skip"), 8, 28, 0));
}

#[test]
fn nested_containers_increase_depth() {
    // moov > trak > mdia > leaf
    let mut mdia = Vec::new();
    push_box(&mut mdia, b"free", 8);
    let mut trak = Vec::new();
    push_box_with_payload(&mut trak, b"mdia", &mdia);
    let mut buf = Vec::new();
    let mut moov_payload = Vec::new();
    push_box_with_payload(&mut moov_payload, b"trak", &trak);
    push_box_with_payload(&mut buf, b"moov", &moov_payload);
    let (events, r) = walk(&buf, 10);
    assert_eq!(r, Ok(()));
    let depths: Vec<usize> = events.iter().map(|e| e.depth).collect();
    assert_eq!(depths, vec![0, 1, 2, 3]);
}

#[test]
fn extended_size_resolves_to_64_bit_value() {
    // Declared size field 1: the real size follows as an 8-byte
    // big-endian value, and the header is 16 bytes, not 8.
    let mut buf = Vec::new();
    buf.extend_from_slice(&1u32.to_be_bytes());
    buf.extend_from_slice(b"mdat");
    buf.extend_from_slice(&24u64.to_be_bytes());
    buf.resize(24, 0);
    let h = read_box(&buf, 0, buf.len()).unwrap().unwrap();
    assert_eq!(h.declared_size, 1);
    assert_eq!(h.header_len, 16);
    assert_eq!(h.item.size, 24);
    let (events, r) = walk(&buf, 10);
    assert_eq!(r, Ok(()));
    assert_eq!(events.len(), 1);
    assert_eq!(event(&events[0]), (bt(b"mdat"), 24, 0, 0));
}

#[test]
fn extended_size_container_consumes_16_byte_header() {
    // A container with an extended size: its child must be found at
    // offset 16, proving the 16-byte header was consumed.
    let mut buf = Vec::new();
    buf.extend_from_slice(&1u32.to_be_bytes());
    buf.extend_from_slice(b"moov");
    buf.extend_from_slice(&28u64.to_be_bytes());
    push_box(&mut buf, b"free", 12);
    let (events, r) = walk(&buf, 10);
    assert_eq!(r, Ok(()));
    assert_eq!(events.len(), 2);
    assert_eq!(event(&events[0]), (bt(b"moov"), 28, 0, 0));
    assert_eq!(event(&events[1]), (bt(b"free"), 12, 16, 1));
}

#[test]
fn zero_size_extends_to_end_of_range() {
    // A declared size of 0 on the last box means "extends to the end of
    // the enclosing range": effective size == end - offset.
    let mut buf = Vec::new();
    push_box(&mut buf, b"free", 8);
    buf.extend_from_slice(&0u32.to_be_bytes());
    buf.extend_from_slice(b"mdat");
    buf.resize(32, 0xab);
    let (events, r) = walk(&buf, 10);
    assert_eq!(r, Ok(()));
    assert_eq!(events.len(), 2);
    assert_eq!(event(&events[1]), (bt(b"mdat"), 24, 8, 0));
}

#[test]
fn boundary_exactness_terminates_cleanly() {
    // The range length exactly equals the sum of the box sizes: the walk
    // ends with no error after the last box.
    let mut buf = Vec::new();
    push_box(&mut buf, b"free", 24);
    push_box(&mut buf, b"mdat", 40);
    let (events, r) = walk(&buf, 10);
    assert_eq!(r, Ok(()));
    assert_eq!(events.len(), 2);
}

#[test]
fn empty_range_is_clean() {
    let buf = Vec::new();
    let (events, r) = walk(&buf, 10);
    assert_eq!(r, Ok(()));
    assert!(events.is_empty());
}

#[test]
fn short_tail_is_clean_end() {
    // Fewer than 8 bytes remain after the last box: iteration is
    // complete, not an error.
    let mut buf = Vec::new();
    push_box(&mut buf, b"free", 8);
    buf.extend_from_slice(&[0, 0, 0]);
    assert_eq!(read_box(&buf, 8, buf.len()), Ok(None));
    let (events, r) = walk(&buf, 10);
    assert_eq!(r, Ok(()));
    assert_eq!(events.len(), 1);
}

#[test]
fn undersized_declared_size_is_malformed() {
    // A declared size of 4 is smaller than the 8-byte minimum header.
    let mut buf = Vec::new();
    buf.extend_from_slice(&4u32.to_be_bytes());
    buf.extend_from_slice(b"free");
    buf.resize(16, 0);
    assert_eq!(read_box(&buf, 0, buf.len()), Err(ParseError::MalformedBox));
    let (events, r) = walk(&buf, 10);
    assert_eq!(r, Err(ParseError::MalformedBox));
    assert!(events.is_empty());
}

#[test]
fn undersized_extended_size_is_malformed() {
    // An extended size below the 16-byte extended header is malformed.
    let mut buf = Vec::new();
    buf.extend_from_slice(&1u32.to_be_bytes());
    buf.extend_from_slice(b"free");
    buf.extend_from_slice(&12u64.to_be_bytes());
    buf.resize(24, 0);
    assert_eq!(read_box(&buf, 0, buf.len()), Err(ParseError::MalformedBox));
}

#[test]
fn truncated_extended_header_is_malformed() {
    // Declared size 1 but fewer than 16 bytes remain for the extended
    // header.
    let mut buf = Vec::new();
    buf.extend_from_slice(&1u32.to_be_bytes());
    buf.extend_from_slice(b"free");
    buf.extend_from_slice(&[0, 0, 0, 0]);
    assert_eq!(read_box(&buf, 0, buf.len()), Err(ParseError::MalformedBox));
}

#[test]
fn overrunning_box_is_rejected() {
    // The header decodes fine, but the declared 1000 bytes overrun the
    // 10 bytes that remain in the range: the bounds check rejects it.
    let mut buf = Vec::new();
    buf.extend_from_slice(&1000u32.to_be_bytes());
    buf.extend_from_slice(b"mdat");
    buf.extend_from_slice(&[0, 0]);
    assert_eq!(buf.len(), 10);
    let h = read_box(&buf, 0, buf.len()).unwrap().unwrap();
    assert_eq!(h.item.size, 1000);
    let (events, r) = walk(&buf, 10);
    assert_eq!(r, Err(ParseError::MalformedBox));
    assert!(events.is_empty());
}

#[test]
fn malformed_child_keeps_earlier_output() {
    // A container whose child is malformed: the container itself was
    // valid and stays reported; the error follows it.
    let mut inner = Vec::new();
    inner.extend_from_slice(&4u32.to_be_bytes());
    inner.extend_from_slice(b"free");
    let mut buf = Vec::new();
    push_box_with_payload(&mut buf, b"moov", &inner);
    let (events, r) = walk(&buf, 10);
    assert_eq!(r, Err(ParseError::MalformedBox));
    assert_eq!(events.len(), 1);
    assert_eq!(event(&events[0]), (bt(b"moov"), 16, 0, 0));
}

#[test]
fn depth_cap_rejects_deep_nesting() {
    // Four levels of nested containers against a cap of 2: the walk
    // aborts with DepthExceeded instead of recursing without bound,
    // after reporting the boxes at depths 0, 1 and 2.
    let mut buf = Vec::new();
    for size in [32u32, 24, 16, 8] {
        buf.extend_from_slice(&size.to_be_bytes());
        buf.extend_from_slice(b"moov");
    }
    let (events, r) = walk(&buf, 2);
    assert_eq!(r, Err(ParseError::DepthExceeded));
    assert_eq!(events.len(), 3);
    assert_eq!(events[2].depth, 2);
    // A cap of 4 admits the same input: the innermost container's empty
    // payload is still descended into, at depth 4.
    let (events, r) = walk(&buf, 4);
    assert_eq!(r, Ok(()));
    assert_eq!(events.len(), 4);
}

#[test]
fn unknown_tag_is_never_recursed_into() {
    // A leaf-classified tag whose payload happens to hold bytes that
    // look like a valid box: the payload is skipped, not entered.
    let mut lookalike = Vec::new();
    push_box(&mut lookalike, b"moov", 8);
    let mut buf = Vec::new();
    push_box_with_payload(&mut buf, b"abcd", &lookalike);
    push_box(&mut buf, b"free", 8);
    let (events, r) = walk(&buf, 10);
    assert_eq!(r, Ok(()));
    assert_eq!(events.len(), 2);
    assert_eq!(event(&events[0]), (bt(b"abcd"), 16, 0, 0));
    assert_eq!(event(&events[1]), (bt(b"free"), 8, 16, 0));
    assert!(events.iter().all(|e| e.depth == 0));
}

#[test]
fn walk_of_sub_range_reports_absolute_offsets() {
    // The walker can be pointed at an inner range; offsets stay
    // absolute positions in the buffer.
    let mut buf = Vec::new();
    push_box(&mut buf, b"free", 8);
    push_box(&mut buf, b"mdat", 8);
    let mut out = Vec::new();
    let r = parse_mp4_boxes(&buf, 8, buf.len(), 0, 10, &mut out);
    assert_eq!(r, Ok(()));
    assert_eq!(out.len(), 1);
    assert_eq!(event(&out[0]), (bt(b"mdat"), 8, 8, 0));
}

#[test]
fn walker_appends_after_existing_events() {
    let mut buf = Vec::new();
    push_box(&mut buf, b"free", 8);
    let mut out = Vec::new();
    let r1 = parse_mp4_boxes(&buf, 0, buf.len(), 0, 10, &mut out);
    let r2 = parse_mp4_boxes(&buf, 0, buf.len(), 5, 10, &mut out);
    assert_eq!(r1, Ok(()));
    assert_eq!(r2, Ok(()));
    assert_eq!(out.len(), 2);
    assert_eq!(out[0].depth, 0);
    assert_eq!(out[1].depth, 5);
}
