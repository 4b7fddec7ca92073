//! The laws of the walker, stated and proved once and for all inputs:
//! how the extended-size and zero-size rules resolve, when a box is
//! rejected as malformed, how containers descend and leaves are skipped,
//! and that a run of well-formed sibling leaves round-trips exactly.

use vstd::prelude::*;
use crate::boxes::{BoxEvent, Mp4Box, ParseError, spec_is_container};
use crate::header::{BoxHeader, spec_read_box, be32_at, be64_at, tag_at};
use crate::walker::spec_walk;

verus! {

/// A box whose declared size field is the sentinel `1` resolves to the
/// 8-byte big-endian value that follows the tag, and consumes a 16-byte
/// header, not 8.
pub proof fn lemma_extended_size(b: Seq<u8>, cursor: int, end: int)
    requires
        0 <= cursor,
        cursor + 16 <= end,
        end <= b.len(),
        end <= u64::MAX,
        be32_at(b, cursor) == 1,
        be64_at(b, cursor + 8) >= 16,
    ensures
        ({
            let r = spec_read_box(b, cursor, end);
            &&& r matches Ok(Some(h))
            &&& h.header_len == 16
            &&& h.item.size == be64_at(b, cursor + 8)
            &&& h.item.offset == cursor
            &&& h.item.box_type == tag_at(b, cursor + 4)
        }),
{
}

/// A box whose declared size field is `0` extends to the end of the
/// enclosing range: its resolved size is `end - offset`, with a plain
/// 8-byte header.
pub proof fn lemma_zero_size_sentinel(b: Seq<u8>, cursor: int, end: int)
    requires
        0 <= cursor,
        cursor + 8 <= end,
        end <= b.len(),
        end <= u64::MAX,
        be32_at(b, cursor) == 0,
    ensures
        ({
            let r = spec_read_box(b, cursor, end);
            &&& r matches Ok(Some(h))
            &&& h.header_len == 8
            &&& h.item.size == end - cursor
            &&& h.item.offset == cursor
        }),
{
}

/// A declared size between 2 and 7 is smaller than the 8-byte minimum
/// header: the header decoder rejects the box as malformed, and a walk
/// arriving at such a box aborts with `MalformedBox` without emitting
/// it.
pub proof fn lemma_undersized_box_malformed(
    b: Seq<u8>,
    cursor: int,
    end: int,
    depth: int,
    max_depth: int,
)
    requires
        0 <= cursor,
        cursor + 8 <= end,
        end <= b.len(),
        end <= u64::MAX,
        2 <= be32_at(b, cursor) < 8,
    ensures
        spec_read_box(b, cursor, end) == Err::<Option<BoxHeader>, ParseError>(
            ParseError::MalformedBox,
        ),
        spec_walk(b, cursor, end, depth, max_depth) == (
            Seq::<BoxEvent>::empty(),
            Some(ParseError::MalformedBox),
        ),
{
}

/// A box whose resolved size overruns the enclosing range is rejected:
/// even though its header decoded successfully, the walk aborts with
/// `MalformedBox`, and the overrunning box itself is not emitted.
pub proof fn lemma_truncated_box_malformed(
    b: Seq<u8>,
    cursor: int,
    end: int,
    depth: int,
    max_depth: int,
)
    requires
        0 <= cursor,
        cursor <= end,
        end <= b.len(),
        end <= u64::MAX,
        ({
            let r = spec_read_box(b, cursor, end);
            r matches Ok(Some(h)) && h.item.size > end - cursor
        }),
    ensures
        spec_walk(b, cursor, end, depth, max_depth) == (
            Seq::<BoxEvent>::empty(),
            Some(ParseError::MalformedBox),
        ),
{
}

/// A walk that meets a container box when it is already at the deepest
/// allowed nesting level aborts with `DepthExceeded`, after emitting the
/// container itself (which is a well-formed box) and nothing further.
pub proof fn lemma_depth_cap(b: Seq<u8>, cursor: int, end: int, max_depth: int)
    requires
        0 <= cursor,
        cursor <= end,
        end <= b.len(),
        end <= u64::MAX,
        ({
            let r = spec_read_box(b, cursor, end);
            r matches Ok(Some(h)) && h.item.size <= end - cursor && spec_is_container(
                h.item.box_type,
            )
        }),
    ensures
        ({
            let r = spec_read_box(b, cursor, end);
            let w = spec_walk(b, cursor, end, max_depth, max_depth);
            &&& w.1 == Some(ParseError::DepthExceeded)
            &&& r matches Ok(Some(h)) && w.0 == seq![
                BoxEvent { item: h.item, depth: max_depth as usize },
            ]
        }),
{
}

/// Container recursion: a walk that meets a container box emits the
/// container at the current depth, then the whole traversal of its
/// payload sub-range `[offset + header_len, offset + size)` at the next
/// depth, and only then the container's later siblings, again at the
/// current depth.
pub proof fn lemma_container_descent(b: Seq<u8>, cursor: int, end: int, depth: int, max_depth: int)
    requires
        0 <= cursor,
        cursor <= end,
        end <= b.len(),
        end <= u64::MAX,
        depth < max_depth,
        ({
            let r = spec_read_box(b, cursor, end);
            r matches Ok(Some(h)) && h.item.size <= end - cursor && spec_is_container(
                h.item.box_type,
            )
        }),
    ensures
        ({
            let r = spec_read_box(b, cursor, end);
            r matches Ok(Some(h)) ==> {
                let ev = BoxEvent { item: h.item, depth: depth as usize };
                let inner = spec_walk(
                    b,
                    cursor + h.header_len,
                    cursor + h.item.size,
                    depth + 1,
                    max_depth,
                );
                let rest = spec_walk(b, cursor + h.item.size, end, depth, max_depth);
                let w = spec_walk(b, cursor, end, depth, max_depth);
                &&& inner.1 is None ==> w == (seq![ev] + inner.0 + rest.0, rest.1)
                &&& inner.1 is Some ==> w == (seq![ev] + inner.0, inner.1)
            }
        }),
{
}

/// Leaf opacity: a walk that meets a leaf-classified box emits exactly
/// one event for it and continues at the box's end; the payload bytes
/// are never entered, whatever byte patterns they hold.
pub proof fn lemma_leaf_skipped(b: Seq<u8>, cursor: int, end: int, depth: int, max_depth: int)
    requires
        0 <= cursor,
        cursor <= end,
        end <= b.len(),
        end <= u64::MAX,
        ({
            let r = spec_read_box(b, cursor, end);
            r matches Ok(Some(h)) && h.item.size <= end - cursor && !spec_is_container(
                h.item.box_type,
            )
        }),
    ensures
        ({
            let r = spec_read_box(b, cursor, end);
            r matches Ok(Some(h)) ==> {
                let ev = BoxEvent { item: h.item, depth: depth as usize };
                let rest = spec_walk(b, cursor + h.item.size, end, depth, max_depth);
                let w = spec_walk(b, cursor, end, depth, max_depth);
                &&& w == (seq![ev] + rest.0, rest.1)
                &&& forall|i: int|
                    1 <= i < w.0.len() ==> (#[trigger] w.0[i]).item.offset >= cursor + h.item.size
            }
        }),
{
    let r = spec_read_box(b, cursor, end);
    if let Ok(Some(h)) = r {
        let rest = spec_walk(b, cursor + h.item.size, end, depth, max_depth);
        let w = spec_walk(b, cursor, end, depth, max_depth);
        lemma_events_within_range(b, cursor + h.item.size, end, depth, max_depth);
        assert forall|i: int| 1 <= i < w.0.len() implies (#[trigger] w.0[i]).item.offset >= cursor
            + h.item.size by {
            assert(w.0[i] == rest.0[i - 1]);
        }
    }
}

/// Boundary respect: every event a walk over `[cursor, end)` emits
/// describes a box lying wholly inside the range — no discovered box
/// starts before `cursor` or extends past `end`.
pub proof fn lemma_events_within_range(
    b: Seq<u8>,
    cursor: int,
    end: int,
    depth: int,
    max_depth: int,
)
    requires
        0 <= cursor,
        cursor <= end,
        end <= b.len(),
        end <= u64::MAX,
    ensures
        ({
            let w = spec_walk(b, cursor, end, depth, max_depth);
            forall|i: int|
                0 <= i < w.0.len() ==> {
                    let ev = #[trigger] w.0[i];
                    cursor <= ev.item.offset && ev.item.offset + ev.item.size <= end
                }
        }),
    decreases max_depth - depth, end - cursor,
{
    let w = spec_walk(b, cursor, end, depth, max_depth);
    match spec_read_box(b, cursor, end) {
        Ok(None) => {},
        Err(_) => {},
        Ok(Some(h)) => {
            assert(h.header_len == 8 || h.header_len == 16);
            assert(h.item.size >= h.header_len);
            if h.item.size > end - cursor {
            } else if spec_is_container(h.item.box_type) {
                if depth < max_depth {
                    let inner = spec_walk(
                        b,
                        cursor + h.header_len,
                        cursor + h.item.size,
                        depth + 1,
                        max_depth,
                    );
                    let rest = spec_walk(b, cursor + h.item.size, end, depth, max_depth);
                    lemma_events_within_range(
                        b,
                        cursor + h.header_len,
                        cursor + h.item.size,
                        depth + 1,
                        max_depth,
                    );
                    if inner.1 is None {
                        lemma_events_within_range(b, cursor + h.item.size, end, depth, max_depth);
                        assert forall|i: int| 0 <= i < w.0.len() implies {
                            let ev = #[trigger] w.0[i];
                            cursor <= ev.item.offset && ev.item.offset + ev.item.size <= end
                        } by {
                            if i >= 1 && i <= inner.0.len() {
                                assert(w.0[i] == inner.0[i - 1]);
                            } else if i > inner.0.len() {
                                assert(w.0[i] == rest.0[i - 1 - inner.0.len()]);
                            }
                        }
                    } else {
                        assert forall|i: int| 0 <= i < w.0.len() implies {
                            let ev = #[trigger] w.0[i];
                            cursor <= ev.item.offset && ev.item.offset + ev.item.size <= end
                        } by {
                            if i >= 1 {
                                assert(w.0[i] == inner.0[i - 1]);
                            }
                        }
                    }
                }
            } else {
                let rest = spec_walk(b, cursor + h.item.size, end, depth, max_depth);
                lemma_events_within_range(b, cursor + h.item.size, end, depth, max_depth);
                assert forall|i: int| 0 <= i < w.0.len() implies {
                    let ev = #[trigger] w.0[i];
                    cursor <= ev.item.offset && ev.item.offset + ev.item.size <= end
                } by {
                    if i >= 1 {
                        assert(w.0[i] == rest.0[i - 1]);
                    }
                }
            }
        },
    }
}

/// A run of well-formed sibling leaf boxes exactly filling
/// `[cursor, end)`: each box has a plain 8-byte header, a declared size
/// of at least 8 that fits in what remains, and a leaf-classified tag,
/// and the boxes are laid out back to back up to `end` exactly.
pub open spec fn leaf_run(b: Seq<u8>, cursor: int, end: int) -> bool
    decreases end - cursor,
{
    if cursor >= end {
        cursor == end
    } else if end - cursor < 8 {
        false
    } else {
        let d = be32_at(b, cursor);
        &&& 8 <= d
        &&& d <= end - cursor
        &&& !spec_is_container(tag_at(b, cursor + 4))
        &&& leaf_run(b, cursor + d, end)
    }
}

/// The events that a run of sibling leaf boxes describes: one per box,
/// in layout order, each carrying the box's own declared size and start
/// offset at the given depth.
pub open spec fn leaf_run_events(b: Seq<u8>, cursor: int, end: int, depth: int) -> Seq<BoxEvent>
    decreases end - cursor,
{
    if cursor >= end || end - cursor < 8 {
        Seq::empty()
    } else {
        let d = be32_at(b, cursor);
        if 8 <= d && d <= end - cursor {
            seq![
                BoxEvent {
                    item: Mp4Box {
                        box_type: tag_at(b, cursor + 4),
                        size: d as u64,
                        offset: cursor as u64,
                    },
                    depth: depth as usize,
                },
            ] + leaf_run_events(b, cursor + d, end, depth)
        } else {
            Seq::empty()
        }
    }
}

/// Round-trip construction: a walk over a range holding a run of
/// sibling leaf boxes terminates cleanly, with no error, and emits
/// exactly one event per constructed box, in order — whatever depth it
/// runs at and whatever cap is configured.
pub proof fn lemma_leaf_run_walk(b: Seq<u8>, cursor: int, end: int, depth: int, max_depth: int)
    requires
        0 <= cursor,
        cursor <= end,
        end <= b.len(),
        end <= u64::MAX,
        leaf_run(b, cursor, end),
    ensures
        ({
            let w = spec_walk(b, cursor, end, depth, max_depth);
            &&& w.1 is None
            &&& w.0 == leaf_run_events(b, cursor, end, depth)
        }),
    decreases end - cursor,
{
    if cursor == end {
    } else {
        let d = be32_at(b, cursor);
        lemma_leaf_run_walk(b, cursor + d, end, depth, max_depth);
        assert(spec_walk(b, cursor, end, depth, max_depth).0 =~= leaf_run_events(
            b,
            cursor,
            end,
            depth,
        ));
    }
}

/// Contiguous partition: the events of a run of sibling leaf boxes
/// carve `[cursor, end)` into adjacent, non-overlapping spans — the
/// first box starts at `cursor`, each next box starts exactly where the
/// previous one ends, the last box ends exactly at `end`, and every
/// size is the box's own declared size field.
pub proof fn lemma_leaf_run_partition(b: Seq<u8>, cursor: int, end: int, depth: int)
    requires
        0 <= cursor,
        cursor <= end,
        end <= b.len(),
        end <= u64::MAX,
        leaf_run(b, cursor, end),
    ensures
        ({
            let evs = leaf_run_events(b, cursor, end, depth);
            &&& evs.len() == 0 <==> cursor == end
            &&& evs.len() > 0 ==> evs[0].item.offset == cursor
            &&& evs.len() > 0 ==> evs[evs.len() - 1].item.offset + evs[evs.len() - 1].item.size
                == end
            &&& forall|i: int|
                0 <= i < evs.len() ==> (#[trigger] evs[i]).item.size == be32_at(
                    b,
                    evs[i].item.offset as int,
                )
            &&& forall|i: int|
                1 <= i < evs.len() ==> (#[trigger] evs[i]).item.offset == evs[i - 1].item.offset
                    + evs[i - 1].item.size
        }),
    decreases end - cursor,
{
    if cursor == end {
    } else {
        let d = be32_at(b, cursor);
        lemma_leaf_run_partition(b, cursor + d, end, depth);
    }
}

} // verus!
