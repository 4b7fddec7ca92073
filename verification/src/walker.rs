//! The tree walker: iterates sibling boxes within a byte range, recurses
//! into containers, and reports every discovered box in strict pre-order.

use vstd::prelude::*;
use crate::boxes::{BoxEvent, ParseError, spec_is_container, is_container};
use crate::header::{spec_read_box, read_box};

verus! {

/// The full traversal of the range `[cursor, end)` of `b` at nesting
/// depth `depth`, with `max_depth` the deepest nesting allowed.
///
/// The result is the sequence of events the walk emits, in strict
/// pre-order, together with the outcome: `None` for a clean termination
/// at the range boundary, or the error that aborted the walk.  An
/// aborting walk still yields every event emitted before the failing
/// box; a box that would overrun the range is itself not emitted.
pub open spec fn spec_walk(b: Seq<u8>, cursor: int, end: int, depth: int, max_depth: int) -> (Seq<
    BoxEvent,
>, Option<ParseError>)
    recommends
        end <= b.len(),
    decreases max_depth - depth, end - cursor,
        when 0 <= cursor && cursor <= end && end <= u64::MAX
{
    match spec_read_box(b, cursor, end) {
        Ok(None) => (Seq::empty(), None),
        Err(e) => (Seq::empty(), Some(e)),
        Ok(Some(h)) => {
            if h.item.size > end - cursor {
                (Seq::empty(), Some(ParseError::MalformedBox))
            } else {
                let ev = BoxEvent { item: h.item, depth: depth as usize };
                if spec_is_container(h.item.box_type) {
                    if depth >= max_depth {
                        (seq![ev], Some(ParseError::DepthExceeded))
                    } else {
                        let inner = spec_walk(
                            b,
                            cursor + h.header_len,
                            cursor + h.item.size,
                            depth + 1,
                            max_depth,
                        );
                        if inner.1 is Some {
                            (seq![ev] + inner.0, inner.1)
                        } else {
                            let rest = spec_walk(b, cursor + h.item.size, end, depth, max_depth);
                            (seq![ev] + inner.0 + rest.0, rest.1)
                        }
                    }
                } else {
                    let rest = spec_walk(b, cursor + h.item.size, end, depth, max_depth);
                    (seq![ev] + rest.0, rest.1)
                }
            }
        },
    }
}

/// Walks the boxes in `[start, end)` of `buf`, appending one event per
/// discovered box to `out` in strict pre-order, exactly as `spec_walk`
/// says.
///
/// `depth` is the nesting depth reported for the siblings of this range;
/// a container's payload is walked at `depth + 1`, and descending below
/// `max_depth` further levels aborts with `DepthExceeded` (nesting depth
/// is attacker-controlled, so it must be capped).  After a child range
/// is walked, the cursor is re-seeked to the container's own computed
/// end: a malformed child must not desynchronize the parent's iteration.
///
/// On an error, everything discovered before the failing box has already
/// been appended to `out`.
#[verifier::loop_isolation(false)]
pub fn parse_mp4_boxes(
    buf: &Vec<u8>,
    start: usize,
    end: usize,
    depth: usize,
    max_depth: usize,
    out: &mut Vec<BoxEvent>,
) -> (r: Result<(), ParseError>)
    requires
        start <= end,
        end <= buf.len(),
        depth <= max_depth,
    ensures
        final(out)@ == old(out)@ + spec_walk(
            buf@,
            start as int,
            end as int,
            depth as int,
            max_depth as int,
        ).0,
        spec_walk(buf@, start as int, end as int, depth as int, max_depth as int).1 is None
            <==> r == Ok::<(), ParseError>(()),
        spec_walk(buf@, start as int, end as int, depth as int, max_depth as int).1 matches Some(e)
            ==> r == Err::<(), ParseError>(e),
    decreases max_depth - depth,
{
    let ghost full = spec_walk(buf@, start as int, end as int, depth as int, max_depth as int);
    let mut cursor: usize = start;
    let ghost mut emitted: Seq<BoxEvent> = Seq::empty();
    while cursor < end
        invariant
            start <= cursor <= end,
            out@ == old(out)@ + emitted,
            full.0 == emitted + spec_walk(
                buf@,
                cursor as int,
                end as int,
                depth as int,
                max_depth as int,
            ).0,
            full.1 == spec_walk(buf@, cursor as int, end as int, depth as int, max_depth as int).1,
        decreases end - cursor,
    {
        let ghost rem = spec_walk(buf@, cursor as int, end as int, depth as int, max_depth as int);
        match read_box(buf, cursor, end) {
            Err(e) => {
                proof {
                    assert(full.0 =~= emitted);
                }
                return Err(e);
            },
            Ok(None) => {
                // Fewer than 8 bytes remain: the clean end of the range.
                proof {
                    assert(full.0 =~= emitted);
                }
                return Ok(());
            },
            Ok(Some(h)) => {
                let remaining = end - cursor;
                if h.item.size > remaining as u64 {
                    // The box would overrun the caller's boundary: never
                    // seek past it, and never report the overrunning box.
                    proof {
                        assert(full.0 =~= emitted);
                    }
                    return Err(ParseError::MalformedBox);
                }
                let size = h.item.size as usize;
                let ev = BoxEvent { item: h.item, depth };
                out.push(ev);
                if is_container(h.item.box_type) {
                    if depth == max_depth {
                        proof {
                            assert(full.0 =~= emitted + seq![ev]);
                            assert(out@ =~= old(out)@ + full.0);
                        }
                        return Err(ParseError::DepthExceeded);
                    }
                    let ghost inner = spec_walk(
                        buf@,
                        cursor as int + h.header_len,
                        cursor as int + h.item.size,
                        depth as int + 1,
                        max_depth as int,
                    );
                    let child_result = parse_mp4_boxes(
                        buf,
                        cursor + h.header_len,
                        cursor + size,
                        depth + 1,
                        max_depth,
                        out,
                    );
                    if let Err(e) = child_result {
                        proof {
                            assert(full.0 =~= emitted + (seq![ev] + inner.0));
                            assert(out@ =~= old(out)@ + full.0);
                        }
                        return Err(e);
                    }
                    proof {
                        emitted = emitted + seq![ev] + inner.0;
                        assert(out@ =~= old(out)@ + emitted);
                        assert(rem.0 =~= seq![ev] + inner.0 + spec_walk(
                            buf@,
                            cursor as int + h.item.size,
                            end as int,
                            depth as int,
                            max_depth as int,
                        ).0);
                        assert(full.0 =~= emitted + spec_walk(
                            buf@,
                            cursor as int + h.item.size,
                            end as int,
                            depth as int,
                            max_depth as int,
                        ).0);
                    }
                } else {
                    proof {
                        emitted = emitted + seq![ev];
                        assert(out@ =~= old(out)@ + emitted);
                        assert(full.0 =~= emitted + spec_walk(
                            buf@,
                            cursor as int + h.item.size,
                            end as int,
                            depth as int,
                            max_depth as int,
                        ).0);
                    }
                }
                // Seek to the box's own computed end, never trusting how
                // far a recursive descent advanced.
                cursor = cursor + size;
            },
        }
    }
    proof {
        assert(full.0 =~= emitted);
    }
    Ok(())
}

} // verus!
