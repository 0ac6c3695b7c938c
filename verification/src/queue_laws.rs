//! What the reassembler guarantees of whole frames: a frame that arrives in
//! one chunk, with or without padding, behind another frame, or cut into
//! pieces, comes out of the queue as it went in.

use crate::checksum::checksum_ok;
use crate::queue::is_command_start;
use crate::queue::lemma_absorb_concat;
use crate::queue::lemma_absorb_plain;
use crate::queue::lemma_absorb_span;
use crate::queue::lemma_without_trailing_zeros;
use crate::queue::no_command_start;
use crate::queue::without_trailing_zeros;
use crate::queue::QueueState;
use vstd::prelude::*;

verus! {

/// A run of bytes that begins with a frame start and holds no other.
pub open spec fn is_span(bytes: Seq<u8>) -> bool {
    &&& bytes.len() > 0
    &&& is_command_start(bytes[0])
    &&& no_command_start(bytes.skip(1))
}

/// A frame as the device sends it: a span whose last byte is the checksum of
/// the bytes before it.
pub open spec fn is_frame(bytes: Seq<u8>) -> bool {
    is_span(bytes) && checksum_ok(bytes)
}

/// The frame cannot be mistaken for a shorter frame with padding behind it:
/// either its checksum is not zero, or the byte before the checksum is not
/// zero and the frame without its checksum is no frame.
pub open spec fn survives_padding(frame: Seq<u8>) -> bool {
    frame.len() > 0 && (frame.last() != 0 || (frame.len() >= 2 && frame[frame.len() - 2] != 0
        && !checksum_ok(frame.drop_last())))
}

/// `count` zero bytes.
pub open spec fn zeros(count: nat) -> Seq<u8> {
    Seq::new(count, |i: int| 0u8)
}

/// The chunks put together again.
pub open spec fn joined(chunks: Seq<Seq<u8>>) -> Seq<u8>
    decreases chunks.len(),
{
    if chunks.len() == 0 {
        Seq::empty()
    } else {
        joined(chunks.drop_last()) + chunks.last()
    }
}

/// At the end of a chunk these pending bytes would be taken for a frame:
/// without their trailing zeros they carry a valid checksum, or they do so
/// with one of those zeros put back.
pub open spec fn looks_complete(pending: Seq<u8>) -> bool {
    let stripped = without_trailing_zeros(pending);
    stripped.len() > 0 && (checksum_ok(stripped) || (stripped.len() < pending.len() && checksum_ok(
        stripped.push(0),
    )))
}

/// A chunk boundary behind `prefix` cuts `frame` short: the prefix is taken
/// for a frame before the rest has arrived.
pub open spec fn cuts_short(frame: Seq<u8>, prefix: Seq<u8>) -> bool {
    0 < prefix.len() < frame.len() && looks_complete(prefix)
}

proof fn lemma_strip_padding(bytes: Seq<u8>, padding: nat)
    ensures
        without_trailing_zeros(bytes + zeros(padding)) == without_trailing_zeros(bytes),
    decreases padding,
{
    if padding == 0 {
        assert(bytes + zeros(padding) =~= bytes);
    } else {
        let padded = bytes + zeros(padding);
        assert(padded.last() == 0);
        assert(padded.drop_last() =~= bytes + zeros((padding - 1) as nat));
        lemma_strip_padding(bytes, (padding - 1) as nat);
    }
}

/// Settling a pending frame that survives its padding queues exactly that frame.
proof fn lemma_settle_frame(frames: Seq<Seq<u8>>, frame: Seq<u8>, padding: nat)
    requires
        frame.len() > 0,
        checksum_ok(frame),
        survives_padding(frame),
    ensures
        (QueueState { frames: frames, pending: frame + zeros(padding) }).settle() == (QueueState {
            frames: frames.push(frame),
            pending: Seq::empty(),
        }),
{
    lemma_strip_padding(frame, padding);
    if frame.last() != 0 {
        assert(without_trailing_zeros(frame) == frame);
    } else {
        let body = frame.drop_last();
        assert(without_trailing_zeros(frame) == without_trailing_zeros(body));
        assert(body.last() == frame[frame.len() - 2]);
        assert(without_trailing_zeros(body) == body);
        assert(body.push(0) =~= frame);
    }
}

/// A frame that arrives whole in one chunk, with any number of zero bytes of
/// padding behind it, is queued as it is and nothing stays pending. What was
/// pending before is closed into a frame of its own ahead of it.
pub proof fn lemma_padded_frame_is_queued(state: QueueState, frame: Seq<u8>, padding: nat)
    requires
        is_frame(frame),
        survives_padding(frame),
    ensures
        state.fed(frame + zeros(padding)) == (QueueState {
            frames: state.frames_closed().push(frame),
            pending: Seq::empty(),
        }),
{
    let chunk = frame + zeros(padding);
    assert forall|i: int| 0 <= i < chunk.skip(1).len() implies !is_command_start(
        #[trigger] chunk.skip(1)[i],
    ) by {
        if i + 1 < frame.len() {
            assert(chunk.skip(1)[i] == frame.skip(1)[i]);
        }
    }
    lemma_absorb_span(state, chunk);
    lemma_settle_frame(state.frames_closed(), frame, padding);
}

/// Two frames with no gap between them in one chunk are queued in the order
/// in which they arrived. The first needs no valid checksum: the start of
/// the second closes it.
pub proof fn lemma_two_frames_in_one_chunk(
    state: QueueState,
    first: Seq<u8>,
    second: Seq<u8>,
    padding: nat,
)
    requires
        is_span(first),
        is_frame(second),
        survives_padding(second),
    ensures
        state.fed(first + second + zeros(padding)) == (QueueState {
            frames: state.frames_closed().push(first).push(second),
            pending: Seq::empty(),
        }),
{
    let rest = second + zeros(padding);
    assert(first + second + zeros(padding) =~= first + rest);
    lemma_absorb_concat(state, first, rest);
    lemma_absorb_span(state, first);
    let middle = state.absorb(first);
    assert forall|i: int| 0 <= i < rest.skip(1).len() implies !is_command_start(
        #[trigger] rest.skip(1)[i],
    ) by {
        if i + 1 < second.len() {
            assert(rest.skip(1)[i] == second.skip(1)[i]);
        }
    }
    lemma_absorb_span(middle, rest);
    lemma_settle_frame(middle.frames_closed(), second, padding);
}

proof fn lemma_joined_take(chunks: Seq<Seq<u8>>, k: int)
    requires
        0 <= k <= chunks.len(),
    ensures
        joined(chunks.take(k)).len() <= joined(chunks).len(),
        joined(chunks.take(k)) == joined(chunks).take(joined(chunks.take(k)).len() as int),
    decreases chunks.len(),
{
    if k == chunks.len() {
        assert(chunks.take(k) =~= chunks);
        assert(joined(chunks).take(joined(chunks).len() as int) =~= joined(chunks));
    } else {
        lemma_joined_take(chunks.drop_last(), k);
        assert(chunks.drop_last().take(k) =~= chunks.take(k));
        let prefix = joined(chunks.take(k));
        assert(joined(chunks).take(prefix.len() as int) =~= joined(chunks.drop_last()).take(
            prefix.len() as int,
        ));
    }
}

proof fn lemma_fragments_up_to(
    state: QueueState,
    frame: Seq<u8>,
    chunks: Seq<Seq<u8>>,
    k: int,
)
    requires
        is_frame(frame),
        survives_padding(frame),
        state.pending.len() == 0,
        joined(chunks) == frame,
        forall|j: int|
            0 < j < chunks.len() ==> !cuts_short(frame, #[trigger] joined(chunks.take(j))),
        0 <= k <= chunks.len(),
    ensures
        state.fed_all(chunks.take(k)) == if joined(chunks.take(k)).len() == frame.len() {
            QueueState { frames: state.frames.push(frame), pending: Seq::empty() }
        } else {
            QueueState { frames: state.frames, pending: joined(chunks.take(k)) }
        },
    decreases k,
{
    if k == 0 {
        assert(chunks.take(0) =~= Seq::<Seq<u8>>::empty());
        assert(state.pending =~= Seq::<u8>::empty());
    } else {
        lemma_fragments_up_to(state, frame, chunks, k - 1);
        lemma_feed_next_chunk(state.frames, frame, chunks, k);
        lemma_joined_take(chunks, k - 1);
        lemma_joined_take(chunks, k);
        assert(chunks.take(k).drop_last() =~= chunks.take(k - 1));
        let p = joined(chunks.take(k - 1));
        let c = chunks[k - 1];
        let q = joined(chunks.take(k));
        let mid = state.fed_all(chunks.take(k - 1));
        assert(state.fed_all(chunks.take(k)) == mid.fed(c));
        if p.len() == frame.len() {
            // the frame is in the queue and only empty chunks follow
            assert(c.len() == 0);
            assert(mid.absorb(c) == mid);
        } else if q.len() == frame.len() {
            assert(q =~= frame);
            assert(frame + zeros(0) =~= frame);
            lemma_settle_frame(state.frames, frame, 0);
        } else if q.len() == 0 {
            assert(q =~= Seq::<u8>::empty());
        } else {
            assert(k < chunks.len()) by {
                if k == chunks.len() {
                    assert(chunks.take(k) =~= chunks);
                }
            }
            assert(!cuts_short(frame, joined(chunks.take(k))));
            lemma_without_trailing_zeros(q);
            assert(q[0] == frame.take(q.len() as int)[0]);
            assert(is_command_start(q[0]));
            assert(without_trailing_zeros(q).len() > 0);
        }
    }
}

/// A frame that arrives cut into chunks, at whatever places, is queued as one
/// frame, as it is, once its last chunk has been fed, provided that no chunk
/// boundary cuts it short. Chunks may be empty.
pub proof fn lemma_fragmented_frame_is_queued(
    state: QueueState,
    frame: Seq<u8>,
    chunks: Seq<Seq<u8>>,
)
    requires
        is_frame(frame),
        survives_padding(frame),
        state.pending.len() == 0,
        joined(chunks) == frame,
        forall|j: int|
            0 < j < chunks.len() ==> !cuts_short(frame, #[trigger] joined(chunks.take(j))),
    ensures
        state.fed_all(chunks) == (QueueState {
            frames: state.frames.push(frame),
            pending: Seq::empty(),
        }),
{
    lemma_fragments_up_to(state, frame, chunks, chunks.len() as int);
    assert(chunks.take(chunks.len() as int) =~= chunks);
}

/// The same for a frame cut in two at any place inside it.
pub proof fn lemma_split_frame_is_queued(state: QueueState, frame: Seq<u8>, at: int)
    requires
        is_frame(frame),
        survives_padding(frame),
        state.pending.len() == 0,
        0 < at < frame.len(),
        !cuts_short(frame, frame.take(at)),
    ensures
        state.fed(frame.take(at)).fed(frame.skip(at)) == (QueueState {
            frames: state.frames.push(frame),
            pending: Seq::empty(),
        }),
{
    let chunks = seq![frame.take(at), frame.skip(at)];
    let one = chunks.drop_last();
    assert(one.drop_last() =~= Seq::<Seq<u8>>::empty());
    assert(joined(one.drop_last()) =~= Seq::<u8>::empty());
    assert(joined(one) =~= frame.take(at));
    assert(joined(chunks) =~= frame);
    assert forall|j: int| 0 < j < chunks.len() implies !cuts_short(
        frame,
        #[trigger] joined(chunks.take(j)),
    ) by {
        assert(chunks.take(1) =~= one);
    }
    lemma_fragmented_frame_is_queued(state, frame, chunks);
    assert(state.fed_all(one) == state.fed_all(one.drop_last()).fed(one.last()));
}

/// A frame that cannot be told from its own padding does not come out of
/// the queue as it went in: the condition of
/// [`lemma_padded_frame_is_queued`] leaves out no frame without need.
pub proof fn lemma_hidden_frame_is_not_queued(state: QueueState, frame: Seq<u8>, padding: nat)
    requires
        is_frame(frame),
        !survives_padding(frame),
    ensures
        state.fed(frame + zeros(padding)) != (QueueState {
            frames: state.frames_closed().push(frame),
            pending: Seq::empty(),
        }),
{
    let chunk = frame + zeros(padding);
    assert forall|i: int| 0 <= i < chunk.skip(1).len() implies !is_command_start(
        #[trigger] chunk.skip(1)[i],
    ) by {
        if i + 1 < frame.len() {
            assert(chunk.skip(1)[i] == frame.skip(1)[i]);
        }
    }
    lemma_absorb_span(state, chunk);
    lemma_strip_padding(frame, padding);
    lemma_without_trailing_zeros(frame);
    let closed = state.frames_closed();
    let stripped = without_trailing_zeros(frame);
    let after = state.fed(chunk);
    assert(stripped.len() < frame.len());
    if stripped.len() == 0 {
        assert(frame[0] == 0);
    } else if checksum_ok(stripped) {
        assert(after.frames[closed.len() as int] == stripped);
    } else if checksum_ok(stripped.push(0)) {
        assert(after.frames[closed.len() as int] == stripped.push(0));
        if stripped.len() == frame.len() - 1 {
            assert(stripped =~= frame.drop_last());
            assert(frame[frame.len() - 2] == stripped.last());
        }
    } else {
        assert(after.pending.len() > 0);
    }
}

/// Nor does the second of two frames in one chunk, where it cannot be told
/// from its own padding.
pub proof fn lemma_hidden_second_frame_is_not_queued(
    state: QueueState,
    first: Seq<u8>,
    second: Seq<u8>,
    padding: nat,
)
    requires
        is_span(first),
        is_frame(second),
        !survives_padding(second),
    ensures
        state.fed(first + second + zeros(padding)) != (QueueState {
            frames: state.frames_closed().push(first).push(second),
            pending: Seq::empty(),
        }),
{
    let rest = second + zeros(padding);
    assert(first + second + zeros(padding) =~= first + rest);
    lemma_absorb_concat(state, first, rest);
    lemma_absorb_span(state, first);
    lemma_hidden_frame_is_not_queued(state.absorb(first), second, padding);
}

/// Feeding a chunk takes no frame out of the queue and changes none.
proof fn lemma_fed_keeps_frames(state: QueueState, chunk: Seq<u8>, at: int)
    requires
        0 <= at < state.frames.len(),
    ensures
        at < state.fed(chunk).frames.len(),
        state.fed(chunk).frames[at] == state.frames[at],
{
    lemma_absorb_keeps_frames(state, chunk, at);
}

proof fn lemma_absorb_keeps_frames(state: QueueState, bytes: Seq<u8>, at: int)
    requires
        0 <= at < state.frames.len(),
    ensures
        at < state.absorb(bytes).frames.len(),
        state.absorb(bytes).frames[at] == state.frames[at],
    decreases bytes.len(),
{
    if bytes.len() > 0 {
        lemma_absorb_keeps_frames(state, bytes.drop_last(), at);
    }
}

/// The pending bytes after more of a span has arrived behind a part of it.
proof fn lemma_absorb_more_of_span(frames: Seq<Seq<u8>>, span: Seq<u8>, from: int, to: int)
    requires
        is_span(span),
        0 <= from <= to <= span.len(),
    ensures
        (QueueState { frames, pending: span.take(from) }).absorb(span.subrange(from, to)) == (
        QueueState { frames, pending: span.take(to) }),
{
    let state = QueueState { frames, pending: span.take(from) };
    let more = span.subrange(from, to);
    if from == 0 {
        assert(span.take(0) =~= Seq::<u8>::empty());
        assert(more =~= span.take(to));
        if to > 0 {
            assert forall|i: int| 0 <= i < more.skip(1).len() implies !is_command_start(
                #[trigger] more.skip(1)[i],
            ) by {
                assert(more.skip(1)[i] == span.skip(1)[i]);
            }
            lemma_absorb_span(state, more);
        }
    } else {
        assert forall|i: int| 0 <= i < more.len() implies !is_command_start(#[trigger] more[i]) by {
            assert(more[i] == span.skip(1)[from + i - 1]);
        }
        lemma_absorb_plain(state, more);
        assert(span.take(from) + more =~= span.take(to));
    }
}

/// As long as no chunk boundary leaves bytes that look complete, the bytes
/// of a span only gather in the pending frame.
proof fn lemma_span_stays_pending(
    state: QueueState,
    span: Seq<u8>,
    chunks: Seq<Seq<u8>>,
    k: int,
)
    requires
        is_span(span),
        state.pending.len() == 0,
        joined(chunks) == span,
        0 <= k <= chunks.len(),
        forall|j: int| 0 < j <= k ==> !looks_complete(#[trigger] joined(chunks.take(j))),
    ensures
        state.fed_all(chunks.take(k)) == (QueueState {
            frames: state.frames,
            pending: joined(chunks.take(k)),
        }),
    decreases k,
{
    if k == 0 {
        assert(chunks.take(0) =~= Seq::<Seq<u8>>::empty());
        assert(state.pending =~= Seq::<u8>::empty());
    } else {
        lemma_span_stays_pending(state, span, chunks, k - 1);
        lemma_feed_next_chunk(state.frames, span, chunks, k);
        assert(chunks.take(k).drop_last() =~= chunks.take(k - 1));
        let q = joined(chunks.take(k));
        assert(!looks_complete(q));
        if q.len() > 0 {
            lemma_joined_take(chunks, k);
            lemma_without_trailing_zeros(q);
            assert(q[0] == span.take(q.len() as int)[0]);
            assert(without_trailing_zeros(q).len() > 0);
        } else {
            assert(q =~= Seq::<u8>::empty());
        }
    }
}

/// What the chunk behind `k - 1` chunks of a span adds to the pending bytes.
proof fn lemma_feed_next_chunk(frames: Seq<Seq<u8>>, span: Seq<u8>, chunks: Seq<Seq<u8>>, k: int)
    requires
        is_span(span),
        joined(chunks) == span,
        0 < k <= chunks.len(),
    ensures
        joined(chunks.take(k)) == joined(chunks.take(k - 1)) + chunks[k - 1],
        (QueueState { frames, pending: joined(chunks.take(k - 1)) }).absorb(chunks[k - 1]) == (
        QueueState { frames, pending: joined(chunks.take(k)) }),
{
    let before = chunks.take(k - 1);
    let now = chunks.take(k);
    assert(now.drop_last() =~= before);
    assert(now.last() == chunks[k - 1]);
    let p = joined(before);
    let c = chunks[k - 1];
    let q = joined(now);
    lemma_joined_take(chunks, k - 1);
    lemma_joined_take(chunks, k);
    assert(c =~= span.subrange(p.len() as int, q.len() as int)) by {
        assert forall|i: int| 0 <= i < c.len() implies #[trigger] c[i] == span[p.len() + i] by {
            assert(q[p.len() + i] == c[i]);
            assert(span.take(q.len() as int)[p.len() + i] == span[p.len() + i]);
        }
    }
    lemma_absorb_more_of_span(frames, span, p.len() as int, q.len() as int);
}

/// The first chunk boundary that cuts the frame short.
proof fn lemma_first_cut(frame: Seq<u8>, chunks: Seq<Seq<u8>>, j: int) -> (first: int)
    requires
        0 < j < chunks.len(),
        cuts_short(frame, joined(chunks.take(j))),
    ensures
        0 < first <= j,
        cuts_short(frame, joined(chunks.take(first))),
        forall|i: int| 0 < i < first ==> !cuts_short(frame, #[trigger] joined(chunks.take(i))),
    decreases j,
{
    if exists|i: int| 0 < i < j && cuts_short(frame, #[trigger] joined(chunks.take(i))) {
        let i = choose|i: int| 0 < i < j && cuts_short(frame, #[trigger] joined(chunks.take(i)));
        lemma_first_cut(frame, chunks, i)
    } else {
        j
    }
}

/// Once a frame is in the queue, further chunks leave it where it is.
proof fn lemma_fed_all_keeps_frame(
    state: QueueState,
    chunks: Seq<Seq<u8>>,
    from: int,
    to: int,
    at: int,
)
    requires
        0 <= from <= to <= chunks.len(),
        0 <= at < state.fed_all(chunks.take(from)).frames.len(),
    ensures
        at < state.fed_all(chunks.take(to)).frames.len(),
        state.fed_all(chunks.take(to)).frames[at] == state.fed_all(chunks.take(from)).frames[at],
    decreases to - from,
{
    if from < to {
        lemma_fed_all_keeps_frame(state, chunks, from, to - 1, at);
        assert(chunks.take(to).drop_last() =~= chunks.take(to - 1));
        lemma_fed_keeps_frames(state.fed_all(chunks.take(to - 1)), chunks[to - 1], at);
    }
}

/// A frame that a chunk boundary cuts short does not come out of the queue
/// as it went in: the condition of [`lemma_fragmented_frame_is_queued`]
/// leaves out no way of cutting without need.
pub proof fn lemma_cut_short_frame_is_not_queued(
    state: QueueState,
    frame: Seq<u8>,
    chunks: Seq<Seq<u8>>,
    j: int,
)
    requires
        is_frame(frame),
        state.pending.len() == 0,
        joined(chunks) == frame,
        0 < j < chunks.len(),
        cuts_short(frame, joined(chunks.take(j))),
    ensures
        state.fed_all(chunks) != (QueueState {
            frames: state.frames.push(frame),
            pending: Seq::empty(),
        }),
{
    let first = lemma_first_cut(frame, chunks, j);
    let cut = joined(chunks.take(first));
    assert forall|i: int| 0 < i <= first - 1 implies !looks_complete(
        #[trigger] joined(chunks.take(i)),
    ) by {
        let earlier = joined(chunks.take(i));
        assert(!cuts_short(frame, earlier));
        lemma_joined_take(chunks.take(first), i);
        assert(chunks.take(first).take(i) =~= chunks.take(i));
    }
    lemma_span_stays_pending(state, frame, chunks, first - 1);
    lemma_feed_next_chunk(state.frames, frame, chunks, first);
    assert(chunks.take(first).drop_last() =~= chunks.take(first - 1));
    let cut_state = state.fed_all(chunks.take(first));
    let stripped = without_trailing_zeros(cut);
    lemma_without_trailing_zeros(cut);
    let at = state.frames.len() as int;
    assert(cut_state.frames.len() == at + 1);
    let queued = cut_state.frames[at];
    assert(queued != frame) by {
        if checksum_ok(stripped) {
            assert(queued == stripped);
        } else {
            assert(queued == stripped.push(0));
        }
    }
    lemma_fed_all_keeps_frame(state, chunks, first, chunks.len() as int, at);
    assert(chunks.take(chunks.len() as int) =~= chunks);
}

/// All bytes that a queue holds, in the order in which they arrived: those
/// of its frames, oldest first, then the pending bytes.
pub open spec fn all_bytes(state: QueueState) -> Seq<u8> {
    joined(state.frames) + state.pending
}

/// The number of trailing zeros that are dropped as padding when the
/// pending bytes are settled.
pub open spec fn padding_dropped(state: QueueState) -> nat {
    let stripped = without_trailing_zeros(state.pending);
    if stripped.len() == 0 {
        state.pending.len()
    } else if checksum_ok(stripped) {
        (state.pending.len() - stripped.len()) as nat
    } else if stripped.len() < state.pending.len() && checksum_ok(stripped.push(0)) {
        (state.pending.len() - stripped.len() - 1) as nat
    } else {
        0
    }
}

proof fn lemma_absorb_keeps_bytes(state: QueueState, bytes: Seq<u8>)
    ensures
        all_bytes(state.absorb(bytes)) == all_bytes(state) + bytes,
    decreases bytes.len(),
{
    if bytes.len() == 0 {
        assert(all_bytes(state) + bytes =~= all_bytes(state));
    } else {
        let before = state.absorb(bytes.drop_last());
        lemma_absorb_keeps_bytes(state, bytes.drop_last());
        let after = before.absorb_byte(bytes.last());
        if is_command_start(bytes.last()) && before.pending.len() > 0 {
            assert(before.frames.push(before.pending).drop_last() =~= before.frames);
        }
        assert(all_bytes(after) =~= all_bytes(before).push(bytes.last()));
        assert(all_bytes(state) + bytes =~= (all_bytes(state) + bytes.drop_last()).push(
            bytes.last(),
        ));
    }
}

/// A chunk adds its bytes behind those that the queue holds and loses none
/// but zeros of padding: no byte is invented, none changes its place, and
/// zeros are dropped only behind a frame that is complete or where nothing
/// else is pending.
pub proof fn lemma_fed_keeps_bytes(state: QueueState, chunk: Seq<u8>)
    ensures
        ({
            let after = state.fed(chunk);
            let dropped = padding_dropped(state.absorb(chunk));
            &&& all_bytes(after) + zeros(dropped) == all_bytes(state) + chunk
            &&& dropped > 0 ==> after.pending.len() == 0
        }),
{
    lemma_absorb_keeps_bytes(state, chunk);
    let absorbed = state.absorb(chunk);
    let pending = absorbed.pending;
    let stripped = without_trailing_zeros(pending);
    let after = absorbed.settle();
    let dropped = padding_dropped(absorbed);
    lemma_without_trailing_zeros(pending);
    if stripped.len() == 0 {
        assert(pending =~= zeros(dropped));
    } else if checksum_ok(stripped) {
        assert(absorbed.frames.push(stripped).drop_last() =~= absorbed.frames);
        assert(pending =~= stripped + zeros(dropped));
        assert(all_bytes(after) + zeros(dropped) =~= all_bytes(absorbed));
    } else if stripped.len() < pending.len() && checksum_ok(stripped.push(0)) {
        assert(absorbed.frames.push(stripped.push(0)).drop_last() =~= absorbed.frames);
        assert(pending =~= stripped.push(0) + zeros(dropped));
        assert(all_bytes(after) + zeros(dropped) =~= all_bytes(absorbed));
    } else {
        assert(all_bytes(after) + zeros(dropped) =~= all_bytes(absorbed));
    }
}

} // verus!
