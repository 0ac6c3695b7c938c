//! The frame reassembler. The transport hands over fixed-size reports that cut
//! frames at arbitrary places and pad them with zero bytes; the queue puts the
//! frames together again and hands them out in arrival order.

use crate::checksum::checksum_ok;
use crate::checksum::is_checksum_ok;
use std::collections::VecDeque;
use vstd::prelude::*;
use vstd::slice::slice_subrange;
use vstd::slice::slice_to_vec;

verus! {

/// A byte with its top bit set begins a new frame.
pub open spec fn is_command_start(b: u8) -> bool {
    b >= 0x80
}

/// No byte of `bytes` begins a frame.
pub open spec fn no_command_start(bytes: Seq<u8>) -> bool {
    forall|i: int| 0 <= i < bytes.len() ==> !is_command_start(#[trigger] bytes[i])
}

/// `bytes` without the zero bytes at its end.
pub open spec fn without_trailing_zeros(bytes: Seq<u8>) -> Seq<u8>
    decreases bytes.len(),
{
    if bytes.len() > 0 && bytes.last() == 0 {
        without_trailing_zeros(bytes.drop_last())
    } else {
        bytes
    }
}

/// What a [`CommandQueue`] holds: the frames that are complete, oldest first,
/// and the bytes of the frame that is still arriving.
pub struct QueueState {
    pub frames: Seq<Seq<u8>>,
    pub pending: Seq<u8>,
}

impl QueueState {
    pub open spec fn empty() -> QueueState {
        QueueState { frames: Seq::empty(), pending: Seq::empty() }
    }

    /// The frames once the pending bytes, if there are any, are closed into a frame.
    pub open spec fn frames_closed(self) -> Seq<Seq<u8>> {
        if self.pending.len() > 0 {
            self.frames.push(self.pending)
        } else {
            self.frames
        }
    }

    /// One byte arrives: a frame start closes what was pending and begins the
    /// next frame, any other byte extends the pending frame.
    pub open spec fn absorb_byte(self, b: u8) -> QueueState {
        if is_command_start(b) {
            QueueState { frames: self.frames_closed(), pending: seq![b] }
        } else {
            QueueState { frames: self.frames, pending: self.pending.push(b) }
        }
    }

    /// The bytes of a chunk arrive one after the other.
    pub open spec fn absorb(self, bytes: Seq<u8>) -> QueueState
        decreases bytes.len(),
    {
        if bytes.len() == 0 {
            self
        } else {
            self.absorb(bytes.drop_last()).absorb_byte(bytes.last())
        }
    }

    /// At the end of a chunk the pending bytes are looked at without their
    /// trailing zeros, which may be padding. If nothing is left, the pending
    /// bytes are dropped. If what is left carries a valid checksum, it is a
    /// frame. If it does not, but does so with one of the zeros that were
    /// taken away put back behind it, that is the frame: its checksum was
    /// zero. No zero is put back where none was taken away. Otherwise the
    /// frame is still arriving and the pending bytes stay as they were.
    pub open spec fn settle(self) -> QueueState {
        let stripped = without_trailing_zeros(self.pending);
        if stripped.len() == 0 {
            QueueState { frames: self.frames, pending: Seq::empty() }
        } else if checksum_ok(stripped) {
            QueueState { frames: self.frames.push(stripped), pending: Seq::empty() }
        } else if stripped.len() < self.pending.len() && checksum_ok(stripped.push(0)) {
            QueueState { frames: self.frames.push(stripped.push(0)), pending: Seq::empty() }
        } else {
            self
        }
    }

    /// The state after one chunk.
    pub open spec fn fed(self, bytes: Seq<u8>) -> QueueState {
        self.absorb(bytes).settle()
    }

    /// The state after several chunks, fed one after the other.
    pub open spec fn fed_all(self, chunks: Seq<Seq<u8>>) -> QueueState
        decreases chunks.len(),
    {
        if chunks.len() == 0 {
            self
        } else {
            self.fed_all(chunks.drop_last()).fed(chunks.last())
        }
    }
}

/// Bytes without a frame start only extend the pending frame.
pub proof fn lemma_absorb_plain(state: QueueState, bytes: Seq<u8>)
    requires
        no_command_start(bytes),
    ensures
        state.absorb(bytes) == (QueueState {
            frames: state.frames,
            pending: state.pending + bytes,
        }),
    decreases bytes.len(),
{
    if bytes.len() == 0 {
        assert(state.pending + bytes =~= state.pending);
    } else {
        lemma_absorb_plain(state, bytes.drop_last());
        assert(!is_command_start(bytes[bytes.len() - 1]));
        assert((state.pending + bytes.drop_last()).push(bytes.last()) =~= state.pending + bytes);
    }
}

/// It makes no difference to the frames where a run of bytes is cut in two.
pub proof fn lemma_absorb_concat(state: QueueState, first: Seq<u8>, second: Seq<u8>)
    ensures
        state.absorb(first + second) == state.absorb(first).absorb(second),
    decreases second.len(),
{
    if second.len() == 0 {
        assert(first + second =~= first);
    } else {
        lemma_absorb_concat(state, first, second.drop_last());
        assert((first + second).drop_last() =~= first + second.drop_last());
        assert((first + second).last() == second.last());
    }
}

/// A span that begins with a frame start and holds no other closes what was
/// pending and becomes the pending frame itself.
pub proof fn lemma_absorb_span(state: QueueState, span: Seq<u8>)
    requires
        span.len() > 0,
        is_command_start(span[0]),
        no_command_start(span.skip(1)),
    ensures
        state.absorb(span) == (QueueState { frames: state.frames_closed(), pending: span }),
{
    let head = seq![span[0]];
    assert(head + span.skip(1) =~= span);
    lemma_absorb_concat(state, head, span.skip(1));
    assert(head.drop_last() =~= Seq::<u8>::empty());
    assert(state.absorb(head) == state.absorb(head.drop_last()).absorb_byte(head.last()));
    lemma_absorb_plain(state.absorb(head), span.skip(1));
}

/// What is left without the trailing zeros is the front of the bytes, ends
/// in no zero, and only zeros were taken away.
pub proof fn lemma_without_trailing_zeros(bytes: Seq<u8>)
    ensures
        without_trailing_zeros(bytes).len() <= bytes.len(),
        without_trailing_zeros(bytes) == bytes.take(without_trailing_zeros(bytes).len() as int),
        without_trailing_zeros(bytes).len() > 0 ==> without_trailing_zeros(bytes).last() != 0,
        forall|i: int|
            without_trailing_zeros(bytes).len() <= i < bytes.len() ==> #[trigger] bytes[i] == 0,
    decreases bytes.len(),
{
    if bytes.len() > 0 && bytes.last() == 0 {
        lemma_without_trailing_zeros(bytes.drop_last());
        let n = without_trailing_zeros(bytes).len() as int;
        assert(bytes.drop_last().take(n) =~= bytes.take(n));
        assert forall|i: int| n <= i < bytes.len() implies #[trigger] bytes[i] == 0 by {
            if i < bytes.len() - 1 {
                assert(bytes.drop_last()[i] == 0);
            }
        }
    } else {
        assert(bytes.take(bytes.len() as int) =~= bytes);
    }
}

/// Bytes with no frame start behind the first of them.
pub open spec fn is_piece(bytes: Seq<u8>) -> bool {
    forall|i: int| 1 <= i < bytes.len() ==> !is_command_start(#[trigger] bytes[i])
}

/// No frame in the queue is empty, and a frame start stands nowhere but at
/// the front of a frame or of the pending bytes.
pub open spec fn is_tidy(state: QueueState) -> bool {
    &&& is_piece(state.pending)
    &&& forall|i: int|
        0 <= i < state.frames.len() ==> (#[trigger] state.frames[i]).len() > 0 && is_piece(
            state.frames[i],
        )
}

proof fn lemma_absorb_keeps_tidy(state: QueueState, bytes: Seq<u8>)
    requires
        is_tidy(state),
    ensures
        is_tidy(state.absorb(bytes)),
    decreases bytes.len(),
{
    if bytes.len() > 0 {
        lemma_absorb_keeps_tidy(state, bytes.drop_last());
    }
}

proof fn lemma_settle_keeps_tidy(state: QueueState)
    requires
        is_tidy(state),
    ensures
        is_tidy(state.settle()),
{
    let stripped = without_trailing_zeros(state.pending);
    lemma_without_trailing_zeros(state.pending);
    assert forall|i: int| 1 <= i < stripped.len() implies !is_command_start(
        #[trigger] stripped[i],
    ) by {
        assert(stripped[i] == state.pending[i]);
    }
    assert forall|i: int| 1 <= i < stripped.push(0).len() implies !is_command_start(
        #[trigger] stripped.push(0)[i],
    ) by {
        if i < stripped.len() {
            assert(stripped.push(0)[i] == stripped[i]);
        }
    }
}

/// A new queue is tidy and every chunk leaves a tidy queue tidy: whatever
/// the transport delivers, the frames handed out are never empty and hold
/// no frame start behind their first byte.
pub proof fn lemma_fed_keeps_tidy(state: QueueState, chunk: Seq<u8>)
    requires
        is_tidy(state),
    ensures
        is_tidy(QueueState::empty()),
        is_tidy(state.fed(chunk)),
{
    lemma_absorb_keeps_tidy(state, chunk);
    lemma_settle_keeps_tidy(state.absorb(chunk));
}

/// Returns the index of the first byte in the slice where a new command starts. If no such byte is
/// found, `None` is returned.
pub fn index_of_command_start(bytes: &[u8]) -> (found: Option<usize>)
    ensures
        match found {
            Some(i) => {
                &&& i < bytes@.len()
                &&& is_command_start(bytes@[i as int])
                &&& no_command_start(bytes@.take(i as int))
            },
            None => no_command_start(bytes@),
        },
{
    let mut i: usize = 0;
    while i < bytes.len()
        invariant
            0 <= i <= bytes.len(),
            no_command_start(bytes@.take(i as int)),
        decreases bytes.len() - i,
    {
        let b = bytes[i];
        assert((b & 0x80 != 0x00) == (b >= 0x80)) by (bit_vector);
        if b & 0x80 != 0x00 {
            return Some(i);
        }
        proof {
            let seen = bytes@.take(i + 1);
            assert forall|j: int| 0 <= j < seen.len() implies !is_command_start(
                #[trigger] seen[j],
            ) by {
                if j < i {
                    assert(seen[j] == bytes@.take(i as int)[j]);
                }
            }
        }
        i += 1;
    }
    proof {
        assert(bytes@.take(i as int) =~= bytes@);
    }
    None
}

/// The reassembler: the frames that are complete, ready to be taken out
/// oldest first, and a holder for the bytes of the frame that is arriving.
#[derive(Clone, Debug, Eq, Hash, PartialEq)]
pub struct CommandQueue {
    queue: VecDeque<Vec<u8>>,
    holder: Vec<u8>,
}

impl View for CommandQueue {
    type V = QueueState;

    closed spec fn view(&self) -> QueueState {
        QueueState { frames: self.queue@.map_values(|frame: Vec<u8>| frame@), pending: self.holder@ }
    }
}

impl CommandQueue {
    /// A queue with no frame and nothing pending.
    pub fn new() -> (queue: Self)
        ensures
            queue@ == QueueState::empty(),
            is_tidy(queue@),
    {
        let queue = Self { queue: VecDeque::new(), holder: Vec::new() };
        proof {
            assert(queue@.frames =~= Seq::<Seq<u8>>::empty());
        }
        queue
    }

    /// Moves the holder's bytes to the end of the queue as one frame.
    fn enqueue_holder(&mut self)
        ensures
            final(self)@ == (QueueState {
                frames: old(self)@.frames.push(old(self)@.pending),
                pending: Seq::empty(),
            }),
    {
        let frame = slice_to_vec(self.holder.as_slice());
        self.queue.push_back(frame);
        self.holder.clear();
        proof {
            assert(self@.frames =~= old(self)@.frames.push(old(self)@.pending));
        }
    }

    /// Enqueues commands from the received byte buffer.
    pub fn add_from_buffer(&mut self, bytes: &[u8])
        ensures
            final(self)@ == old(self)@.fed(bytes@),
            is_tidy(old(self)@) ==> is_tidy(final(self)@),
    {
        proof {
            if is_tidy(old(self)@) {
                lemma_fed_keeps_tidy(old(self)@, bytes@);
            }
        }
        // the buffer may:
        // (1) start midway through a command
        // (2) end midway through a command
        // (3) contain trailing 0x00 bytes
        // try taking from the front first
        match index_of_command_start(bytes) {
            None => {
                // (1) is apparently true; (2) might be as well (check that later)
                // append the bytes to the holder
                self.holder.extend_from_slice(bytes);
                proof {
                    lemma_absorb_plain(old(self)@, bytes@);
                    assert(self.holder@ =~= old(self).holder@ + bytes@);
                }
            },
            Some(csi) => {
                // append everything until this index to the holder
                self.holder.extend_from_slice(slice_subrange(bytes, 0, csi));
                proof {
                    assert(bytes@.subrange(0, csi as int) =~= bytes@.take(csi as int));
                    lemma_absorb_plain(old(self)@, bytes@.take(csi as int));
                    assert(self.holder@ =~= old(self).holder@ + bytes@.take(csi as int));
                    assert(bytes@.take(csi + 1).drop_last() =~= bytes@.take(csi as int));
                }
                if self.holder.len() > 0 {
                    // the holder now contains a full command; shunt it to the queue
                    // (the command might be invalid checksum-wise, but it's better to forward
                    // it to the user than to silently drop it)
                    self.enqueue_holder();
                }
                // is there another command?
                let mut current_csi = csi;
                loop
                    invariant
                        csi <= current_csi < bytes.len(),
                        is_command_start(bytes@[current_csi as int]),
                        old(self)@.absorb(bytes@.take(current_csi + 1)) == (QueueState {
                            frames: self@.frames,
                            pending: seq![bytes@[current_csi as int]],
                        }),
                        self@.pending.len() == 0,
                    ensures
                        csi <= current_csi < bytes@.len(),
                        old(self)@.absorb(bytes@) == (QueueState {
                            frames: self@.frames,
                            pending: bytes@.subrange(current_csi as int, bytes@.len() as int),
                        }),
                        self@.pending.len() == 0,
                    decreases bytes@.len() - current_csi,
                {
                    let rest = slice_subrange(bytes, current_csi + 1, bytes.len());
                    let ghost seen = bytes@.take(current_csi + 1);
                    let next = index_of_command_start(rest);
                    match next {
                        None => {
                            proof {
                                assert(seen + rest@ =~= bytes@);
                                lemma_absorb_concat(old(self)@, seen, rest@);
                                lemma_absorb_plain(old(self)@.absorb(seen), rest@);
                                assert(seq![bytes@[current_csi as int]] + rest@ =~= bytes@.subrange(
                                    current_csi as int,
                                    bytes@.len() as int,
                                ));
                            }
                            break ;
                        },
                        Some(next_csi_offset) => {
                            // yes
                            let next_csi = current_csi + 1 + next_csi_offset;
                            let frame = slice_to_vec(slice_subrange(bytes, current_csi, next_csi));
                            proof {
                                let gap = rest@.take(next_csi_offset as int);
                                assert(seen + gap =~= bytes@.take(next_csi as int));
                                lemma_absorb_concat(old(self)@, seen, gap);
                                lemma_absorb_plain(old(self)@.absorb(seen), gap);
                                assert(seq![bytes@[current_csi as int]] + gap =~= frame@);
                                assert(bytes@.take(next_csi + 1).drop_last() =~= bytes@.take(
                                    next_csi as int,
                                ));
                                assert(rest@[next_csi_offset as int] == bytes@[next_csi as int]);
                            }
                            let ghost before = self@;
                            self.queue.push_back(frame);
                            proof {
                                assert(self@.frames =~= before.frames.push(frame@));
                            }
                            current_csi = next_csi;
                        },
                    }
                }
                // place the rest into the holder
                self.holder.extend_from_slice(slice_subrange(bytes, current_csi, bytes.len()));
                proof {
                    assert(self.holder@ =~= bytes@.subrange(
                        current_csi as int,
                        bytes@.len() as int,
                    ));
                }
            },
        }
        self.settle_holder();
    }

    /// Decides at the end of a chunk whether the holder is a complete frame
    /// once its trailing zeros, or all but one of them, are taken for padding.
    fn settle_holder(&mut self)
        ensures
            final(self)@ == old(self)@.settle(),
    {
        // try shaving off the zeroes in the holder
        let prev_holder_len = self.holder.len();
        while self.holder.len() > 0 && self.holder[self.holder.len() - 1] == 0x00
            invariant
                self.queue@ == old(self).queue@,
                self.holder@.len() <= prev_holder_len,
                prev_holder_len == old(self).holder@.len(),
                self.holder@ == old(self).holder@.take(self.holder@.len() as int),
                without_trailing_zeros(self.holder@) == without_trailing_zeros(old(self).holder@),
                forall|i: int|
                    self.holder@.len() <= i < prev_holder_len ==> #[trigger] old(self).holder@[i]
                        == 0,
            decreases self.holder@.len(),
        {
            proof {
                assert(self.holder@.drop_last() =~= old(self).holder@.take(
                    self.holder@.len() - 1,
                ));
            }
            self.holder.truncate(self.holder.len() - 1);
        }

        if self.holder.len() == 0 {
            // the holder is empty; all commands are enqueued
            // everything is coming up daisies
            proof {
                assert(self.holder@ =~= Seq::<u8>::empty());
            }
            return ;
        }
        if is_checksum_ok(self.holder.as_slice()) {
            // that's a finished command; enqueue it as well!
            self.enqueue_holder();
        } else if prev_holder_len == self.holder.len() {
            // no zero was shaved off, so the command is still arriving
            proof {
                assert(self.holder@ =~= old(self).holder@);
            }
        } else {
            // oops, despite the trailing zeroes, that was not a complete command
            // maybe we were just unlucky and the checksum was a zero byte
            // try that with one of the zeroes
            let ghost stripped = self.holder@;
            self.holder.push(0x00);
            let ghost extended = self.holder@;

            if is_checksum_ok(self.holder.as_slice()) {
                // well that's a stone off my chest
                self.enqueue_holder();
            } else {
                // put those zeroes back
                self.holder.resize(prev_holder_len, 0);
                proof {
                    let restored = self.holder@;
                    let untouched = old(self).holder@;
                    assert forall|i: int| 0 <= i < untouched.len() implies restored[i]
                        == untouched[i] by {
                        if i < stripped.len() {
                            assert(extended[i] == stripped[i]);
                            if prev_holder_len > extended.len() {
                                assert(restored.subrange(0, extended.len() as int)[i]
                                    == restored[i]);
                            }
                        } else if i == stripped.len() {
                            assert(extended[i] == 0);
                            assert(restored.subrange(0, extended.len() as int)[i]
                                == restored[i]);
                        } else {
                            assert(cloned::<u8>(0u8, restored[i]));
                        }
                    }
                    assert(restored =~= untouched);
                }
            }
        }
    }

    /// Attempts to dequeue and return a command.
    pub fn dequeue_command(&mut self) -> (command: Option<Vec<u8>>)
        ensures
            match command {
                Some(frame) => {
                    &&& old(self)@.frames.len() > 0
                    &&& frame@ == old(self)@.frames[0]
                    &&& final(self)@ == (QueueState {
                        frames: old(self)@.frames.skip(1),
                        pending: old(self)@.pending,
                    })
                },
                None => old(self)@.frames.len() == 0 && final(self)@ == old(self)@,
            },
            is_tidy(old(self)@) ==> is_tidy(final(self)@),
    {
        let command = self.queue.pop_front();
        proof {
            if command is Some {
                assert(self@.frames =~= old(self)@.frames.skip(1));
            }
        }
        command
    }
}

} // verus!
