//! The two halves of the queue, as plain values: the block that senders fill, and the block that
//! the receiver empties.
//!
//! [`SendHalf`] and [`RecvHalf`] hold all the rules of the queue. The handles
//! ([`Sender`](crate::Sender), [`Receiver`](crate::Receiver)) only find the halves and call them.

use crate::block::{Block, BlockView, SEALED};
use crate::error::{TrySendError, TrySendErrorType};
use crate::laws::{law_batch_not_empty, law_drain, law_finish_keeps, law_may_rx, law_start_keeps};
use vstd::prelude::*;

verus! {

/// What the sending half holds: the block that senders fill, or nothing once the receiver is gone.
#[verifier::ext_equal]
pub struct SendView<T> {
    pub block: Option<BlockView<T>>,
}

impl<T> SendView<T> {
    /// A sending half whose block has `capacity` free slots.
    pub open spec fn empty(capacity: nat) -> Self {
        SendView { block: Some(BlockView::empty(capacity)) }
    }

    /// A sending half that refuses everything.
    pub open spec fn closed() -> Self {
        SendView { block: None }
    }

    pub open spec fn is_closed(self) -> bool {
        self.block is None
    }

    /// The block, if there is one, has `capacity` slots.
    pub open spec fn sized(self, capacity: nat) -> bool {
        self.block matches Some(b) ==> b.capacity() == capacity
    }

    /// The block, if there is one, is open to senders and has a value in every published slot.
    pub open spec fn wf(self) -> bool {
        self.block matches Some(b) ==> {
            &&& b.wf()
            &&& !b.sealed()
            &&& b.filled(0, b.written as int)
        }
    }

    /// No sender is in the middle of a send.
    pub open spec fn quiet(self) -> bool {
        self.block matches Some(b) ==> b.quiet()
    }

    /// The published values, in the order in which they were sent.
    pub open spec fn pending(self) -> Seq<T> {
        match self.block {
            Some(b) => b.items(0, b.written as int),
            None => Seq::empty(),
        }
    }

    /// There is something for the receiver to fetch.
    pub open spec fn non_empty(self) -> bool {
        self.block matches Some(b) && b.written != 0
    }

    /// Every slot is claimed.
    pub open spec fn full(self) -> bool {
        self.block matches Some(b) && b.locked == b.capacity()
    }

    /// What sending `value` leaves behind, and what it answers.
    pub open spec fn try_send(self, value: T) -> (Self, Result<(), TrySendError<T>>) {
        match self.block {
            None => (self, Err(TrySendError { value, ty: TrySendErrorType::Closed })),
            Some(b) => if b.has_room() {
                (SendView { block: Some(b.push(value)) }, Ok(()))
            } else {
                (self, Err(TrySendError { value, ty: TrySendErrorType::Full }))
            },
        }
    }

    /// The count of claimed slots, or [`SEALED`] when closed.
    pub open spec fn watermark(self) -> nat {
        match self.block {
            Some(b) => b.locked,
            None => SEALED as nat,
        }
    }
}

/// What the receiving half holds: a block, how many of its slots had been claimed when it was
/// fetched from the senders, and how many have been consumed.
#[verifier::ext_equal]
pub struct RecvView<T> {
    pub locked: nat,
    pub consumed: nat,
    pub block: BlockView<T>,
}

impl<T> RecvView<T> {
    /// A receiving half whose block has `capacity` free slots.
    pub open spec fn empty(capacity: nat) -> Self {
        RecvView { locked: 0, consumed: 0, block: BlockView::empty(capacity) }
    }

    pub open spec fn capacity(self) -> nat {
        self.block.capacity()
    }

    /// The counts are in order, the block is sealed or unused, and every slot that is published
    /// and not consumed holds a value.
    pub open spec fn wf(self) -> bool {
        &&& self.block.wf()
        &&& self.consumed <= self.block.written <= self.locked <= self.capacity()
        &&& self.block.filled(self.consumed as int, self.block.written as int)
        &&& self.block.sealed() || self.block.locked == self.locked == 0
    }

    /// No sender is still at work on the block.
    pub open spec fn quiet(self) -> bool {
        self.block.written == self.locked
    }

    /// The values that can be received from the block, in order.
    pub open spec fn pending(self) -> Seq<T> {
        self.block.items(self.consumed as int, self.block.written as int)
    }

    /// The block is entirely consumed.
    pub open spec fn current_consumed(self) -> bool {
        self.consumed == self.locked && self.consumed == self.block.written
    }

    /// A block that is entirely consumed has also been reset.
    pub open spec fn settled(self) -> bool {
        self.current_consumed() ==> self.block.written == 0
    }

    /// The block is made ready for senders.
    pub open spec fn finalize(self) -> Self {
        RecvView { locked: 0, consumed: 0, block: self.block.reset() }
    }

    /// The next value is taken.
    pub open spec fn advance(self) -> Self {
        RecvView {
            consumed: self.consumed + 1,
            block: self.block.take(self.consumed as int),
            ..self
        }
    }

    /// Takes the next value of a batch that ends at slot `limit`.
    pub open spec fn next(self, limit: nat) -> (Self, Option<T>) {
        if self.consumed < limit {
            (self.advance(), Some(self.block.slots[self.consumed as int]->0))
        } else {
            (self, None)
        }
    }

    /// Every value of a batch that ends at slot `limit` is taken.
    pub open spec fn drain_to(self, limit: nat) -> Self {
        RecvView {
            consumed: limit,
            block: self.block.clear(self.consumed as int, limit as int),
            ..self
        }
    }

    /// Every value that can be received is taken.
    pub open spec fn drain(self) -> Self {
        self.drain_to(self.block.written)
    }

    /// Every value that can be received is discarded, and the block made ready for use.
    pub open spec fn discard(self) -> Self {
        RecvView {
            locked: 0,
            consumed: 0,
            block: self.block.clear(self.consumed as int, self.block.written as int).reset(),
        }
    }
}

/// Both halves of a queue.
#[verifier::ext_equal]
pub struct QueueView<T> {
    pub rx: RecvView<T>,
    pub tx: SendView<T>,
}

impl<T> QueueView<T> {
    /// A queue whose blocks have `capacity` slots each.
    pub open spec fn empty(capacity: nat) -> Self {
        QueueView { rx: RecvView::empty(capacity), tx: SendView::empty(capacity) }
    }

    /// Each half is in order, and their blocks have the same size.
    pub open spec fn wf(self) -> bool {
        self.rx.wf() && self.tx.wf() && self.tx.sized(self.rx.capacity())
    }

    /// No sender is in the middle of a send.
    pub open spec fn quiet(self) -> bool {
        self.rx.quiet() && self.tx.quiet()
    }

    /// The values sent and not yet received, oldest first.
    pub open spec fn queue(self) -> Seq<T> {
        self.rx.pending() + self.tx.pending()
    }

    /// The receiver has nothing left in its block, and the senders have something.
    pub open spec fn should_swap(self) -> bool {
        self.rx.current_consumed() && self.tx.non_empty()
    }

    /// The receiver hands its block to the senders, emptied, and takes theirs, sealed.
    pub open spec fn swap(self) -> Self {
        match self.tx.block {
            Some(b) => QueueView {
                rx: RecvView { locked: b.locked, consumed: 0, block: b.seal() },
                tx: SendView { block: Some(self.rx.finalize().block) },
            },
            None => self,
        }
    }

    /// The receiver begins a batch.
    pub open spec fn start(self) -> Self {
        if self.should_swap() {
            self.swap()
        } else {
            self
        }
    }

    /// The receiver is done with a batch.
    pub open spec fn finish(self) -> Self {
        if self.should_swap() {
            self.swap()
        } else if self.rx.current_consumed() {
            QueueView { rx: self.rx.finalize(), ..self }
        } else {
            self
        }
    }

    /// The swap takes a block without room, so that senders may be waiting for one with room.
    pub open spec fn frees_room(self) -> bool {
        self.should_swap() && self.tx.full()
    }

    /// The receiver goes: the senders' block is taken away and every value is dropped.
    pub open spec fn close(self) -> Self {
        QueueView { rx: self.rx.discard(), tx: SendView::closed() }
    }

    /// Something can still be received, or some sender could still send it.
    pub open spec fn may_rx(self, has_senders: bool) -> bool {
        has_senders || self.rx.block.written != 0 || self.tx.non_empty()
    }
}

/// The queue made of two halves.
pub open spec fn queue_of<T>(rx: RecvHalf<T>, tx: SendHalf<T>) -> QueueView<T> {
    QueueView { rx: rx@, tx: tx@ }
}

/// The half that senders fill.
#[verifier::reject_recursive_types(T)]
pub struct SendHalf<T> {
    block: Option<Block<T>>,
}

impl<T> View for SendHalf<T> {
    type V = SendView<T>;

    closed spec fn view(&self) -> SendView<T> {
        SendView {
            block: match self.block {
                Some(b) => Some(b@),
                None => None,
            },
        }
    }
}

impl<T> SendHalf<T> {
    /// A sending half whose block has `capacity` free slots.
    pub fn new(capacity: u32) -> (half: Self)
        requires
            0 < capacity < SEALED,
        ensures
            half@ == SendView::<T>::empty(capacity as nat),
            half@.wf(),
            half@.quiet(),
            half@.sized(capacity as nat),
    {
        SendHalf { block: Some(Block::new(capacity)) }
    }

    /// Sends `value`, unless there is no room or no receiver: then the value comes back.
    pub fn try_send(&mut self, value: T) -> (done: Result<(), TrySendError<T>>)
        requires
            old(self)@.wf(),
            old(self)@.quiet(),
        ensures
            (final(self)@, done) == old(self)@.try_send(value),
            final(self)@.wf(),
            final(self)@.quiet(),
            forall|capacity: nat|
                old(self)@.sized(capacity) ==> #[trigger] final(self)@.sized(capacity),
    {
        match &mut self.block {
            None => Err(TrySendError { value, ty: TrySendErrorType::Closed }),
            Some(block) => match block.push(value) {
                Ok(()) => Ok(()),
                Err(value) => Err(TrySendError { value, ty: TrySendErrorType::Full }),
            },
        }
    }

    /// Exchanges the block for another one, unless the half is closed: then nothing changes.
    pub fn swap_block(&mut self, block: &mut Block<T>) -> (swapped: bool)
        ensures
            swapped == !old(self)@.is_closed(),
            swapped ==> final(self)@.block == Some(old(block)@) && old(self)@.block == Some(
                final(block)@,
            ),
            !swapped ==> final(self)@ == old(self)@ && *final(block) == *old(block),
    {
        match &mut self.block {
            None => false,
            Some(current) => {
                std::mem::swap(current, block);
                true
            },
        }
    }

    /// Takes the block away, which closes the half. `None`: it was closed before.
    pub fn take_block(&mut self) -> (block: Option<Block<T>>)
        ensures
            final(self)@ == SendView::<T>::closed(),
            block is Some == !old(self)@.is_closed(),
            block matches Some(b) ==> old(self)@.block == Some(b@),
    {
        self.block.take()
    }

    /// Whether there is something for the receiver to fetch.
    pub fn non_empty(&self) -> (some: bool)
        ensures
            some == self@.non_empty(),
    {
        match &self.block {
            None => false,
            Some(block) => block.get_written() != 0,
        }
    }

    /// Whether every slot is claimed, so that senders may be waiting for room.
    pub fn is_full(&self) -> (full: bool)
        requires
            self@.wf(),
        ensures
            full == self@.full(),
    {
        match &self.block {
            None => false,
            Some(block) => block.get_locked() == block.capacity(),
        }
    }

    /// The count of claimed slots, or [`SEALED`] when closed.
    pub fn watermark(&self) -> (locked: u32)
        ensures
            locked == self@.watermark(),
    {
        match &self.block {
            None => SEALED,
            Some(block) => block.get_locked(),
        }
    }
}

/// The half that the receiver empties.
#[verifier::reject_recursive_types(T)]
pub struct RecvHalf<T> {
    /// The count of slots of `block` that were claimed when it was fetched.
    locked: u32,
    /// The count of slots of `block` whose values have been given away.
    consumed: u32,
    block: Block<T>,
}

impl<T> View for RecvHalf<T> {
    type V = RecvView<T>;

    closed spec fn view(&self) -> RecvView<T> {
        RecvView {
            locked: self.locked as nat,
            consumed: self.consumed as nat,
            block: self.block@,
        }
    }
}

impl<T> RecvHalf<T> {
    /// A receiving half whose block has `capacity` free slots.
    pub fn new(capacity: u32) -> (half: Self)
        requires
            0 < capacity < SEALED,
        ensures
            half@ == RecvView::<T>::empty(capacity as nat),
            half@.wf(),
            half@.quiet(),
            half@.settled(),
    {
        RecvHalf { locked: 0, consumed: 0, block: Block::new(capacity) }
    }

    /// Whether the block is entirely consumed.
    pub fn current_consumed(&self) -> (consumed: bool)
        ensures
            consumed == self@.current_consumed(),
    {
        let written = self.block.get_written();
        self.consumed == self.locked && self.consumed == written
    }

    /// Whether nothing of the block has been consumed.
    pub fn current_unconsumed(&self) -> (unconsumed: bool)
        ensures
            unconsumed == (self@.consumed == 0),
    {
        self.consumed == 0
    }

    /// Makes an entirely consumed block ready for senders.
    pub fn finalize_current(&mut self)
        requires
            old(self)@.wf(),
            old(self)@.current_consumed(),
        ensures
            final(self)@ == old(self)@.finalize(),
            final(self)@.wf(),
    {
        self.block.reset();
        self.consumed = 0;
        self.locked = 0;
    }

    /// Whether the block is entirely consumed while the senders have published something.
    pub fn should_swap(&self, send: &SendHalf<T>) -> (swap: bool)
        ensures
            swap == queue_of(*self, *send).should_swap(),
    {
        self.current_consumed() && send.non_empty()
    }

    /// Hands the consumed block to the senders and takes theirs. Returns whether the block taken
    /// had no room, so that senders may be waiting.
    pub fn swap_blocks(&mut self, send: &mut SendHalf<T>) -> (was_full: bool)
        requires
            queue_of(*old(self), *old(send)).wf(),
            old(self)@.current_consumed(),
            !old(send)@.is_closed(),
        ensures
            queue_of(*final(self), *final(send)) == queue_of(*old(self), *old(send)).swap(),
            queue_of(*final(self), *final(send)).wf(),
            final(self)@.capacity() == old(self)@.capacity(),
            was_full == old(send)@.full(),
    {
        self.finalize_current();
        let swapped = send.swap_block(&mut self.block);
        assert(swapped);
        self.locked = self.block.mark_locked();
        self.locked == self.block.capacity()
    }

    /// Begins a batch: a receiver with nothing left fetches what the senders have published.
    /// Returns whether senders may be waiting for the room that this made.
    pub fn start(&mut self, send: &mut SendHalf<T>) -> (wake: bool)
        requires
            queue_of(*old(self), *old(send)).wf(),
        ensures
            queue_of(*final(self), *final(send)) == queue_of(*old(self), *old(send)).start(),
            queue_of(*final(self), *final(send)).wf(),
            final(self)@.capacity() == old(self)@.capacity(),
            queue_of(*old(self), *old(send)).quiet() ==> queue_of(
                *final(self),
                *final(send),
            ).quiet(),
            wake == queue_of(*old(self), *old(send)).frees_room(),
    {
        if self.should_swap(send) {
            self.swap_blocks(send)
        } else {
            false
        }
    }

    /// Takes the next value of a batch that ends at slot `limit`.
    pub fn next(&mut self, limit: u32) -> (it: Option<T>)
        requires
            old(self)@.wf(),
            limit <= old(self)@.block.written,
        ensures
            (final(self)@, it) == old(self)@.next(limit as nat),
            final(self)@.wf(),
    {
        let next = self.consumed;
        if next >= limit {
            return None;
        }
        self.consumed = next + 1;
        Some(self.block.take(next))
    }

    /// Ends a batch. A receiver with nothing left fetches what the senders have published, so that
    /// the next batch is likely to be full, or else makes its block ready for senders. Returns
    /// whether senders may be waiting for the room that this made.
    pub fn finish(&mut self, send: &mut SendHalf<T>) -> (wake: bool)
        requires
            queue_of(*old(self), *old(send)).wf(),
        ensures
            queue_of(*final(self), *final(send)) == queue_of(*old(self), *old(send)).finish(),
            queue_of(*final(self), *final(send)).wf(),
            final(self)@.capacity() == old(self)@.capacity(),
            queue_of(*old(self), *old(send)).quiet() ==> queue_of(
                *final(self),
                *final(send),
            ).quiet(),
            final(self)@.settled(),
            wake == queue_of(*old(self), *old(send)).frees_room(),
    {
        if self.should_swap(send) {
            self.swap_blocks(send)
        } else {
            if self.current_consumed() {
                self.finalize_current();
            }
            false
        }
    }

    /// The count of published slots.
    pub fn get_written(&self) -> (written: u32)
        ensures
            written == self@.block.written,
    {
        self.block.get_written()
    }

    /// The count of slots consumed.
    pub fn get_consumed(&self) -> (consumed: u32)
        ensures
            consumed == self@.consumed,
    {
        self.consumed
    }

    /// Whether something can still be received, or some sender could still send it.
    pub fn may_rx(&self, has_senders: bool, send: &SendHalf<T>) -> (may: bool)
        ensures
            may == queue_of(*self, *send).may_rx(has_senders),
    {
        has_senders || self.block.get_written() != 0 || send.non_empty()
    }

    /// Drops every value that can be received, and makes the block ready for use.
    pub fn discard_current(&mut self)
        requires
            old(self)@.wf(),
            old(self)@.quiet(),
        ensures
            final(self)@ == old(self)@.discard(),
            final(self)@.wf(),
            final(self)@.quiet(),
            final(self)@.capacity() == old(self)@.capacity(),
    {
        assert(self.block@.written >= self.locked);
        self.block.drop_range_in_place(self.consumed, self.locked);
        self.block.reset();
        self.consumed = 0;
        self.locked = 0;
    }

    /// Drops every value that has not been received: those of `shared`, the block that was taken
    /// away from the senders, and those of this half.
    pub fn deallocate_blocks(&mut self, shared: Block<T>)
        requires
            old(self)@.wf(),
            old(self)@.quiet(),
            shared@.wf(),
            shared@.quiet(),
        ensures
            final(self)@ == old(self)@.discard(),
            final(self)@.wf(),
            final(self)@.quiet(),
            final(self)@.capacity() == old(self)@.capacity(),
    {
        let mut shared = shared;
        let shared_locked = shared.mark_locked();
        assert(shared@.written >= shared_locked);
        shared.drop_range_in_place(0, shared_locked);
        shared.reset();
        self.discard_current();
    }

    /// Takes every value that can be received from the block.
    pub fn drain_into(&mut self, out: &mut Vec<T>)
        requires
            old(self)@.wf(),
        ensures
            final(self)@ == old(self)@.drain(),
            final(self)@.wf(),
            final(out)@ == old(out)@ + old(self)@.pending(),
    {
        let written = self.block.get_written();
        while self.consumed < written
            invariant
                old(self)@.wf(),
                self@.wf(),
                written == old(self)@.block.written,
                old(self)@.consumed <= self@.consumed <= written,
                self@ == old(self)@.drain_to(self@.consumed),
                out@ == old(out)@ + old(self)@.block.items(
                    old(self)@.consumed as int,
                    self@.consumed as int,
                ),
            decreases written - self.consumed,
        {
            if let Some(it) = self.next(written) {
                out.push(it);
            }
            proof {
                let first = old(self)@.consumed as int;
                assert(self@.block.slots =~= old(self)@.block.clear(
                    first,
                    self@.consumed as int,
                ).slots);
                assert(out@ =~= old(out)@ + old(self)@.block.items(first, self@.consumed as int));
            }
        }
    }

    /// Receives everything, once nobody sends any more: batch after batch, each to its end, until
    /// nothing more can come.
    pub fn rx_all(&mut self, send: &mut SendHalf<T>) -> (out: Vec<T>)
        requires
            queue_of(*old(self), *old(send)).wf(),
            queue_of(*old(self), *old(send)).quiet(),
        ensures
            out@ == queue_of(*old(self), *old(send)).queue(),
            queue_of(*final(self), *final(send)).wf(),
            queue_of(*final(self), *final(send)).quiet(),
            queue_of(*final(self), *final(send)).queue() == Seq::<T>::empty(),
            !queue_of(*final(self), *final(send)).may_rx(false),
            final(self)@.capacity() == old(self)@.capacity(),
    {
        let mut out: Vec<T> = Vec::new();
        let ghost all = queue_of(*self, *send).queue();
        let mut more = true;
        while more
            invariant
                queue_of(*self, *send).wf(),
                queue_of(*self, *send).quiet(),
                self@.capacity() == old(self)@.capacity(),
                out@ + queue_of(*self, *send).queue() == all,
                !more ==> self@.settled() && !queue_of(*self, *send).may_rx(false),
            decreases queue_of(*self, *send).queue().len(), more as int,
        {
            let ghost before = queue_of(*self, *send);
            let ghost so_far = out@;
            self.start(send);
            proof {
                law_start_keeps(before);
                if before.queue().len() > 0 {
                    law_batch_not_empty(before);
                }
                law_drain(queue_of(*self, *send));
            }
            self.drain_into(&mut out);
            let ghost drained = queue_of(*self, *send);
            self.finish(send);
            proof {
                law_finish_keeps(drained);
                law_may_rx(drained.finish());
                assert(out@ + drained.queue() =~= so_far + before.queue());
            }
            more = self.may_rx(false, send);
        }
        proof {
            law_may_rx(queue_of(*self, *send));
            assert(out@ =~= all);
        }
        out
    }
}

} // verus!
