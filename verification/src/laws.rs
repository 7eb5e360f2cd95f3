//! What holds of the queue as a whole.

use crate::error::{TrySendError, TrySendErrorType};
use crate::halves::QueueView;
use vstd::prelude::*;

verus! {

/// One operation on a queue.
pub enum QueueOp<T> {
    /// A sender tries to send the value.
    Send(T),
    /// The receiver begins a batch.
    Start,
    /// The receiver takes the next value.
    Next,
    /// The receiver ends a batch.
    Finish,
    /// The receiver goes away.
    Close,
}

/// A queue and what has become of its values: those it accepted and those it gave out, in the order
/// in which that happened, and those it dropped, oldest first.
#[verifier::ext_equal]
pub struct HistoryView<T> {
    pub queue: QueueView<T>,
    pub accepted: Seq<T>,
    pub received: Seq<T>,
    pub dropped: Seq<T>,
}

impl<T> HistoryView<T> {
    /// A new queue.
    pub open spec fn empty(capacity: nat) -> Self {
        HistoryView {
            queue: QueueView::empty(capacity),
            accepted: Seq::empty(),
            received: Seq::empty(),
            dropped: Seq::empty(),
        }
    }

    /// The history after one operation.
    pub open spec fn step(self, op: QueueOp<T>) -> Self {
        match op {
            QueueOp::Send(value) => {
                let (tx, answer) = self.queue.tx.try_send(value);
                HistoryView {
                    queue: QueueView { tx, ..self.queue },
                    accepted: if answer is Ok {
                        self.accepted.push(value)
                    } else {
                        self.accepted
                    },
                    ..self
                }
            },
            QueueOp::Start => HistoryView { queue: self.queue.start(), ..self },
            QueueOp::Next => {
                let (rx, it) = self.queue.rx.next(self.queue.rx.block.written);
                HistoryView {
                    queue: QueueView { rx, ..self.queue },
                    received: match it {
                        Some(value) => self.received.push(value),
                        None => self.received,
                    },
                    ..self
                }
            },
            QueueOp::Finish => HistoryView { queue: self.queue.finish(), ..self },
            QueueOp::Close => HistoryView {
                queue: self.queue.close(),
                dropped: self.dropped + self.queue.queue(),
                ..self
            },
        }
    }

    /// The history after several operations.
    pub open spec fn run(self, ops: Seq<QueueOp<T>>) -> Self
        decreases ops.len(),
    {
        if ops.len() == 0 {
            self
        } else {
            self.run(ops.drop_last()).step(ops.last())
        }
    }

    /// The halves are in order, and every accepted value has been received, or dropped, or is
    /// still in the queue: once, and in the order in which the values were accepted.
    pub open spec fn inv(self, capacity: nat) -> bool {
        &&& self.queue.wf()
        &&& self.queue.quiet()
        &&& self.queue.rx.capacity() == capacity
        &&& self.accepted == self.received + self.dropped + self.queue.queue()
        &&& self.dropped.len() > 0 ==> self.queue.tx.is_closed() && self.queue.queue().len() == 0
    }
}

/// An accepted value joins the queue at its end; a refused one comes back and changes nothing.
pub proof fn law_send_appends<T>(q: QueueView<T>, value: T)
    requires
        q.wf(),
        q.quiet(),
    ensures
        ({
            let (tx, answer) = q.tx.try_send(value);
            let after = QueueView { tx, ..q };
            &&& after.wf()
            &&& after.quiet()
            &&& answer is Ok ==> after.queue() == q.queue().push(value)
            &&& answer matches Err(e) ==> after == q && e.value == value
        }),
{
    let (tx, answer) = q.tx.try_send(value);
    if answer is Ok {
        let b = q.tx.block->0;
        let c = tx.block->0;
        assert forall|i: int| 0 <= i < c.written implies (#[trigger] c.slots[i]) is Some by {
            if i < b.written {
                assert(b.slots[i] is Some);
            }
        }
        assert(tx.pending() =~= q.tx.pending().push(value));
        let after = QueueView { tx, ..q };
        assert(after.queue() =~= q.queue().push(value));
    }
}

/// Beginning a batch loses no value, doubles none and keeps their order.
pub proof fn law_start_keeps<T>(q: QueueView<T>)
    requires
        q.wf(),
    ensures
        q.start().wf(),
        q.quiet() ==> q.start().quiet(),
        q.start().queue() == q.queue(),
        q.start().rx.capacity() == q.rx.capacity(),
{
    assert(q.start().queue() =~= q.queue());
}

/// Ending a batch loses no value, doubles none and keeps their order, and leaves the receiver
/// settled.
pub proof fn law_finish_keeps<T>(q: QueueView<T>)
    requires
        q.wf(),
    ensures
        q.finish().wf(),
        q.quiet() ==> q.finish().quiet(),
        q.finish().queue() == q.queue(),
        q.finish().rx.capacity() == q.rx.capacity(),
        q.finish().rx.settled(),
{
    assert(q.finish().queue() =~= q.queue());
}

/// Receiving takes the oldest value of the queue, and only that one.
pub proof fn law_next_takes_oldest<T>(q: QueueView<T>)
    requires
        q.wf(),
        q.rx.pending().len() > 0,
    ensures
        ({
            let (rx, it) = q.rx.next(q.rx.block.written);
            let after = QueueView { rx, ..q };
            &&& it == Some(q.queue()[0])
            &&& after.queue() == q.queue().drop_first()
            &&& after.wf()
            &&& q.quiet() ==> after.quiet()
            &&& rx.pending() == q.rx.pending().drop_first()
        }),
{
    let (rx, it) = q.rx.next(q.rx.block.written);
    let after = QueueView { rx, ..q };
    assert(rx.pending() =~= q.rx.pending().drop_first());
    assert(after.queue() =~= q.queue().drop_first());
}

/// When the receiver goes, nothing is left in the queue and it is closed.
pub proof fn law_close_empties<T>(q: QueueView<T>)
    requires
        q.wf(),
        q.quiet(),
    ensures
        q.close().wf(),
        q.close().quiet(),
        q.close().queue() == Seq::<T>::empty(),
        q.close().tx.is_closed(),
        q.close().rx.capacity() == q.rx.capacity(),
{
    assert(q.close().queue() =~= Seq::<T>::empty());
}

proof fn lemma_step_keeps<T>(h: HistoryView<T>, op: QueueOp<T>, capacity: nat)
    requires
        h.inv(capacity),
    ensures
        h.step(op).inv(capacity),
{
    let next = h.step(op);
    match op {
        QueueOp::Send(value) => {
            law_send_appends(h.queue, value);
            assert(next.accepted =~= next.received + next.dropped + next.queue.queue());
        },
        QueueOp::Start => {
            law_start_keeps(h.queue);
        },
        QueueOp::Next => {
            if h.queue.rx.pending().len() > 0 {
                law_next_takes_oldest(h.queue);
                assert(h.dropped =~= Seq::<T>::empty());
                assert(next.accepted =~= next.received + next.dropped + next.queue.queue());
            }
        },
        QueueOp::Finish => {
            law_finish_keeps(h.queue);
        },
        QueueOp::Close => {
            law_close_empties(h.queue);
            assert(next.accepted =~= next.received + next.dropped + next.queue.queue());
        },
    }
}

/// First in, first out, exactly once. Whatever is done with a new queue, in whatever order, the
/// values accepted are those received, then those dropped when the receiver went, then those still
/// in the queue.
pub proof fn law_fifo<T>(capacity: nat, ops: Seq<QueueOp<T>>)
    requires
        0 < capacity < crate::block::SEALED,
    ensures
        HistoryView::<T>::empty(capacity).run(ops).inv(capacity),
    decreases ops.len(),
{
    let start = HistoryView::<T>::empty(capacity);
    if ops.len() > 0 {
        law_fifo(capacity, ops.drop_last());
        lemma_step_keeps(start.run(ops.drop_last()), ops.last(), capacity);
    } else {
        assert(start.accepted =~= start.received + start.dropped + start.queue.queue());
    }
}

/// A send is refused exactly when the channel is closed, and then as closed, or when as many
/// values wait in the sending block as it has slots, and then as full.
pub proof fn law_when_refused<T>(q: QueueView<T>, value: T)
    requires
        q.wf(),
        q.quiet(),
    ensures
        ({
            let answer = q.tx.try_send(value).1;
            let waiting = q.tx.pending().len();
            &&& answer == Err::<(), _>(TrySendError { value, ty: TrySendErrorType::Closed })
                <==> q.tx.is_closed()
            &&& answer == Err::<(), _>(TrySendError { value, ty: TrySendErrorType::Full })
                <==> !q.tx.is_closed() && waiting == q.rx.capacity()
            &&& answer == Ok::<(), TrySendError<T>>(()) <==> !q.tx.is_closed() && waiting
                < q.rx.capacity()
        }),
{
}

/// The two blocks bound what the queue can hold.
pub proof fn law_bounded<T>(q: QueueView<T>)
    requires
        q.wf(),
    ensures
        q.rx.pending().len() <= q.rx.capacity(),
        q.tx.pending().len() <= q.rx.capacity(),
        q.queue().len() <= 2 * q.rx.capacity(),
{
}

/// A closed channel stays closed, whatever is done with it, and hands every value back.
pub proof fn law_closed_for_good<T>(h: HistoryView<T>, ops: Seq<QueueOp<T>>, value: T)
    requires
        h.queue.tx.is_closed(),
    ensures
        h.run(ops).queue.tx.is_closed(),
        h.run(ops).accepted == h.accepted,
        h.run(ops).queue.tx.try_send(value).1 == Err::<(), _>(
            TrySendError { value, ty: TrySendErrorType::Closed },
        ),
    decreases ops.len(),
{
    if ops.len() > 0 {
        law_closed_for_good(h, ops.drop_last(), value);
    }
}

/// A batch begun on a queue that holds something, with no send under way, is not empty.
pub proof fn law_batch_not_empty<T>(q: QueueView<T>)
    requires
        q.wf(),
        q.quiet(),
        q.queue().len() > 0,
    ensures
        q.start().rx.pending().len() > 0,
{
}

/// Fetching the senders' block gives them an empty one: a whole block of values can be sent.
pub proof fn law_swap_frees_block<T>(q: QueueView<T>)
    requires
        q.wf(),
        q.should_swap(),
    ensures
        q.swap().rx.pending() == q.tx.pending(),
        q.swap().tx.pending() == Seq::<T>::empty(),
        q.swap().tx.block matches Some(b) && b.locked == 0 && b.capacity() == q.rx.capacity(),
{
    assert(q.swap().rx.pending() =~= q.tx.pending());
    assert(q.swap().tx.pending() =~= Seq::<T>::empty());
}

/// When a swap is due, it can be made: the receiver's block is consumed and the senders have one.
pub proof fn law_should_swap<T>(q: QueueView<T>)
    requires
        q.should_swap(),
    ensures
        q.rx.current_consumed(),
        !q.tx.is_closed(),
{
}

/// Between batches, with no sender left and no send under way, the receiver has something to wait
/// for exactly as long as the queue holds something.
pub proof fn law_may_rx<T>(q: QueueView<T>)
    requires
        q.wf(),
        q.quiet(),
        q.rx.settled(),
    ensures
        q.may_rx(false) <==> q.queue().len() > 0,
        q.may_rx(true),
{
}

/// Senders sleep while the published count of claimed slots is the capacity, and that is exactly
/// while the sending block is full.
pub proof fn law_watermark<T>(q: QueueView<T>)
    requires
        q.wf(),
    ensures
        q.tx.watermark() == q.rx.capacity() <==> q.tx.full(),
        q.tx.is_closed() ==> q.tx.watermark() != q.rx.capacity(),
{
}

/// The sleeping senders are woken whenever the receiver makes room, in whichever way it does so.
pub proof fn law_room_wakes<T>(q: QueueView<T>)
    requires
        q.wf(),
        q.tx.full(),
    ensures
        !q.start().tx.full() <==> q.frees_room(),
        !q.finish().tx.full() <==> q.frees_room(),
        !q.close().tx.full(),
{
}

/// Taking every value of a batch takes what the receiver holds, and nothing else.
pub proof fn law_drain<T>(q: QueueView<T>)
    requires
        q.wf(),
    ensures
        ({
            let after = QueueView { rx: q.rx.drain(), ..q };
            &&& after.wf()
            &&& q.quiet() ==> after.quiet()
            &&& q.queue() == q.rx.pending() + after.queue()
            &&& after.rx.pending() == Seq::<T>::empty()
            &&& after.rx.capacity() == q.rx.capacity()
        }),
{
    let after = QueueView { rx: q.rx.drain(), ..q };
    assert(after.rx.pending() =~= Seq::<T>::empty());
    assert(q.queue() =~= q.rx.pending() + after.queue());
}

/// Once nobody sends any more, two batches, each received to the end, give the whole queue in
/// order, and then there is nothing left to wait for.
pub proof fn law_two_batches<T>(q: QueueView<T>)
    requires
        q.wf(),
        q.quiet(),
    ensures
        ({
            let first = q.start();
            let second = QueueView { rx: first.rx.drain(), ..first }.finish().start();
            let last = QueueView { rx: second.rx.drain(), ..second }.finish();
            &&& q.queue() == first.rx.pending() + second.rx.pending()
            &&& last.queue() == Seq::<T>::empty()
            &&& !last.may_rx(false)
        }),
{
    let first = q.start();
    law_start_keeps(q);
    law_drain(first);
    let between = QueueView { rx: first.rx.drain(), ..first };
    law_finish_keeps(between);
    law_start_keeps(between.finish());
    let second = between.finish().start();
    law_drain(second);
    let emptied = QueueView { rx: second.rx.drain(), ..second };
    law_finish_keeps(emptied);
    assert(emptied.queue() =~= Seq::<T>::empty());
    assert(second.queue() =~= second.rx.pending());
    law_may_rx(emptied.finish());
}

} // verus!
