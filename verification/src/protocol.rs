//! What holds of the whole queue while any number of senders are in the middle of a send.
//!
//! A sender claims its slot in the senders' block, but by the time it fills the slot and publishes
//! it the receiver may have fetched that block, or taken it away for good. [`ProtocolView`] is a queue together with all the
//! sends under way in its blocks; [`ProtocolView::step`] is one step of one party.

use crate::block::{BlockView, SEALED};
use crate::halves::{QueueView, RecvView, SendView};
use crate::sends::{Claim, SendStep, SendsView};
use vstd::prelude::*;

verus! {

/// The sends under way in a block, and the values for which its slots were claimed, by slot.
#[verifier::ext_equal]
pub struct UnderWay<T> {
    pub order: Seq<T>,
    pub claims: Map<int, Claim<T>>,
}

impl<T> UnderWay<T> {
    pub open spec fn none() -> Self {
        UnderWay { order: Seq::empty(), claims: Map::empty() }
    }
}

/// A queue, the sends under way in it, and what has become of its values.
#[verifier::ext_equal]
pub struct ProtocolView<T> {
    pub queue: QueueView<T>,
    /// The sends under way in the receiver's block.
    pub rx: UnderWay<T>,
    /// The sends under way in the senders' block.
    pub tx: UnderWay<T>,
    /// The block that the receiver, about to go, has taken away from the senders, until it is
    /// dropped.
    pub taken: Option<BlockView<T>>,
    /// The sends under way in the taken block.
    pub gone: UnderWay<T>,
    /// The values for which a slot was claimed, in the order in which that happened.
    pub accepted: Seq<T>,
    /// The values that were received, in the order in which that happened.
    pub received: Seq<T>,
    /// The values that were dropped with the receiver's block, oldest first.
    pub dropped: Seq<T>,
    /// The values that were dropped with the taken block, oldest first.
    pub dropped_taken: Seq<T>,
}

/// One step of one party.
pub enum ProtocolStep<T> {
    /// The sender claims a slot for the value.
    Claim { sender: int, value: T },
    /// The sender puts its value into its slot.
    Fill { sender: int },
    /// The sender publishes its slot.
    Publish { sender: int },
    /// The receiver begins a batch.
    Start,
    /// The receiver takes the next value of a batch that ends at slot `limit`.
    Next { limit: nat },
    /// The receiver ends a batch.
    Finish,
    /// The receiver, about to go, takes the senders' block away and seals it. New senders find the
    /// channel closed.
    TakeAway,
    /// The receiver drops the taken block, once every slot claimed in it is published.
    DropTaken,
    /// The receiver drops what is left in its own block, once every slot claimed in it is
    /// published.
    DropCurrent,
}

impl<T> ProtocolView<T> {
    /// A new queue.
    pub open spec fn empty(capacity: nat) -> Self {
        ProtocolView {
            queue: QueueView::empty(capacity),
            rx: UnderWay::none(),
            tx: UnderWay::none(),
            taken: None,
            gone: UnderWay::none(),
            accepted: Seq::empty(),
            received: Seq::empty(),
            dropped: Seq::empty(),
            dropped_taken: Seq::empty(),
        }
    }

    /// The receiver's block and the sends under way in it.
    pub open spec fn rx_sends(self) -> SendsView<T> {
        SendsView {
            block: self.queue.rx.block,
            order: self.rx.order,
            claims: self.rx.claims,
            consumed: self.queue.rx.consumed,
        }
    }

    /// The senders' block and the sends under way in it.
    pub open spec fn tx_sends(self) -> SendsView<T> {
        SendsView {
            block: self.queue.tx.block->0,
            order: self.tx.order,
            claims: self.tx.claims,
            consumed: 0,
        }
    }

    /// The taken block and the sends under way in it.
    pub open spec fn taken_sends(self) -> SendsView<T> {
        SendsView {
            block: self.taken->0,
            order: self.gone.order,
            claims: self.gone.claims,
            consumed: 0,
        }
    }

    /// This, with the receiver's block as `s` has it.
    pub open spec fn with_rx(self, s: SendsView<T>) -> Self {
        ProtocolView {
            queue: QueueView {
                rx: RecvView { block: s.block, consumed: s.consumed, ..self.queue.rx },
                ..self.queue
            },
            rx: UnderWay { order: s.order, claims: s.claims },
            ..self
        }
    }

    /// This, with the senders' block as `s` has it.
    pub open spec fn with_tx(self, s: SendsView<T>) -> Self {
        ProtocolView {
            queue: QueueView { tx: SendView { block: Some(s.block) }, ..self.queue },
            tx: UnderWay { order: s.order, claims: s.claims },
            ..self
        }
    }

    /// This, with the taken block as `s` has it.
    pub open spec fn with_taken(self, s: SendsView<T>) -> Self {
        ProtocolView {
            taken: Some(s.block),
            gone: UnderWay { order: s.order, claims: s.claims },
            ..self
        }
    }

    /// The values that have a slot in the receiver's block and were not received, oldest first.
    pub open spec fn rx_held(self) -> Seq<T> {
        self.rx.order.skip(self.queue.rx.consumed as int)
    }

    /// The values that have a slot and were not received, oldest first.
    pub open spec fn held(self) -> Seq<T> {
        self.rx_held() + self.gone.order + self.tx.order
    }

    /// No send is under way.
    pub open spec fn nobody_sends(self) -> bool {
        &&& self.rx.claims.dom() =~= Set::<int>::empty()
        &&& self.gone.claims.dom() =~= Set::<int>::empty()
        &&& self.tx.claims.dom() =~= Set::<int>::empty()
    }

    /// - Each block is in order, whatever sends are under way in it.
    /// - No sender is at work in two of them.
    /// - Every value that was accepted has been received, or dropped, or still has its slot: once,
    ///   and in the order in which the slots were claimed.
    pub open spec fn inv(self, capacity: nat) -> bool {
        &&& self.queue.wf()
        &&& self.queue.rx.capacity() == capacity
        &&& self.rx_sends().inv()
        &&& self.queue.rx.locked == self.rx.order.len()
        &&& if self.queue.tx.is_closed() {
            self.tx == UnderWay::<T>::none()
        } else {
            self.tx_sends().inv() && self.taken is None
        }
        &&& if self.taken is Some {
            self.taken_sends().inv() && self.taken->0.sealed()
        } else {
            self.gone == UnderWay::<T>::none()
        }
        &&& forall|sender: int| #[trigger]
            self.rx.claims.contains_key(sender) ==> !self.tx.claims.contains_key(sender)
                && !self.gone.claims.contains_key(sender)
        &&& self.accepted == self.received + self.dropped + self.rx_held() + self.dropped_taken
            + self.gone.order + self.tx.order
        &&& self.dropped.len() > 0 ==> self.queue.tx.is_closed() && self.rx.order.len() == 0
        &&& self.dropped_taken.len() > 0 ==> self.queue.tx.is_closed() && self.taken is None
    }

    /// The step of a send under way can be taken in the block where it is under way.
    pub open spec fn send_enabled(self, sender: int, step: SendStep<T>) -> bool {
        if self.rx.claims.contains_key(sender) {
            self.rx_sends().enabled(step)
        } else if self.gone.claims.contains_key(sender) {
            self.taken_sends().enabled(step)
        } else {
            self.tx_sends().enabled(step)
        }
    }

    /// What the step of a send under way does.
    pub open spec fn send_step(self, sender: int, step: SendStep<T>) -> Self {
        if self.rx.claims.contains_key(sender) {
            self.with_rx(self.rx_sends().step(step))
        } else if self.gone.claims.contains_key(sender) {
            self.with_taken(self.taken_sends().step(step))
        } else {
            self.with_tx(self.tx_sends().step(step))
        }
    }

    /// The party can take the step now.
    pub open spec fn enabled(self, step: ProtocolStep<T>) -> bool {
        match step {
            ProtocolStep::Claim { sender, value } => {
                &&& !self.queue.tx.is_closed()
                &&& !self.rx.claims.contains_key(sender)
                &&& self.tx_sends().enabled(SendStep::Claim { sender, value })
            },
            ProtocolStep::Fill { sender } => self.send_enabled(sender, SendStep::Fill { sender }),
            ProtocolStep::Publish { sender } => self.send_enabled(
                sender,
                SendStep::Publish { sender },
            ),
            ProtocolStep::Next { limit } => limit <= self.queue.rx.block.written,
            ProtocolStep::TakeAway => !self.queue.tx.is_closed(),
            ProtocolStep::DropTaken => self.taken matches Some(b) && b.written
                == self.gone.order.len(),
            ProtocolStep::DropCurrent => {
                &&& self.queue.tx.is_closed()
                &&& self.taken is None
                &&& self.queue.rx.quiet()
            },
            _ => true,
        }
    }

    /// What the step does.
    pub open spec fn step(self, step: ProtocolStep<T>) -> Self {
        match step {
            ProtocolStep::Claim { sender, value } => ProtocolView {
                accepted: self.accepted.push(value),
                ..self.with_tx(self.tx_sends().step(SendStep::Claim { sender, value }))
            },
            ProtocolStep::Fill { sender } => self.send_step(sender, SendStep::Fill { sender }),
            ProtocolStep::Publish { sender } => self.send_step(
                sender,
                SendStep::Publish { sender },
            ),
            ProtocolStep::Start => if self.queue.should_swap() {
                ProtocolView {
                    queue: self.queue.start(),
                    rx: self.tx,
                    tx: UnderWay::none(),
                    ..self
                }
            } else {
                ProtocolView { queue: self.queue.start(), ..self }
            },
            ProtocolStep::Next { limit } => {
                let (rx, it) = self.queue.rx.next(limit);
                ProtocolView {
                    queue: QueueView { rx, ..self.queue },
                    received: match it {
                        Some(value) => self.received.push(value),
                        None => self.received,
                    },
                    ..self
                }
            },
            ProtocolStep::Finish => if self.queue.should_swap() {
                ProtocolView {
                    queue: self.queue.finish(),
                    rx: self.tx,
                    tx: UnderWay::none(),
                    ..self
                }
            } else if self.queue.rx.current_consumed() {
                ProtocolView { queue: self.queue.finish(), rx: UnderWay::none(), ..self }
            } else {
                ProtocolView { queue: self.queue.finish(), ..self }
            },
            ProtocolStep::TakeAway => ProtocolView {
                queue: QueueView { tx: SendView::closed(), ..self.queue },
                tx: UnderWay::none(),
                taken: Some(self.queue.tx.block->0.seal()),
                gone: self.tx,
                ..self
            },
            ProtocolStep::DropTaken => ProtocolView {
                taken: None,
                gone: UnderWay::none(),
                dropped_taken: self.dropped_taken + self.gone.order,
                ..self
            },
            ProtocolStep::DropCurrent => ProtocolView {
                queue: QueueView { rx: self.queue.rx.discard(), ..self.queue },
                rx: UnderWay::none(),
                dropped: self.dropped + self.rx_held(),
                ..self
            },
        }
    }

    /// All the steps can be taken, one after the other.
    pub open spec fn all_enabled(self, steps: Seq<ProtocolStep<T>>) -> bool
        decreases steps.len(),
    {
        steps.len() == 0 || {
            &&& self.all_enabled(steps.drop_last())
            &&& self.run(steps.drop_last()).enabled(steps.last())
        }
    }

    /// What the steps do, one after the other.
    pub open spec fn run(self, steps: Seq<ProtocolStep<T>>) -> Self
        decreases steps.len(),
    {
        if steps.len() == 0 {
            self
        } else {
            self.run(steps.drop_last()).step(steps.last())
        }
    }
}

/// The values with their slots, dropped ones in place, as the last but one clause of
/// [`ProtocolView::inv`] has them.
spec fn account<T>(p: ProtocolView<T>) -> Seq<T> {
    p.received + p.dropped + p.rx_held() + p.dropped_taken + p.gone.order + p.tx.order
}

proof fn lemma_claim_keeps<T>(p: ProtocolView<T>, sender: int, value: T, capacity: nat)
    requires
        p.inv(capacity),
        p.enabled(ProtocolStep::Claim { sender, value }),
    ensures
        p.step(ProtocolStep::Claim { sender, value }).inv(capacity),
{
    let q = p.step(ProtocolStep::Claim { sender, value });
    crate::sends::law_step_keeps(p.tx_sends(), SendStep::Claim { sender, value });
    crate::sends::law_claim_order(q.tx_sends());
    assert(q.tx_sends() == p.tx_sends().step(SendStep::Claim { sender, value }));
    assert(q.rx_sends() == p.rx_sends());
    assert(q.accepted =~= account(q));
}

proof fn lemma_send_keeps<T>(p: ProtocolView<T>, step: ProtocolStep<T>, capacity: nat)
    requires
        p.inv(capacity),
        p.enabled(step),
        step is Fill || step is Publish,
    ensures
        p.step(step).inv(capacity),
{
    let q = p.step(step);
    let (sender, send_step) = match step {
        ProtocolStep::Fill { sender } => (sender, SendStep::<T>::Fill { sender }),
        ProtocolStep::Publish { sender } => (sender, SendStep::<T>::Publish { sender }),
        _ => arbitrary(),
    };
    if p.rx.claims.contains_key(sender) {
        crate::sends::law_step_keeps(p.rx_sends(), send_step);
        assert(q.rx_sends() == p.rx_sends().step(send_step));
        crate::sends::law_claim_order(q.rx_sends());
    } else if p.gone.claims.contains_key(sender) {
        crate::sends::law_step_keeps(p.taken_sends(), send_step);
        assert(q.taken_sends() == p.taken_sends().step(send_step));
    } else {
        crate::sends::law_step_keeps(p.tx_sends(), send_step);
        assert(q.tx_sends() == p.tx_sends().step(send_step));
        crate::sends::law_claim_order(q.tx_sends());
    }
    assert(account(q) =~= account(p));
}

proof fn lemma_batch_keeps<T>(p: ProtocolView<T>, step: ProtocolStep<T>, capacity: nat)
    requires
        p.inv(capacity),
        step is Start || step is Finish,
    ensures
        p.step(step).inv(capacity),
{
    let q = p.step(step);
    if p.queue.should_swap() {
        crate::sends::law_step_keeps(p.tx_sends(), SendStep::<T>::Seal);
        assert(q.rx_sends() == p.tx_sends().step(SendStep::<T>::Seal));
        crate::sends::law_claim_order(q.rx_sends());
        assert(account(q) =~= account(p));
    } else if p.queue.rx.current_consumed() && step is Finish {
        assert(account(q) =~= account(p));
    }
}

proof fn lemma_next_keeps<T>(p: ProtocolView<T>, limit: nat, capacity: nat)
    requires
        p.inv(capacity),
        p.enabled(ProtocolStep::Next { limit }),
    ensures
        p.step(ProtocolStep::Next { limit }).inv(capacity),
{
    let q = p.step(ProtocolStep::Next { limit });
    if p.queue.rx.consumed < limit {
        crate::sends::law_step_keeps(p.rx_sends(), SendStep::<T>::Take);
        assert(q.rx_sends() == p.rx_sends().step(SendStep::<T>::Take));
        crate::sends::law_claim_order(q.rx_sends());
        assert(p.dropped =~= Seq::<T>::empty());
        assert(q.accepted =~= account(q));
    }
}

proof fn lemma_closing_keeps<T>(p: ProtocolView<T>, step: ProtocolStep<T>, capacity: nat)
    requires
        p.inv(capacity),
        p.enabled(step),
        step is TakeAway || step is DropTaken || step is DropCurrent,
    ensures
        p.step(step).inv(capacity),
{
    let q = p.step(step);
    if step is TakeAway {
        crate::sends::law_step_keeps(p.tx_sends(), SendStep::<T>::Seal);
        assert(q.taken_sends() == p.tx_sends().step(SendStep::<T>::Seal));
    }
    assert(q.accepted =~= account(q));
}

/// Every step that a party can take keeps the queue in order.
pub proof fn law_step_keeps<T>(p: ProtocolView<T>, step: ProtocolStep<T>, capacity: nat)
    requires
        p.inv(capacity),
        p.enabled(step),
    ensures
        p.step(step).inv(capacity),
{
    match step {
        ProtocolStep::Claim { sender, value } => lemma_claim_keeps(p, sender, value, capacity),
        ProtocolStep::Start => lemma_batch_keeps(p, step, capacity),
        ProtocolStep::Finish => lemma_batch_keeps(p, step, capacity),
        ProtocolStep::Next { limit } => lemma_next_keeps(p, limit, capacity),
        ProtocolStep::Fill { sender } => lemma_send_keeps(p, step, capacity),
        ProtocolStep::Publish { sender } => lemma_send_keeps(p, step, capacity),
        _ => lemma_closing_keeps(p, step, capacity),
    }
}

/// So do any number of steps. What was accepted and what was received before them stays the
/// beginning of what is accepted and received after them.
pub proof fn law_steps_keep<T>(p: ProtocolView<T>, steps: Seq<ProtocolStep<T>>, capacity: nat)
    requires
        p.inv(capacity),
        p.all_enabled(steps),
    ensures
        p.run(steps).inv(capacity),
        p.accepted.is_prefix_of(p.run(steps).accepted),
        p.received.is_prefix_of(p.run(steps).received),
    decreases steps.len(),
{
    if steps.len() > 0 {
        law_steps_keep(p, steps.drop_last(), capacity);
        law_step_keeps(p.run(steps.drop_last()), steps.last(), capacity);
    }
}

/// First in, first out, exactly once, whatever sends are under way. In whatever order any number
/// of senders and the receiver take their steps on a new queue, the values are received in the
/// order in which their slots were claimed, each once and none left out.
pub proof fn law_fifo_interleaved<T>(capacity: nat, steps: Seq<ProtocolStep<T>>)
    requires
        0 < capacity < SEALED,
        ProtocolView::<T>::empty(capacity).all_enabled(steps),
    ensures
        ProtocolView::<T>::empty(capacity).run(steps).inv(capacity),
{
    let start = ProtocolView::<T>::empty(capacity);
    assert(start.accepted =~= account(start));
    law_steps_keep(start, steps, capacity);
}

/// At every moment, what has been received is what was accepted first, in the same order, and
/// every other accepted value was dropped or has its slot.
pub proof fn law_received_first<T>(p: ProtocolView<T>, capacity: nat)
    requires
        p.inv(capacity),
    ensures
        p.received.is_prefix_of(p.accepted),
        p.received.len() + p.dropped.len() + p.dropped_taken.len() + p.held().len()
            == p.accepted.len(),
{
}

/// What the receiver can receive now is held in its block, oldest first; what is not published yet
/// comes after it.
pub proof fn law_published_first<T>(p: ProtocolView<T>, capacity: nat)
    requires
        p.inv(capacity),
    ensures
        p.queue.rx.pending().is_prefix_of(p.held()),
        p.queue.tx.pending().is_prefix_of(p.tx.order),
{
    crate::sends::law_claim_order(p.rx_sends());
    assert(p.queue.rx.pending() =~= p.held().take(p.queue.rx.pending().len() as int));
    if !p.queue.tx.is_closed() {
        crate::sends::law_claim_order(p.tx_sends());
        assert(p.queue.tx.pending() =~= p.tx.order.take(p.queue.tx.pending().len() as int));
    }
}

/// The receiver swaps blocks only when no send is under way in the one it gives away, so that no
/// sender is left with a slot of a block that was reset.
pub proof fn law_swap_is_safe<T>(p: ProtocolView<T>, capacity: nat)
    requires
        p.inv(capacity),
        p.queue.rx.current_consumed(),
    ensures
        p.rx.claims.dom() =~= Set::<int>::empty(),
{
    crate::sends::law_all_written(p.rx_sends());
}

/// Once the senders' block is taken away, nobody can claim a slot, and those who have one can go
/// on: the block is dropped exactly when no send is under way in it, and until then some sender
/// has the slot that the others wait for.
pub proof fn law_closing_waits<T>(p: ProtocolView<T>, capacity: nat, sender: int, value: T)
    requires
        p.inv(capacity),
        p.taken is Some,
    ensures
        !p.enabled(ProtocolStep::Claim { sender, value }),
        p.enabled(ProtocolStep::DropTaken) <==> p.gone.claims.dom() =~= Set::<int>::empty(),
        !p.enabled(ProtocolStep::DropTaken) ==> p.taken_sends().claimed(
            p.taken->0.written as int,
        ),
        p.gone.claims.contains_key(sender) ==> p.enabled(
            if p.gone.claims[sender].filled {
                ProtocolStep::Publish { sender }
            } else {
                ProtocolStep::Fill { sender }
            },
        ) || p.gone.claims[sender].idx > p.taken->0.written,
{
    crate::sends::law_all_written(p.taken_sends());
    crate::sends::law_claim_order(p.taken_sends());
}

/// When the receiver has dropped both blocks, every accepted value was received or dropped, once,
/// and no send is left under way.
pub proof fn law_closed_leaves_nothing<T>(p: ProtocolView<T>, capacity: nat)
    requires
        p.inv(capacity),
        p.enabled(ProtocolStep::DropCurrent),
    ensures
        ({
            let q = p.step(ProtocolStep::DropCurrent);
            &&& q.accepted == q.received + q.dropped + q.dropped_taken
            &&& q.nobody_sends()
            &&& p.nobody_sends()
        }),
{
    let q = p.step(ProtocolStep::DropCurrent);
    law_step_keeps(p, ProtocolStep::DropCurrent, capacity);
    crate::sends::law_all_written(p.rx_sends());
    assert(q.accepted =~= q.received + q.dropped + q.dropped_taken);
}

/// Receiving until nothing more can come gives every value: from where the receiver begins, with
/// any sends under way, to where no send is under way any more and nothing is published, it has
/// received the values that had their slots at the beginning, and then those that were accepted
/// meanwhile, in the order of their slots. So those of any one sender come in the order in which
/// it sent them.
pub proof fn law_rx_all<T>(p: ProtocolView<T>, steps: Seq<ProtocolStep<T>>, capacity: nat)
    requires
        p.inv(capacity),
        p.all_enabled(steps),
        !p.run(steps).queue.tx.is_closed(),
        p.run(steps).nobody_sends(),
        !p.run(steps).queue.may_rx(false),
    ensures
        p.run(steps).received.skip(p.received.len() as int) == p.held()
            + p.run(steps).accepted.skip(p.accepted.len() as int),
        p.run(steps).held() == Seq::<T>::empty(),
{
    let q = p.run(steps);
    law_steps_keep(p, steps, capacity);
    crate::sends::law_all_written(q.rx_sends());
    crate::sends::law_all_written(q.tx_sends());
    assert(q.held() =~= Seq::<T>::empty());
    assert(q.dropped =~= Seq::<T>::empty());
    assert(q.dropped_taken =~= Seq::<T>::empty());
    assert(q.accepted =~= q.received);
    lemma_open_before(p, steps, capacity);
    assert(p.dropped =~= Seq::<T>::empty());
    assert(p.dropped_taken =~= Seq::<T>::empty());
    assert(p.accepted =~= p.received + p.held());
    let since = q.accepted.skip(p.accepted.len() as int);
    assert(q.accepted =~= p.accepted + since);
    assert(q.accepted =~= p.received + (p.held() + since));
    assert(q.received.skip(p.received.len() as int) =~= p.held() + since);
}

/// A channel that is open was open before.
proof fn lemma_open_before<T>(p: ProtocolView<T>, steps: Seq<ProtocolStep<T>>, capacity: nat)
    requires
        p.inv(capacity),
        p.all_enabled(steps),
        !p.run(steps).queue.tx.is_closed(),
    ensures
        !p.queue.tx.is_closed(),
    decreases steps.len(),
{
    if steps.len() > 0 {
        law_steps_keep(p, steps.drop_last(), capacity);
        lemma_open_before(p, steps.drop_last(), capacity);
    }
}

/// A send that is made in one go is the three steps of its sender in a row, with nobody's in
/// between.
pub proof fn law_whole_send<T>(p: ProtocolView<T>, capacity: nat, sender: int, value: T)
    requires
        p.inv(capacity),
        p.queue.tx.quiet(),
        !p.rx.claims.contains_key(sender),
        p.queue.tx.try_send(value).1 is Ok,
    ensures
        ({
            let claim = ProtocolStep::Claim { sender, value };
            let fill = ProtocolStep::<T>::Fill { sender };
            let publish = ProtocolStep::<T>::Publish { sender };
            &&& p.enabled(claim)
            &&& p.step(claim).enabled(fill)
            &&& p.step(claim).step(fill).enabled(publish)
            &&& p.step(claim).step(fill).step(publish) == (ProtocolView {
                queue: QueueView { tx: p.queue.tx.try_send(value).0, ..p.queue },
                tx: UnderWay { order: p.tx.order.push(value), ..p.tx },
                accepted: p.accepted.push(value),
                ..p
            })
        }),
{
    let claim = ProtocolStep::Claim { sender, value };
    let fill = ProtocolStep::<T>::Fill { sender };
    let publish = ProtocolStep::<T>::Publish { sender };
    crate::sends::law_all_written(p.tx_sends());
    assert(!p.tx.claims.dom().contains(sender));
    let last = p.step(claim).step(fill).step(publish);
    assert(last.tx.claims =~= p.tx.claims);
}

} // verus!
