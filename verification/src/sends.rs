//! What holds of one block while any number of senders, and the receiver, are at work on it at
//! once.
//!
//! A send is three steps, and between them other senders may take theirs in any order.
//! [`SendsView`] is a block together with the sends that are under way; [`SendsView::step`] is one
//! step of one party, in the terms that [`Block`](crate::block::Block) states its own steps in.

use crate::block::BlockView;
use vstd::prelude::*;

verus! {

/// A send under way: the slot that was claimed, the value for it, and whether it is in place.
pub struct Claim<T> {
    pub idx: nat,
    pub value: T,
    pub filled: bool,
}

/// A block and the sends that are under way in it.
#[verifier::ext_equal]
pub struct SendsView<T> {
    pub block: BlockView<T>,
    /// The values for which a slot was claimed since the block was reset, by slot.
    pub order: Seq<T>,
    /// The sends under way, by sender.
    pub claims: Map<int, Claim<T>>,
    /// How many slots the receiver has emptied.
    pub consumed: nat,
}

/// One step of one party.
pub enum SendStep<T> {
    /// The sender claims a slot for the value.
    Claim { sender: int, value: T },
    /// The sender finds no slot for the value, and gives up.
    Refuse { sender: int, value: T },
    /// The sender puts its value into its slot.
    Fill { sender: int },
    /// The sender publishes its slot.
    Publish { sender: int },
    /// The receiver seals the block.
    Seal,
    /// The receiver takes the next value.
    Take,
}

impl<T> SendsView<T> {
    /// A block in which nothing has been sent: a new one, or one that was reset.
    pub open spec fn unused(block: BlockView<T>) -> Self {
        SendsView { block, order: Seq::empty(), claims: Map::empty(), consumed: 0 }
    }

    /// Some sender has claimed slot `i` and not published it.
    pub open spec fn claimed(self, i: int) -> bool {
        exists|sender: int|
            #[trigger] self.claims.contains_key(sender) && self.claims[sender].idx == i
    }

    /// - Every published slot that is not consumed holds the value it was claimed for.
    /// - Every claim is for a slot that is not published, and no two are for the same one.
    /// - Every slot that was claimed and is not published has its claim.
    pub open spec fn inv(self) -> bool {
        &&& self.block.wf()
        &&& self.consumed <= self.block.written <= self.order.len() <= self.block.capacity()
        &&& self.block.sealed() || self.block.locked == self.order.len()
        &&& forall|i: int|
            self.consumed <= i < self.block.written ==> #[trigger] self.block.slots[i] == Some(
                self.order[i],
            )
        &&& forall|sender: int| #[trigger]
            self.claims.contains_key(sender) ==> {
                let claim = self.claims[sender];
                &&& self.block.written <= claim.idx < self.order.len()
                &&& self.order[claim.idx as int] == claim.value
                &&& claim.filled ==> self.block.slots[claim.idx as int] == Some(claim.value)
            }
        &&& forall|a: int, b: int|
            #![trigger self.claims.contains_key(a), self.claims.contains_key(b)]
            self.claims.contains_key(a) && self.claims.contains_key(b) && a != b
                ==> self.claims[a].idx != self.claims[b].idx
        &&& forall|i: int|
            self.block.written <= i < self.order.len() ==> #[trigger] self.claimed(i)
    }

    /// The party can take the step now.
    pub open spec fn enabled(self, step: SendStep<T>) -> bool {
        match step {
            SendStep::Claim { sender, value } => !self.claims.contains_key(sender)
                && self.block.has_room(),
            SendStep::Refuse { sender, value } => !self.claims.contains_key(sender)
                && !self.block.has_room(),
            SendStep::Fill { sender } => self.claims.contains_key(sender)
                && !self.claims[sender].filled,
            SendStep::Publish { sender } => self.claims.contains_key(sender)
                && self.claims[sender].filled && self.claims[sender].idx == self.block.written,
            SendStep::Seal => !self.block.sealed(),
            SendStep::Take => self.consumed < self.block.written,
        }
    }

    /// What the step does.
    pub open spec fn step(self, step: SendStep<T>) -> Self {
        match step {
            SendStep::Claim { sender, value } => SendsView {
                block: self.block.lock_slot(),
                order: self.order.push(value),
                claims: self.claims.insert(
                    sender,
                    Claim { idx: self.block.locked, value, filled: false },
                ),
                ..self
            },
            SendStep::Refuse { sender, value } => self,
            SendStep::Fill { sender } => {
                let claim = self.claims[sender];
                SendsView {
                    block: self.block.write(claim.idx as int, claim.value),
                    claims: self.claims.insert(sender, Claim { filled: true, ..claim }),
                    ..self
                }
            },
            SendStep::Publish { sender } => SendsView {
                block: self.block.publish(),
                claims: self.claims.remove(sender),
                ..self
            },
            SendStep::Seal => SendsView { block: self.block.seal(), ..self },
            SendStep::Take => SendsView {
                block: self.block.take(self.consumed as int),
                consumed: self.consumed + 1,
                ..self
            },
        }
    }

    /// All the steps can be taken, one after the other.
    pub open spec fn all_enabled(self, steps: Seq<SendStep<T>>) -> bool
        decreases steps.len(),
    {
        steps.len() == 0 || {
            &&& self.all_enabled(steps.drop_last())
            &&& self.run(steps.drop_last()).enabled(steps.last())
        }
    }

    /// What the steps do, one after the other.
    pub open spec fn run(self, steps: Seq<SendStep<T>>) -> Self
        decreases steps.len(),
    {
        if steps.len() == 0 {
            self
        } else {
            self.run(steps.drop_last()).step(steps.last())
        }
    }
}

proof fn lemma_claim_keeps<T>(s: SendsView<T>, sender: int, value: T)
    requires
        s.inv(),
        s.enabled(SendStep::Claim { sender, value }),
    ensures
        s.step(SendStep::Claim { sender, value }).inv(),
{
    let t = s.step(SendStep::Claim { sender, value });
    assert forall|i: int| t.block.written <= i < t.order.len() implies #[trigger] t.claimed(i) by {
        if i < s.order.len() {
            assert(s.claimed(i));
            let a = choose|a: int| #[trigger] s.claims.contains_key(a) && s.claims[a].idx == i;
            assert(t.claims.contains_key(a) && t.claims[a].idx == i);
        } else {
            assert(t.claims.contains_key(sender) && t.claims[sender].idx == i);
        }
    }
}

proof fn lemma_fill_keeps<T>(s: SendsView<T>, sender: int)
    requires
        s.inv(),
        s.enabled(SendStep::Fill { sender }),
    ensures
        s.step(SendStep::Fill { sender }).inv(),
{
    let t = s.step(SendStep::<T>::Fill { sender });
    assert forall|i: int| t.block.written <= i < t.order.len() implies #[trigger] t.claimed(i) by {
        assert(s.claimed(i));
        let a = choose|a: int| #[trigger] s.claims.contains_key(a) && s.claims[a].idx == i;
        assert(t.claims.contains_key(a) && t.claims[a].idx == i);
    }
}

proof fn lemma_publish_keeps<T>(s: SendsView<T>, sender: int)
    requires
        s.inv(),
        s.enabled(SendStep::Publish { sender }),
    ensures
        s.step(SendStep::Publish { sender }).inv(),
{
    let t = s.step(SendStep::<T>::Publish { sender });
    assert forall|i: int| t.block.written <= i < t.order.len() implies #[trigger] t.claimed(i) by {
        assert(s.claimed(i));
        let a = choose|a: int| #[trigger] s.claims.contains_key(a) && s.claims[a].idx == i;
        assert(t.claims.contains_key(a) && t.claims[a].idx == i);
    }
}

proof fn lemma_receiver_keeps<T>(s: SendsView<T>, step: SendStep<T>)
    requires
        s.inv(),
        s.enabled(step),
        step is Seal || step is Take,
    ensures
        s.step(step).inv(),
{
    let t = s.step(step);
    assert forall|i: int| t.block.written <= i < t.order.len() implies #[trigger] t.claimed(i) by {
        assert(s.claimed(i));
        let a = choose|a: int| #[trigger] s.claims.contains_key(a) && s.claims[a].idx == i;
        assert(t.claims.contains_key(a) && t.claims[a].idx == i);
    }
}

/// Every step that a party can take keeps the block in order.
pub proof fn law_step_keeps<T>(s: SendsView<T>, step: SendStep<T>)
    requires
        s.inv(),
        s.enabled(step),
    ensures
        s.step(step).inv(),
{
    match step {
        SendStep::Claim { sender, value } => lemma_claim_keeps(s, sender, value),
        SendStep::Fill { sender } => lemma_fill_keeps(s, sender),
        SendStep::Publish { sender } => lemma_publish_keeps(s, sender),
        SendStep::Refuse { sender, value } => {},
        _ => lemma_receiver_keeps(s, step),
    }
}

/// Whatever order the parties take their steps in, the block stays in order: every published slot
/// holds the value it was claimed for, and every unpublished one belongs to exactly one sender.
pub proof fn law_any_interleaving<T>(s: SendsView<T>, steps: Seq<SendStep<T>>)
    requires
        s.inv(),
        s.all_enabled(steps),
    ensures
        s.run(steps).inv(),
    decreases steps.len(),
{
    if steps.len() > 0 {
        law_any_interleaving(s, steps.drop_last());
        law_step_keeps(s.run(steps.drop_last()), steps.last());
    }
}

/// A new block, and one that was reset, is in order.
pub proof fn law_unused_block<T>(block: BlockView<T>)
    requires
        block.wf(),
        block.locked == 0,
    ensures
        SendsView::unused(block).inv(),
{
}

/// The receiver sees the values in the order in which their slots were claimed, none left out.
pub proof fn law_claim_order<T>(s: SendsView<T>)
    requires
        s.inv(),
    ensures
        s.block.filled(s.consumed as int, s.block.written as int),
        s.block.items(s.consumed as int, s.block.written as int) == s.order.subrange(
            s.consumed as int,
            s.block.written as int,
        ),
{
    let items = s.block.items(s.consumed as int, s.block.written as int);
    let order = s.order.subrange(s.consumed as int, s.block.written as int);
    assert forall|i: int| 0 <= i < items.len() implies items[i] == order[i] by {
        assert(s.block.slots[s.consumed + i] == Some(s.order[s.consumed + i]));
    }
    assert(items =~= order);
}

/// A sender with a claim may fill its slot, and once that is done may try to publish it, whatever
/// the others have done since it claimed the slot.
pub proof fn law_claim_permits<T>(s: SendsView<T>, sender: int)
    requires
        s.inv(),
        s.claims.contains_key(sender),
    ensures
        s.block.wf(),
        s.block.written <= s.claims[sender].idx < s.block.capacity(),
        s.claims[sender].idx < s.block.locked,
        s.claims[sender].filled ==> s.block.slots[s.claims[sender].idx as int] is Some,
{
}

/// Two senders never have the same slot, and no sender has one that the receiver may read.
pub proof fn law_claims_apart<T>(s: SendsView<T>, a: int, b: int)
    requires
        s.inv(),
        s.claims.contains_key(a),
        s.claims.contains_key(b),
        a != b,
    ensures
        s.claims[a].idx != s.claims[b].idx,
        s.claims[a].idx >= s.block.written,
{
}

/// The steps of others leave a sender's claim as it is, and a value that is in place stays there.
pub proof fn law_claim_lasts<T>(s: SendsView<T>, sender: int, step: SendStep<T>)
    requires
        s.inv(),
        s.enabled(step),
        s.claims.contains_key(sender),
        step matches SendStep::Claim { sender: other, .. } ==> other != sender,
        step matches SendStep::Fill { sender: other } ==> other != sender,
        step matches SendStep::Publish { sender: other } ==> other != sender,
    ensures
        s.step(step).claims.contains_key(sender),
        s.step(step).claims[sender] == s.claims[sender],
        s.step(step).block.slots[s.claims[sender].idx as int]
            == s.block.slots[s.claims[sender].idx as int],
{
}

/// When as many slots are published as were claimed, no send is under way: the block can be read
/// to the end, emptied and reset. As long as fewer are, some sender has the slot that all the
/// others wait for.
pub proof fn law_all_written<T>(s: SendsView<T>)
    requires
        s.inv(),
    ensures
        s.block.written == s.order.len() <==> s.claims.dom() =~= Set::<int>::empty(),
        s.block.written < s.order.len() ==> s.claimed(s.block.written as int),
{
    if s.block.written == s.order.len() {
        assert forall|a: int| !s.claims.dom().contains(a) by {
            if s.claims.contains_key(a) {
                assert(s.block.written <= s.claims[a].idx < s.order.len());
            }
        }
    } else {
        assert(s.claimed(s.block.written as int));
        let a = choose|a: int| #[trigger] s.claims.contains_key(a) && s.claims[a].idx
            == s.block.written;
        assert(s.claims.dom().contains(a));
    }
}

/// A sealed block takes no more senders.
pub proof fn law_sealed_refuses<T>(s: SendsView<T>, sender: int, value: T)
    requires
        s.inv(),
        s.block.sealed(),
    ensures
        !s.enabled(SendStep::Claim { sender, value }),
{
}

/// The values of the sends that got a slot, in the order in which they got it.
pub open spec fn accepted<T>(steps: Seq<SendStep<T>>) -> Seq<T>
    decreases steps.len(),
{
    if steps.len() == 0 {
        Seq::empty()
    } else {
        match steps.last() {
            SendStep::Claim { sender, value } => accepted(steps.drop_last()).push(value),
            _ => accepted(steps.drop_last()),
        }
    }
}

/// The values of the sends that got no slot, in the order in which they were refused.
pub open spec fn refused<T>(steps: Seq<SendStep<T>>) -> Seq<T>
    decreases steps.len(),
{
    if steps.len() == 0 {
        Seq::empty()
    } else {
        match steps.last() {
            SendStep::Refuse { sender, value } => refused(steps.drop_last()).push(value),
            _ => refused(steps.drop_last()),
        }
    }
}

/// Only senders are at work.
pub open spec fn senders_only<T>(steps: Seq<SendStep<T>>) -> bool {
    forall|i: int|
        0 <= i < steps.len() ==> !((#[trigger] steps[i]) is Seal) && !(steps[i] is Take)
}

proof fn lemma_senders_only<T>(block: BlockView<T>, steps: Seq<SendStep<T>>)
    requires
        block.wf(),
        block.locked == 0,
        SendsView::unused(block).all_enabled(steps),
        senders_only(steps),
    ensures
        ({
            let s = SendsView::unused(block).run(steps);
            &&& s.inv()
            &&& s.order == accepted(steps)
            &&& s.consumed == 0
            &&& !s.block.sealed()
            &&& s.block.capacity() == block.capacity()
            &&& refused(steps).len() > 0 ==> s.order.len() == block.capacity()
        }),
    decreases steps.len(),
{
    let start = SendsView::unused(block);
    law_unused_block(block);
    if steps.len() > 0 {
        let before = steps.drop_last();
        assert forall|i: int| 0 <= i < before.len() implies !((#[trigger] before[i]) is Seal) && !(
        before[i] is Take) by {
            assert(before[i] == steps[i]);
        }
        lemma_senders_only(block, before);
        law_step_keeps(start.run(before), steps.last());
        assert(!(steps[steps.len() - 1] is Seal));
    }
}

/// However many sends are made at once into an unused block, when all are done as many have been
/// accepted as there are slots, or all if there are fewer of them, and the others were refused. The
/// accepted values fill the first slots, each one of its own, and nothing is left claimed.
pub proof fn law_concurrent_pushes<T>(block: BlockView<T>, steps: Seq<SendStep<T>>)
    requires
        block.wf(),
        block.locked == 0,
        SendsView::unused(block).all_enabled(steps),
        senders_only(steps),
        SendsView::unused(block).run(steps).claims.dom() =~= Set::<int>::empty(),
    ensures
        ({
            let after = SendsView::unused(block).run(steps).block;
            let sends = accepted(steps).len() + refused(steps).len();
            let fit = if sends < block.capacity() { sends } else { block.capacity() };
            &&& accepted(steps).len() == fit
            &&& after.locked == fit
            &&& after.written == fit
            &&& after.filled(0, fit as int)
            &&& after.items(0, fit as int) == accepted(steps)
        }),
{
    let s = SendsView::unused(block).run(steps);
    lemma_senders_only(block, steps);
    law_all_written(s);
    law_claim_order(s);
    assert(s.order.subrange(0, s.order.len() as int) =~= s.order);
}

} // verus!
