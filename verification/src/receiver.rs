//! The handle of the receiver, and the batches it receives.

use crate::guarded::{one_turn, Log, Look, Turn, Turning};
use crate::halves::{QueueView, RecvHalf, RecvView, SendView};
use crate::sender::Sender;
use crate::shared::{at_rest, Shared};
use crate::wake::{strong_count, HandleCount};
use std::cell::Cell;
use std::marker::PhantomData;
use std::sync::Arc;
use vstd::prelude::*;

verus! {

/// [`Cell`], named only to keep a [`Receiver`] from being shared between threads.
#[verifier::external_type_specification]
#[verifier::external_body]
#[verifier::reject_recursive_types(T)]
pub struct ExCell<T: ?Sized>(Cell<T>);

/// Receives the values of a channel, a batch at a time. Before it is dropped the channel is to be
/// closed, with [`Receiver::deallocate_blocks`].
#[verifier::reject_recursive_types(T)]
pub struct Receiver<T> {
    half: RecvHalf<T>,
    shared: Arc<Shared<T>>,
    open: Ghost<bool>,
    log: Log<T>,
    received: Ghost<Seq<T>>,
    batches: Ghost<nat>,
    not_sync: PhantomData<Cell<()>>,
}

impl<T> View for Receiver<T> {
    type V = RecvView<T>;

    closed spec fn view(&self) -> RecvView<T> {
        self.half@
    }
}

/// Whether a channel that `handles` handles share has senders. The receiver's handle is one.
pub fn senders_left(handles: usize) -> (left: bool)
    requires
        handles >= 1,
    ensures
        left == (handles > 1),
{
    handles != 1
}

/// The handles on `shared` were counted, and there were others besides the receiver's exactly if
/// `others` says so.
pub open spec fn senders_counted<T>(shared: Shared<T>, others: bool) -> bool {
    exists|count: HandleCount<'_, Shared<T>>| #[trigger]
        count.of() == shared && others == (count.handles() > 1)
}

/// The half of `shared` was looked at, and values waited in it exactly if `some` says so.
pub open spec fn senders_seen<T>(shared: Shared<T>, some: bool) -> bool {
    exists|look: Look<T>| #[trigger]
        look.stamp() == shared.stamp() && at_rest(look.seen(), shared.capacity()) && some == (
        look.seen().pending().len() > 0)
}

impl<T> Receiver<T> {
    /// What the handles of the channel share.
    pub closed spec fn shared(self) -> Shared<T> {
        *self.shared
    }

    /// The receiver has not closed the channel.
    pub closed spec fn is_open(self) -> bool {
        self.open@
    }

    /// Every value that the receiver's batches have given out, in order.
    pub closed spec fn received(self) -> Seq<T> {
        self.received@
    }

    /// The turns that the receiver has taken with the lock, in order.
    pub closed spec fn turns(self) -> Seq<Turn<T>> {
        self.log.turns()
    }

    /// The sending half that the channel was made with.
    pub closed spec fn origin(self) -> SendView<T> {
        self.log.origin()
    }

    /// The receiver's log is that of its channel.
    pub closed spec fn logs(self) -> bool {
        self.log.stamp() == self.shared().stamp()
    }

    /// How many batches the receiver has begun.
    pub closed spec fn batches(self) -> nat {
        self.batches@
    }

    /// The channel is open, and the receiver's half is in order, has no send under way, and fits
    /// the senders' half.
    pub open spec fn wf(self) -> bool {
        &&& self.is_open()
        &&& self.logs()
        &&& self@.wf()
        &&& self@.quiet()
        &&& self.shared().wf()
        &&& self@.capacity() == self.shared().capacity()
    }

    pub(crate) fn new(capacity: u32, shared: Arc<Shared<T>>, log: Log<T>) -> (rx: Self)
        requires
            shared.wf(),
            log.stamp() == shared.stamp(),
            0 < capacity < crate::block::SEALED,
            shared.capacity() == capacity,
        ensures
            rx.wf(),
            rx@ == RecvView::<T>::empty(capacity as nat),
            rx.shared() == *shared,
            rx.received() == Seq::<T>::empty(),
            rx.batches() == 0,
            rx.turns() == log.turns(),
            rx.origin() == log.origin(),
    {
        Receiver {
            half: RecvHalf::new(capacity),
            shared,
            open: Ghost(true),
            log,
            received: Ghost(Seq::empty()),
            batches: Ghost(0),
            not_sync: PhantomData,
        }
    }

    /// A new sender for this channel.
    pub fn get_tx(&self) -> (tx: Sender<T>)
        requires
            self.wf(),
        ensures
            tx.wf(),
            tx.shared() == self.shared(),
    {
        Sender::new(Arc::clone(&self.shared))
    }

    /// Whether the channel has senders: whether more handles than this one were counted.
    pub fn has_senders(&self) -> (left: bool)
        ensures
            senders_counted(self.shared(), left),
    {
        let count = strong_count(&self.shared);
        let left = senders_left(count.get());
        assert(count.of() == self.shared());
        left
    }

    /// Whether the channel has senders, or values that could be received.
    pub fn may_rx(&self) -> (may: bool)
        requires
            self.wf(),
        ensures
            self@.block.written != 0 ==> may,
            may && self@.block.written == 0 ==> senders_counted(self.shared(), true)
                || senders_seen(self.shared(), true),
            !may ==> senders_counted(self.shared(), false) && senders_seen(self.shared(), false),
    {
        let has_senders = self.has_senders();
        if has_senders || self.half.get_written() != 0 {
            return true;
        }
        let (may, look) = self.shared.may_rx(&self.half, has_senders);
        assert(look.stamp() == self.shared().stamp());
        may
    }

    /// Begins a batch. It holds what is left of the receiver's block, or else what the senders
    /// have published so far.
    pub fn recv(&mut self) -> (batch: Batch<'_, T>)
        where T: Send
        requires
            old(self).wf(),
        ensures
            batch.wf(),
            batch.limit() == batch.receiver()@.block.written,
            batch.left() == batch.receiver()@.pending(),
            batch.receiver().shared() == old(self).shared(),
            batch.receiver().received() == old(self).received(),
            batch.receiver().batches() == old(self).batches() + 1,
            exists|tx: SendView<T>| #[trigger]
                at_rest(tx, old(self)@.capacity()) && batch.receiver()@ == (QueueView {
                    rx: old(self)@,
                    tx,
                }).start().rx,
            old(self)@.pending().len() > 0 ==> batch.receiver()@ == old(self)@,
            batch.receiver().origin() == old(self).origin(),
            old(self)@.pending().len() > 0 ==> batch.receiver().turns() == old(self).turns(),
            old(self)@.pending().len() == 0 ==> one_turn(
                old(self).turns(),
                batch.receiver().turns(),
                Turning::Start,
                old(self)@,
                batch.receiver()@,
                old(self)@.capacity(),
            ),
            *final(self) == *final(batch.handle()),
    {
        if self.half.current_consumed() {
            self.shared.start(&mut self.half, &mut self.log);
        } else {
            assert(at_rest(SendView::<T>::closed(), old(self)@.capacity()));
        }
        proof {
            self.batches@ = self.batches@ + 1;
        }
        let written = self.half.get_written();
        Batch { inner: self, written }
    }

    /// Closes the channel and drops every value that has not been received. After that the
    /// receiver is of no more use.
    pub fn deallocate_blocks(&mut self)
        requires
            old(self).wf(),
        ensures
            !final(self).is_open(),
            final(self)@ == old(self)@.discard(),
            final(self).shared() == old(self).shared(),
            final(self).received() == old(self).received(),
            final(self).batches() == old(self).batches(),
            final(self).origin() == old(self).origin(),
            one_turn(
                old(self).turns(),
                final(self).turns(),
                Turning::Close,
                old(self)@,
                old(self)@,
                old(self)@.capacity(),
            ),
    {
        match self.shared.take_block(&self.half, &mut self.log) {
            Some(block) => self.half.deallocate_blocks(block),
            // Only an open receiver takes the block, so that it is always there.
            None => self.half.discard_current(),
        }
        self.open = Ghost(false);
    }
}

/// A run of received values, in the order in which they were sent. It is to be ended with
/// [`Batch::finish`].
#[verifier::reject_recursive_types(T)]
pub struct Batch<'rx, T> {
    inner: &'rx mut Receiver<T>,
    written: u32,
}

impl<'rx, T> Batch<'rx, T> {
    /// The batch's hold on the receiver.
    pub closed spec fn handle(self) -> &'rx mut Receiver<T> {
        self.inner
    }

    /// The receiver, as the batch has left it so far.
    pub closed spec fn receiver(&self) -> Receiver<T> {
        *self.inner
    }

    /// The slot of the receiver's block at which the batch ends.
    pub closed spec fn limit(&self) -> nat {
        self.written as nat
    }

    /// The values still to come.
    pub open spec fn left(&self) -> Seq<T> {
        self.receiver()@.block.items(self.receiver()@.consumed as int, self.limit() as int)
    }

    /// The receiver is in order, and the batch ends at or after what has been consumed and within
    /// what has been published.
    pub open spec fn wf(&self) -> bool {
        &&& self.receiver().wf()
        &&& self.receiver()@.consumed <= self.limit() <= self.receiver()@.block.written
    }

    /// The next value of the batch, or `None` after the last one.
    pub fn next(&mut self) -> (it: Option<T>)
        requires
            old(self).wf(),
        ensures
            final(self).wf(),
            (final(self).receiver()@, it) == old(self).receiver()@.next(old(self).limit()),
            final(self).limit() == old(self).limit(),
            final(self).receiver().shared() == old(self).receiver().shared(),
            final(self).receiver().received() == (match it {
                Some(value) => old(self).receiver().received().push(value),
                None => old(self).receiver().received(),
            }),
            final(self).receiver().batches() == old(self).receiver().batches(),
            final(self).receiver().origin() == old(self).receiver().origin(),
            final(self).receiver().turns() == old(self).receiver().turns(),
            *final(final(self).handle()) == *final(old(self).handle()),
            old(self).left().len() == 0 ==> it is None && final(self).left() == old(self).left(),
            old(self).left().len() > 0 ==> it == Some(old(self).left()[0]) && final(self).left()
                == old(self).left().drop_first(),
    {
        let it = self.inner.half.next(self.written);
        proof {
            if it is Some {
                self.inner.received@ = self.inner.received@.push(it->0);
            }
        }
        assert(old(self).left().len() > 0 ==> self.left() =~= old(self).left().drop_first());
        it
    }

    /// The exact count of values left, as a lower and an upper bound.
    pub fn size_hint(&self) -> (bounds: (usize, Option<usize>))
        requires
            self.wf(),
        ensures
            bounds.0 == self.left().len(),
            bounds.1 == Some(bounds.0),
    {
        let left = self.written - self.inner.half.get_consumed();
        (left as usize, Some(left as usize))
    }

    /// The exact count of values left.
    pub fn len(&self) -> (left: usize)
        requires
            self.wf(),
        ensures
            left == self.left().len(),
    {
        self.size_hint().0
    }

    /// Takes every value left in the batch.
    pub fn drain_into(&mut self, out: &mut Vec<T>)
        requires
            old(self).wf(),
        ensures
            final(out)@ == old(out)@ + old(self).left(),
            final(self).wf(),
            final(self).left().len() == 0,
            final(self).limit() == old(self).limit(),
            final(self).receiver()@ == old(self).receiver()@.drain_to(old(self).limit()),
            final(self).receiver().shared() == old(self).receiver().shared(),
            final(self).receiver().received() == old(self).receiver().received() + old(
                self,
            ).left(),
            final(self).receiver().batches() == old(self).receiver().batches(),
            final(self).receiver().origin() == old(self).receiver().origin(),
            final(self).receiver().turns() == old(self).receiver().turns(),
            *final(final(self).handle()) == *final(old(self).handle()),
    {
        let mut more = true;
        while more
            invariant
                self.wf(),
                out@ + self.left() == old(out)@ + old(self).left(),
                !more ==> self.left().len() == 0,
                self.limit() == old(self).limit(),
                old(self).wf(),
                self.receiver()@.consumed >= old(self).receiver()@.consumed,
                self.receiver()@ == old(self).receiver()@.drain_to(self.receiver()@.consumed),
                self.receiver().shared() == old(self).receiver().shared(),
                self.receiver().received() + self.left() == old(self).receiver().received() + old(
                    self,
                ).left(),
                self.receiver().batches() == old(self).receiver().batches(),
                self.receiver().origin() == old(self).receiver().origin(),
                self.receiver().turns() == old(self).receiver().turns(),
                *final(self.handle()) == *final(old(self).handle()),
            decreases self.left().len(), more as int,
        {
            let ghost before = self.left();
            let ghost so_far = out@;
            let ghost received = self.receiver().received();
            match self.next() {
                Some(it) => {
                    out.push(it);
                    assert(out@ + self.left() =~= so_far + before);
                    assert(self.receiver().received() + self.left() =~= received + before);
                    assert(self.receiver()@.block.slots =~= old(self).receiver()@.drain_to(
                        self.receiver()@.consumed,
                    ).block.slots);
                },
                None => more = false,
            }
        }
        assert(out@ =~= out@ + self.left());
        assert(self.receiver().received() =~= self.receiver().received() + self.left());
    }

    /// Ends the batch. What was not taken stays with the receiver, for the next batch.
    pub fn finish(self)
        requires
            self.wf(),
        ensures
            final(self.handle()).wf(),
            final(self.handle()).shared() == self.receiver().shared(),
            final(self.handle()).received() == self.receiver().received(),
            final(self.handle()).batches() == self.receiver().batches(),
            final(self.handle())@.settled(),
            exists|tx: SendView<T>| #[trigger]
                at_rest(tx, self.receiver()@.capacity()) && final(self.handle())@ == (QueueView {
                    rx: self.receiver()@,
                    tx,
                }).finish().rx,
            self.receiver()@.pending().len() > 0 ==> final(self.handle())@ == self.receiver()@,
            final(self.handle()).origin() == self.receiver().origin(),
            self.receiver()@.pending().len() > 0 ==> final(self.handle()).turns()
                == self.receiver().turns(),
            self.receiver()@.pending().len() == 0 ==> one_turn(
                self.receiver().turns(),
                final(self.handle()).turns(),
                Turning::Finish,
                self.receiver()@,
                final(self.handle())@,
                self.receiver()@.capacity(),
            ),
    {
        if self.inner.half.current_consumed() {
            self.inner.shared.finish(&mut self.inner.half, &mut self.inner.log);
        } else {
            assert(at_rest(SendView::<T>::closed(), self.inner@.capacity()));
        }
    }
}

/// Receives until nothing more can come, since every sender is gone and the queue is empty, or
/// until `rounds` batches have been received. The result is every value that the receiver's batches
/// gave out meanwhile, in order, beginning with those that it already held; the flag says whether
/// nothing more can come. What that is in terms of what was sent,
/// [`law_rx_all`](crate::protocol::law_rx_all) states.
pub fn rx_all<T: Send>(rx: &mut Receiver<T>, rounds: u64) -> (all: (Vec<T>, bool))
    requires
        old(rx).wf(),
        rounds > 0,
    ensures
        final(rx).wf(),
        final(rx).shared() == old(rx).shared(),
        final(rx)@.settled(),
        final(rx).received() == old(rx).received() + all.0@,
        old(rx)@.pending().is_prefix_of(all.0@),
        old(rx).batches() < final(rx).batches() <= old(rx).batches() + rounds,
        !all.1 ==> final(rx).batches() == old(rx).batches() + rounds,
        all.1 ==> final(rx)@.block.written == 0,
        all.1 ==> senders_counted(final(rx).shared(), false) && senders_seen(
            final(rx).shared(),
            false,
        ),
        final(rx).origin() == old(rx).origin(),
        old(rx).turns().is_prefix_of(final(rx).turns()),
{
    let mut out: Vec<T> = Vec::new();
    let mut left: u64 = rounds;
    while left > 0
        invariant
            rx.wf(),
            rx.shared() == old(rx).shared(),
            rx.origin() == old(rx).origin(),
            old(rx).turns().is_prefix_of(rx.turns()),
            left <= rounds,
            rounds > 0,
            rx.batches() == old(rx).batches() + (rounds - left),
            rx.received() == old(rx).received() + out@,
            left < rounds ==> rx@.settled(),
            left == rounds ==> out@.len() == 0 && *rx == *old(rx),
            left < rounds ==> old(rx)@.pending().is_prefix_of(out@),
        decreases left,
    {
        let mut batch = rx.recv();
        batch.drain_into(&mut out);
        batch.finish();
        proof {
            assert(rx.received() =~= old(rx).received() + out@);
            if left == rounds && old(rx)@.pending().len() > 0 {
                assert(out@ =~= old(rx)@.pending());
            }
        }
        if !rx.may_rx() {
            return (out, true);
        }
        left -= 1;
    }
    (out, false)
}

} // verus!
