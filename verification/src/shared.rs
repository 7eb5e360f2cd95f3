//! What the senders and the receiver share: the sending half, behind a lock.
//!
//! A thread holds the lock for one whole step of the queue, so that every thread that gets it
//! finds a half on which no send is under way. Its claimed-slot count is also published in an
//! atomic word, which is what senders sleep on while the half is full.

use crate::block::{Block, SEALED};
use crate::error::TrySendError;
use crate::guarded::{one_turn, Attempt, AttemptView, Guarded, Log, Look, Turn, Turning};
use crate::halves::{QueueView, RecvHalf, SendView};
use crate::wake::{sleep_while, store_mark, wake_sleepers, Slept, Stored, Woken};
use std::sync::atomic::{AtomicU32, Ordering};
use vstd::prelude::*;
use vstd::rwlock::{RwLock, RwLockPredicate};

verus! {

/// What holds of the sending half whenever nobody has the lock: it is the half that the channel was
/// made with, and at rest.
pub struct HalfInv {
    pub capacity: u32,
    pub stamp: int,
}

impl<T> RwLockPredicate<Guarded<T>> for HalfInv {
    open spec fn inv(self, half: Guarded<T>) -> bool {
        at_rest(half@, self.capacity as nat) && half.stamp() == self.stamp
    }
}

/// A sending half of blocks with `capacity` slots, in order and with no send under way.
pub open spec fn at_rest<T>(tx: SendView<T>, capacity: nat) -> bool {
    tx.wf() && tx.quiet() && tx.sized(capacity)
}

/// Whether a sender that sees the published count of claimed slots waits for room.
pub fn must_wait(watermark: u32, capacity: u32) -> (sleep: bool)
    ensures
        sleep == (watermark == capacity),
{
    watermark == capacity
}

/// Sleepers on the word of `shared` were woken.
pub open spec fn woken<T>(shared: Shared<T>) -> bool {
    exists|w: Woken<'_>| #[trigger] w.word() == shared.word()
}

/// The count of claimed slots of `tx` was published in the word of `shared`.
pub open spec fn published<T>(shared: Shared<T>, tx: SendView<T>) -> bool {
    exists|s: Stored<'_>| #[trigger] s.word() == shared.word() && s.value() == tx.watermark()
}

/// The record of an attempt to send `value` into the half of `shared`, with its answer.
pub open spec fn attempt_on<T>(
    attempt: AttemptView<T>,
    shared: Shared<T>,
    value: T,
    answer: Result<(), TrySendError<T>>,
) -> bool {
    &&& attempt.stamp == shared.stamp()
    &&& attempt.value == value
    &&& attempt.answer == answer
    &&& attempt.lawful(shared.capacity())
}

/// The sending half, its lock, and the word that senders sleep on.
#[verifier::reject_recursive_types(T)]
pub struct Shared<T> {
    half: RwLock<Guarded<T>, HalfInv>,
    watermark: AtomicU32,
    capacity: u32,
}

impl<T> Shared<T> {
    /// The number of slots of each block.
    pub closed spec fn capacity(self) -> nat {
        self.capacity as nat
    }

    /// The stamp of the half that the lock guards.
    pub closed spec fn stamp(self) -> int {
        self.half.pred().stamp
    }

    /// The word that senders sleep on.
    pub closed spec fn word(self) -> AtomicU32 {
        self.watermark
    }

    /// The lock guards a half of the right size.
    pub closed spec fn wf(self) -> bool {
        &&& 0 < self.capacity < SEALED
        &&& self.half.pred().capacity == self.capacity
    }

    /// A sending half whose block has `capacity` free slots, and the log of its receiver.
    pub fn new(capacity: u32) -> (both: (Self, Log<T>))
        requires
            0 < capacity < SEALED,
        ensures
            both.0.wf(),
            both.0.capacity() == capacity,
            both.1.stamp() == both.0.stamp(),
            both.1.origin() == SendView::<T>::empty(capacity as nat),
            both.1.turns() == Seq::<Turn<T>>::empty(),
    {
        let (half, log): (Guarded<T>, Log<T>) = Guarded::new(capacity);
        let ghost stamp = half.stamp();
        let shared = Shared {
            half: RwLock::new(half, Ghost(HalfInv { capacity, stamp })),
            watermark: AtomicU32::new(0),
            capacity,
        };
        (shared, log)
    }

    /// Sends `value` into the half as it is when the lock is got.
    pub fn try_send(&self, value: T) -> (done: (Result<(), TrySendError<T>>, Attempt<T>))
        requires
            self.wf(),
        ensures
            done.0 matches Err(e) ==> e.value == value,
            attempt_on(done.1@, *self, value, done.0),
            published(*self, done.1@.after),
    {
        let (mut half, lock) = self.half.acquire_write();
        let (done, attempt) = half.try_send(value);
        let stored = store_mark(&self.watermark, half.watermark());
        assert(stored.word() == self.word());
        lock.release_write(half);
        (done, attempt)
    }

    /// Sleeps while every slot of the sending block is claimed. The sleep may end early. `None`: no
    /// sleep was called for.
    pub fn wait_if_full(&self) -> (slept: Option<Slept<'_>>)
        ensures
            slept matches Some(s) ==> s.word() == self.word() && s.value() == self.capacity(),
    {
        let locked = self.watermark.load(Ordering::Relaxed);
        if must_wait(locked, self.capacity) {
            Some(sleep_while(&self.watermark, self.capacity))
        } else {
            None
        }
    }

    /// Begins a batch of `rx` with the half as it is when the lock is got.
    pub fn start(&self, rx: &mut RecvHalf<T>, log: &mut Log<T>)
        requires
            self.wf(),
            old(log).stamp() == self.stamp(),
            old(rx)@.wf(),
            old(rx)@.quiet(),
            old(rx)@.capacity() == self.capacity(),
        ensures
            final(rx)@.wf(),
            final(rx)@.quiet(),
            final(rx)@.capacity() == self.capacity(),
            exists|tx: SendView<T>| #[trigger]
                at_rest(tx, self.capacity()) && final(rx)@ == (QueueView {
                    rx: old(rx)@,
                    tx,
                }).start().rx,
            final(log).stamp() == old(log).stamp(),
            final(log).origin() == old(log).origin(),
            one_turn(
                old(log).turns(),
                final(log).turns(),
                Turning::Start,
                old(rx)@,
                final(rx)@,
                self.capacity(),
            ),
            final(log).turns().last().before.frees_room() ==> woken(*self),
            published(*self, final(log).turns().last().after.tx),
    {
        let (mut half, lock) = self.half.acquire_write();
        let ghost before = half@;
        let wake = half.start(rx, log);
        let stored = store_mark(&self.watermark, half.watermark());
        assert(stored.word() == self.word());
        lock.release_write(half);
        assert(at_rest(before, self.capacity()));
        assert(log.turns().drop_last() =~= old(log).turns());
        if wake {
            let called = wake_sleepers(&self.watermark);
            assert(called.word() == self.word());
        }
    }

    /// Ends a batch of `rx` with the half as it is when the lock is got.
    pub fn finish(&self, rx: &mut RecvHalf<T>, log: &mut Log<T>)
        requires
            self.wf(),
            old(log).stamp() == self.stamp(),
            old(rx)@.wf(),
            old(rx)@.quiet(),
            old(rx)@.capacity() == self.capacity(),
        ensures
            final(rx)@.wf(),
            final(rx)@.quiet(),
            final(rx)@.capacity() == self.capacity(),
            final(rx)@.settled(),
            exists|tx: SendView<T>| #[trigger]
                at_rest(tx, self.capacity()) && final(rx)@ == (QueueView {
                    rx: old(rx)@,
                    tx,
                }).finish().rx,
            final(log).stamp() == old(log).stamp(),
            final(log).origin() == old(log).origin(),
            one_turn(
                old(log).turns(),
                final(log).turns(),
                Turning::Finish,
                old(rx)@,
                final(rx)@,
                self.capacity(),
            ),
            final(log).turns().last().before.frees_room() ==> woken(*self),
            published(*self, final(log).turns().last().after.tx),
    {
        let (mut half, lock) = self.half.acquire_write();
        let ghost before = half@;
        let wake = half.finish(rx, log);
        let stored = store_mark(&self.watermark, half.watermark());
        assert(stored.word() == self.word());
        lock.release_write(half);
        assert(at_rest(before, self.capacity()));
        assert(log.turns().drop_last() =~= old(log).turns());
        if wake {
            let called = wake_sleepers(&self.watermark);
            assert(called.word() == self.word());
        }
    }

    /// Takes the block away from the senders, which closes the channel, and wakes those that wait
    /// for room. `None`: it was closed before.
    pub fn take_block(&self, rx: &RecvHalf<T>, log: &mut Log<T>) -> (block: Option<Block<T>>)
        requires
            self.wf(),
            old(log).stamp() == self.stamp(),
            rx@.wf(),
            rx@.quiet(),
            rx@.capacity() == self.capacity(),
        ensures
            block matches Some(b) ==> at_rest(SendView { block: Some(b@) }, self.capacity()),
            final(log).stamp() == old(log).stamp(),
            final(log).origin() == old(log).origin(),
            one_turn(
                old(log).turns(),
                final(log).turns(),
                Turning::Close,
                rx@,
                rx@,
                self.capacity(),
            ),
            block is Some == !final(log).turns().last().before.tx.is_closed(),
            block matches Some(b) ==> final(log).turns().last().before.tx.block == Some(b@),
            final(log).turns().last().before.tx.full() ==> woken(*self),
            published(*self, final(log).turns().last().after.tx),
    {
        let (mut half, lock) = self.half.acquire_write();
        let (block, wake) = half.take_block(rx, log);
        let stored = store_mark(&self.watermark, half.watermark());
        assert(stored.word() == self.word());
        lock.release_write(half);
        assert(log.turns().drop_last() =~= old(log).turns());
        if wake {
            let called = wake_sleepers(&self.watermark);
            assert(called.word() == self.word());
        }
        block
    }

    /// Whether `rx` may still receive something, given the half as it is when the lock is got.
    pub fn may_rx(&self, rx: &RecvHalf<T>, has_senders: bool) -> (may: (bool, Look<T>))
        requires
            self.wf(),
        ensures
            has_senders || rx@.block.written != 0 ==> may.0,
            may.1.stamp() == self.stamp(),
            at_rest(may.1.seen(), self.capacity()),
            may.0 == (has_senders || rx@.block.written != 0 || may.1.seen().pending().len() > 0),
    {
        let lock = self.half.acquire_read();
        let half = lock.borrow();
        let may = half.may_rx(rx, has_senders);
        lock.release_read();
        may
    }
}

} // verus!
