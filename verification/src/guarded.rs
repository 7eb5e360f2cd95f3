//! The sending half as the lock guards it, and the records of what is done with it.
//!
//! A [`Guarded`] half bears a stamp, and nothing is said of which one a new half gets. So a half
//! with the stamp of a channel can only be the one that the channel was made with: whoever takes
//! it from the lock cannot put another one back.
//!
//! What is done with it leaves a record, which nothing else can make. An [`Attempt`] is the record
//! of a send, a [`Look`] that of an inspection, and the [`Log`] that of all the receiver's turns.
//! There is one log for each channel, and each turn of the receiver goes through it.

use crate::block::{Block, SEALED};
use crate::error::{TrySendError, TrySendErrorType};
use crate::halves::{QueueView, RecvHalf, RecvView, SendHalf, SendView};
use crate::shared::at_rest;
use vstd::prelude::*;

verus! {

/// One attempt to send: the half it met, the half it left, the value, and the answer.
pub struct AttemptView<T> {
    pub stamp: int,
    pub before: SendView<T>,
    pub after: SendView<T>,
    pub value: T,
    pub answer: Result<(), TrySendError<T>>,
}

impl<T> AttemptView<T> {
    /// An accepted value was appended to the values that waited, of which there were fewer than
    /// the capacity. A refused value came back and nothing changed: as many values waited as the
    /// capacity allows, or the channel was closed, and the answer says which.
    pub open spec fn lawful(self, capacity: nat) -> bool {
        &&& at_rest(self.before, capacity)
        &&& at_rest(self.after, capacity)
        &&& match self.answer {
            Ok(()) => {
                &&& !self.before.is_closed()
                &&& self.before.pending().len() < capacity
                &&& !self.after.is_closed()
                &&& self.after.pending() == self.before.pending().push(self.value)
            },
            Err(e) => {
                &&& self.after == self.before
                &&& e.value == self.value
                &&& match e.ty {
                    TrySendErrorType::Full => !self.before.is_closed()
                        && self.before.pending().len() == capacity,
                    TrySendErrorType::Closed => self.before.is_closed(),
                }
            },
        }
    }

    pub open spec fn is_full(self) -> bool {
        self.answer matches Err(e) && e.ty is Full
    }
}

/// The record of one attempt to send.
#[verifier::reject_recursive_types(T)]
pub struct Attempt<T> {
    record: Ghost<AttemptView<T>>,
}

impl<T> View for Attempt<T> {
    type V = AttemptView<T>;

    closed spec fn view(&self) -> AttemptView<T> {
        self.record@
    }
}

/// The records of several attempts, each a different one, in the order in which they were made.
#[verifier::reject_recursive_types(T)]
pub struct Tally<T> {
    attempts: Ghost<Seq<AttemptView<T>>>,
}

impl<T> Tally<T> {
    pub closed spec fn attempts(self) -> Seq<AttemptView<T>> {
        self.attempts@
    }

    /// No attempt.
    pub fn new() -> (tally: Self)
        ensures
            tally.attempts() == Seq::<AttemptView<T>>::empty(),
    {
        Tally { attempts: Ghost(Seq::empty()) }
    }

    /// One attempt more, whose record is used up.
    pub fn add(&mut self, attempt: Attempt<T>)
        ensures
            final(self).attempts() == old(self).attempts().push(attempt@),
    {
        self.attempts = Ghost(self.attempts@.push(attempt@));
    }
}

/// The record of an inspection: the half as it was.
#[verifier::reject_recursive_types(T)]
pub struct Look<T> {
    stamp: Ghost<int>,
    seen: Ghost<SendView<T>>,
}

impl<T> Look<T> {
    pub closed spec fn stamp(self) -> int {
        self.stamp@
    }

    /// The half as it was.
    pub closed spec fn seen(self) -> SendView<T> {
        self.seen@
    }
}

/// What the receiver does in a turn.
pub enum Turning {
    /// It begins a batch.
    Start,
    /// It ends a batch.
    Finish,
    /// It takes the senders' block away.
    Close,
}

/// One turn of the receiver: both halves when it got the lock, and both when it gave it back.
pub struct Turn<T> {
    pub turning: Turning,
    pub before: QueueView<T>,
    pub after: QueueView<T>,
}

impl<T> Turn<T> {
    /// Both halves are in order and no send is under way.
    pub open spec fn at_rest(self, capacity: nat) -> bool {
        &&& self.before.wf() && self.before.quiet() && self.before.rx.capacity() == capacity
        &&& self.after.wf() && self.after.quiet() && self.after.rx.capacity() == capacity
    }

    /// - Beginning and ending a batch leaves every value in the queue, in its place, and an open
    ///   channel open. A receiver that holds something keeps it; one that holds nothing gets all
    ///   that waits with the senders. Ending a batch leaves the receiver settled.
    /// - Closing leaves the channel closed, and the receiver what it holds.
    pub open spec fn lawful(self, capacity: nat) -> bool {
        &&& self.at_rest(capacity)
        &&& match self.turning {
            Turning::Close => {
                &&& self.after.tx.is_closed()
                &&& self.after.rx == self.before.rx
            },
            _ => {
                &&& self.after.queue() == self.before.queue()
                &&& self.after.tx.is_closed() == self.before.tx.is_closed()
                &&& self.before.rx.pending().len() > 0 ==> self.after == self.before
                &&& self.before.rx.pending().len() == 0 ==> {
                    &&& self.after.rx.pending() == self.before.tx.pending()
                    &&& self.after.tx.pending() == Seq::<T>::empty()
                }
                &&& self.turning is Finish ==> self.after.rx.settled()
            },
        }
    }
}

/// The record of all the turns of the receiver of a channel.
#[verifier::reject_recursive_types(T)]
pub struct Log<T> {
    stamp: Ghost<int>,
    origin: Ghost<SendView<T>>,
    turns: Ghost<Seq<Turn<T>>>,
}

impl<T> Log<T> {
    pub closed spec fn stamp(self) -> int {
        self.stamp@
    }

    /// The sending half that the channel was made with.
    pub closed spec fn origin(self) -> SendView<T> {
        self.origin@
    }

    /// The turns, in the order in which they were taken.
    pub closed spec fn turns(self) -> Seq<Turn<T>> {
        self.turns@
    }
}

/// `later` has the turns of `earlier` and one more, in which the receiver's half went from
/// `before` to `after`.
pub open spec fn one_turn<T>(
    earlier: Seq<Turn<T>>,
    later: Seq<Turn<T>>,
    turning: Turning,
    before: RecvView<T>,
    after: RecvView<T>,
    capacity: nat,
) -> bool {
    &&& later.len() == earlier.len() + 1
    &&& later.drop_last() == earlier
    &&& later.last().turning == turning
    &&& later.last().before.rx == before
    &&& later.last().after.rx == after
    &&& later.last().lawful(capacity)
}

/// The sending half of a channel, with the stamp of the channel.
#[verifier::reject_recursive_types(T)]
pub struct Guarded<T> {
    half: SendHalf<T>,
    stamp: Ghost<int>,
}

impl<T> View for Guarded<T> {
    type V = SendView<T>;

    closed spec fn view(&self) -> SendView<T> {
        self.half@
    }
}

impl<T> Guarded<T> {
    pub closed spec fn stamp(self) -> int {
        self.stamp@
    }

    /// A sending half whose block has `capacity` free slots, and the log that goes with it.
    pub fn new(capacity: u32) -> (both: (Self, Log<T>))
        requires
            0 < capacity < SEALED,
        ensures
            both.0@ == SendView::<T>::empty(capacity as nat),
            at_rest(both.0@, capacity as nat),
            both.1.stamp() == both.0.stamp(),
            both.1.origin() == both.0@,
            both.1.turns() == Seq::<Turn<T>>::empty(),
    {
        let half: SendHalf<T> = SendHalf::new(capacity);
        let ghost stamp: int = arbitrary();
        let log = Log {
            stamp: Ghost(stamp),
            origin: Ghost(half@),
            turns: Ghost(Seq::empty()),
        };
        (Guarded { half, stamp: Ghost(stamp) }, log)
    }

    /// Sends `value`, unless there is no room or no receiver: then the value comes back.
    pub fn try_send(&mut self, value: T) -> (done: (Result<(), TrySendError<T>>, Attempt<T>))
        requires
            old(self)@.wf(),
            old(self)@.quiet(),
        ensures
            (final(self)@, done.0) == old(self)@.try_send(value),
            final(self)@.wf(),
            final(self)@.quiet(),
            final(self).stamp() == old(self).stamp(),
            done.1@ == (AttemptView {
                stamp: old(self).stamp(),
                before: old(self)@,
                after: final(self)@,
                value,
                answer: done.0,
            }),
            forall|capacity: nat|
                old(self)@.sized(capacity) ==> #[trigger] done.1@.lawful(capacity),
    {
        let ghost before = self.half@;
        let done = self.half.try_send(value);
        let ghost record = AttemptView {
            stamp: self.stamp@,
            before,
            after: self.half@,
            value,
            answer: done,
        };
        assert forall|capacity: nat| before.sized(capacity) implies #[trigger] record.lawful(
            capacity,
        ) by {
            lemma_attempt(before, value, capacity);
        }
        (done, Attempt { record: Ghost(record) })
    }

    /// Begins a batch of `rx`. Returns whether senders may be waiting for the room that this made.
    pub fn start(&mut self, rx: &mut RecvHalf<T>, log: &mut Log<T>) -> (wake: bool)
        requires
            old(log).stamp() == old(self).stamp(),
            at_rest(old(self)@, old(rx)@.capacity()),
            old(rx)@.wf(),
            old(rx)@.quiet(),
        ensures
            final(self).stamp() == old(self).stamp(),
            final(log).stamp() == old(log).stamp(),
            final(log).origin() == old(log).origin(),
            final(log).turns() == old(log).turns().push(
                Turn {
                    turning: Turning::Start,
                    before: QueueView { rx: old(rx)@, tx: old(self)@ },
                    after: QueueView { rx: final(rx)@, tx: final(self)@ },
                },
            ),
            (QueueView { rx: final(rx)@, tx: final(self)@ }) == (QueueView {
                rx: old(rx)@,
                tx: old(self)@,
            }).start(),
            final(log).turns().last().lawful(old(rx)@.capacity()),
            wake == (QueueView { rx: old(rx)@, tx: old(self)@ }).frees_room(),
    {
        let ghost before = QueueView { rx: rx@, tx: self.half@ };
        let wake = rx.start(&mut self.half);
        let ghost after = QueueView { rx: rx@, tx: self.half@ };
        proof {
            lemma_turn(before, Turning::Start);
        }
        log.turns = Ghost(log.turns@.push(Turn { turning: Turning::Start, before, after }));
        wake
    }

    /// Ends a batch of `rx`. Returns whether senders may be waiting for the room that this made.
    pub fn finish(&mut self, rx: &mut RecvHalf<T>, log: &mut Log<T>) -> (wake: bool)
        requires
            old(log).stamp() == old(self).stamp(),
            at_rest(old(self)@, old(rx)@.capacity()),
            old(rx)@.wf(),
            old(rx)@.quiet(),
        ensures
            final(self).stamp() == old(self).stamp(),
            final(log).stamp() == old(log).stamp(),
            final(log).origin() == old(log).origin(),
            final(log).turns() == old(log).turns().push(
                Turn {
                    turning: Turning::Finish,
                    before: QueueView { rx: old(rx)@, tx: old(self)@ },
                    after: QueueView { rx: final(rx)@, tx: final(self)@ },
                },
            ),
            (QueueView { rx: final(rx)@, tx: final(self)@ }) == (QueueView {
                rx: old(rx)@,
                tx: old(self)@,
            }).finish(),
            final(log).turns().last().lawful(old(rx)@.capacity()),
            wake == (QueueView { rx: old(rx)@, tx: old(self)@ }).frees_room(),
    {
        let ghost before = QueueView { rx: rx@, tx: self.half@ };
        let wake = rx.finish(&mut self.half);
        let ghost after = QueueView { rx: rx@, tx: self.half@ };
        proof {
            lemma_turn(before, Turning::Finish);
        }
        log.turns = Ghost(log.turns@.push(Turn { turning: Turning::Finish, before, after }));
        wake
    }

    /// Takes the block away from the senders, which closes the channel. `None`: it was closed
    /// before. Returns also whether senders may be waiting for room that will not come.
    pub fn take_block(&mut self, rx: &RecvHalf<T>, log: &mut Log<T>) -> (taken: (
        Option<Block<T>>,
        bool,
    ))
        requires
            old(log).stamp() == old(self).stamp(),
            at_rest(old(self)@, rx@.capacity()),
            rx@.wf(),
            rx@.quiet(),
        ensures
            final(self).stamp() == old(self).stamp(),
            final(log).stamp() == old(log).stamp(),
            final(log).origin() == old(log).origin(),
            final(log).turns() == old(log).turns().push(
                Turn {
                    turning: Turning::Close,
                    before: QueueView { rx: rx@, tx: old(self)@ },
                    after: QueueView { rx: rx@, tx: final(self)@ },
                },
            ),
            final(self)@.is_closed(),
            final(log).turns().last().lawful(rx@.capacity()),
            taken.0 is Some == !old(self)@.is_closed(),
            taken.0 matches Some(b) ==> old(self)@.block == Some(b@),
            taken.1 == old(self)@.full(),
    {
        let ghost before = QueueView { rx: rx@, tx: self.half@ };
        let wake = self.half.is_full();
        let block = self.half.take_block();
        let ghost after = QueueView { rx: rx@, tx: self.half@ };
        log.turns = Ghost(log.turns@.push(Turn { turning: Turning::Close, before, after }));
        (block, wake)
    }

    /// Whether `rx` may still receive something.
    pub fn may_rx(&self, rx: &RecvHalf<T>, has_senders: bool) -> (may: (bool, Look<T>))
        requires
            self@.wf(),
        ensures
            may.1.stamp() == self.stamp(),
            may.1.seen() == self@,
            may.0 == (has_senders || rx@.block.written != 0 || self@.pending().len() > 0),
    {
        let may = rx.may_rx(has_senders, &self.half);
        (may, Look { stamp: self.stamp, seen: Ghost(self.half@) })
    }

    /// The count of claimed slots, or [`SEALED`] when closed.
    pub fn watermark(&self) -> (locked: u32)
        ensures
            locked == self@.watermark(),
    {
        self.half.watermark()
    }
}

proof fn lemma_attempt<T>(before: SendView<T>, value: T, capacity: nat)
    requires
        at_rest(before, capacity),
    ensures
        ({
            let (after, answer) = before.try_send(value);
            &&& at_rest(after, capacity)
            &&& match answer {
                Ok(()) => {
                    &&& !before.is_closed()
                    &&& before.pending().len() < capacity
                    &&& !after.is_closed()
                    &&& after.pending() == before.pending().push(value)
                },
                Err(e) => {
                    &&& after == before
                    &&& e.value == value
                    &&& match e.ty {
                        TrySendErrorType::Full => !before.is_closed() && before.pending().len()
                            == capacity,
                        TrySendErrorType::Closed => before.is_closed(),
                    }
                },
            }
        }),
{
    let (after, answer) = before.try_send(value);
    if answer is Ok {
        let b = before.block->0;
        let c = after.block->0;
        assert forall|i: int| 0 <= i < c.written implies (#[trigger] c.slots[i]) is Some by {
            if i < b.written {
                assert(b.slots[i] is Some);
            }
        }
        assert(after.pending() =~= before.pending().push(value));
    }
}

proof fn lemma_turn<T>(before: QueueView<T>, turning: Turning)
    requires
        before.wf(),
        before.quiet(),
        turning is Start || turning is Finish,
    ensures
        (Turn {
            turning,
            before,
            after: if turning is Start {
                before.start()
            } else {
                before.finish()
            },
        }).lawful(before.rx.capacity()),
{
    crate::laws::law_start_keeps(before);
    crate::laws::law_finish_keeps(before);
    let after = if turning is Start {
        before.start()
    } else {
        before.finish()
    };
    if before.rx.pending().len() == 0 {
        assert(after.rx.pending() =~= before.tx.pending());
        assert(after.tx.pending() =~= Seq::<T>::empty());
    }
}

} // verus!
