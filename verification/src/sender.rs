//! The handle of a sender.

use crate::error::{TrySendError, TrySendErrorType};
use crate::guarded::{Attempt, Tally};
use crate::shared::{attempt_on, Shared};
use std::sync::Arc;
use vstd::prelude::*;

verus! {

/// Sends values into a channel. Clones send into the same one.
#[verifier::reject_recursive_types(T)]
pub struct Sender<T> {
    shared: Arc<Shared<T>>,
}

impl<T> Sender<T> {
    /// What the handles of the channel share.
    pub closed spec fn shared(self) -> Shared<T> {
        *self.shared
    }

    pub open spec fn wf(self) -> bool {
        self.shared().wf()
    }

    /// The number of slots of each block of the channel.
    pub open spec fn capacity(self) -> nat {
        self.shared().capacity()
    }

    /// A handle on the channel of `shared`.
    pub(crate) fn new(shared: Arc<Shared<T>>) -> (tx: Self)
        ensures
            tx.shared() == *shared,
    {
        Sender { shared }
    }
}

/// `answer` is that of one attempt to send `value` into the half of `shared`.
pub open spec fn answered<T>(
    shared: Shared<T>,
    value: T,
    answer: Result<(), TrySendError<T>>,
) -> bool {
    exists|attempt: Attempt<T>| attempt_on(#[trigger] attempt@, shared, value, answer)
}

/// The attempts to send `value` into the half of `shared` came to `answer`: each found no room but
/// the last, whose answer it is, and only the attempt that is number `rounds` may find no room and
/// be the last.
pub open spec fn persisted<T>(
    tally: Tally<T>,
    shared: Shared<T>,
    value: T,
    answer: Result<(), TrySendError<T>>,
    rounds: nat,
) -> bool {
    let attempts = tally.attempts();
    &&& 0 < attempts.len() <= rounds
    &&& forall|i: int|
        0 <= i < attempts.len() ==> attempt_on(
            #[trigger] attempts[i],
            shared,
            value,
            attempts[i].answer,
        )
    &&& forall|i: int| 0 <= i < attempts.len() - 1 ==> (#[trigger] attempts[i]).is_full()
    &&& attempts.last().answer == answer
    &&& attempts.last().is_full() ==> attempts.len() == rounds
}

impl<T> Sender<T> where T: Send {
    /// Sends `value` if there is room for it now. If not, or if the receiver is gone, the value
    /// comes back. Other threads decide which of these it is: the answer is that of an attempt on
    /// the half as it was met, and [`AttemptView::lawful`](crate::guarded::AttemptView::lawful)
    /// says what it means.
    pub fn try_send(&self, value: T) -> (done: Result<(), TrySendError<T>>)
        requires
            self.wf(),
        ensures
            done matches Err(e) ==> e.value == value,
            answered(self.shared(), value, done),
    {
        let (done, attempt) = self.shared.try_send(value);
        assert(attempt_on(attempt@, self.shared(), value, done));
        done
    }

    /// Sends `value`, and sleeps while there is no room for it, up to `rounds` attempts in all. If
    /// the receiver is gone, or if every attempt found no room, the value comes back, and the
    /// error says which: the answer is that of the last attempt.
    pub fn blocking_send(&self, value: T, rounds: u64) -> (done: Result<(), TrySendError<T>>)
        requires
            self.wf(),
            rounds > 0,
        ensures
            done matches Err(e) ==> e.value == value,
            exists|tally: Tally<T>| #[trigger]
                persisted(tally, self.shared(), value, done, rounds as nat),
    {
        let mut held = value;
        let mut left: u64 = rounds;
        let mut tally: Tally<T> = Tally::new();
        while left > 1
            invariant
                self.wf(),
                1 <= left <= rounds,
                held == value,
                tally.attempts().len() == rounds - left,
                forall|i: int|
                    0 <= i < tally.attempts().len() ==> attempt_on(
                        #[trigger] tally.attempts()[i],
                        self.shared(),
                        value,
                        tally.attempts()[i].answer,
                    ),
                forall|i: int|
                    0 <= i < tally.attempts().len() ==> (#[trigger] tally.attempts()[i]).is_full(),
            decreases left,
        {
            let (done, attempt) = self.shared.try_send(held);
            tally.add(attempt);
            match done {
                Ok(accepted) => {
                    let answer = Ok(accepted);
                    assert(persisted(tally, self.shared(), value, answer, rounds as nat));
                    return answer;
                },
                Err(refused) => match refused.retry() {
                    Ok(again) => held = again,
                    Err(closed) => {
                        let answer = Err(
                            TrySendError { value: closed.value, ty: TrySendErrorType::Closed },
                        );
                        assert(persisted(tally, self.shared(), value, answer, rounds as nat));
                        return answer;
                    },
                },
            }
            self.shared.wait_if_full();
            left -= 1;
        }
        let (done, attempt) = self.shared.try_send(held);
        tally.add(attempt);
        assert(persisted(tally, self.shared(), value, done, rounds as nat));
        done
    }
}

impl<T> Clone for Sender<T> {
    fn clone(&self) -> (tx: Self)
        ensures
            tx.shared() == self.shared(),
    {
        Sender { shared: Arc::clone(&self.shared) }
    }
}

} // verus!
