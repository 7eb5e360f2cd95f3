//! What the records of a channel say together.
//!
//! The lock puts all that is done with the sending half in one order. [`Entry`] is one thing done
//! with it, by its record; a chain is what was done from the making of the channel on, each entry
//! meeting the half that the one before it left.

use crate::error::{TrySendError, TrySendErrorType};
use crate::guarded::{AttemptView, Tally, Turn};
use crate::halves::SendView;
use crate::receiver::{senders_counted, senders_seen};
use crate::sender::persisted;
use crate::shared::{at_rest, Shared};
use vstd::prelude::*;

verus! {

/// One thing done with the sending half while the lock was held.
pub enum Entry<T> {
    /// A sender tried to send.
    Sent(AttemptView<T>),
    /// The receiver took a turn.
    Turned(Turn<T>),
    /// The receiver looked.
    Looked(SendView<T>),
}

impl<T> Entry<T> {
    /// The half that was met.
    pub open spec fn before(self) -> SendView<T> {
        match self {
            Entry::Sent(a) => a.before,
            Entry::Turned(t) => t.before.tx,
            Entry::Looked(seen) => seen,
        }
    }

    /// The half that was left.
    pub open spec fn after(self) -> SendView<T> {
        match self {
            Entry::Sent(a) => a.after,
            Entry::Turned(t) => t.after.tx,
            Entry::Looked(seen) => seen,
        }
    }

    pub open spec fn lawful(self, capacity: nat) -> bool {
        match self {
            Entry::Sent(a) => a.lawful(capacity),
            Entry::Turned(t) => t.lawful(capacity),
            Entry::Looked(seen) => at_rest(seen, capacity),
        }
    }

    /// The value that the senders' half got.
    pub open spec fn put(self) -> Seq<T> {
        match self {
            Entry::Sent(a) => if a.answer is Ok {
                seq![a.value]
            } else {
                Seq::empty()
            },
            _ => Seq::empty(),
        }
    }

    /// The values that the receiver got: those it holds after its turn and did not hold before it,
    /// or those of the block that it took away.
    pub open spec fn got(self) -> Seq<T> {
        match self {
            Entry::Turned(t) => if t.turning is Close {
                t.before.tx.pending()
            } else {
                t.after.rx.pending().skip(t.before.rx.pending().len() as int)
            },
            _ => Seq::empty(),
        }
    }
}

/// Each entry is lawful and meets the half that the one before it left, and the first meets
/// `origin`.
pub open spec fn chained<T>(origin: SendView<T>, entries: Seq<Entry<T>>, capacity: nat) -> bool {
    &&& at_rest(origin, capacity)
    &&& forall|i: int| 0 <= i < entries.len() ==> #[trigger] entries[i].lawful(capacity)
    &&& forall|i: int|
        0 <= i < entries.len() ==> #[trigger] entries[i].before() == (if i == 0 {
            origin
        } else {
            entries[i - 1].after()
        })
}

/// The half that the last entry left.
pub open spec fn left<T>(origin: SendView<T>, entries: Seq<Entry<T>>) -> SendView<T> {
    if entries.len() == 0 {
        origin
    } else {
        entries.last().after()
    }
}

/// All the values that were put into the half, in order.
pub open spec fn all_put<T>(entries: Seq<Entry<T>>) -> Seq<T>
    decreases entries.len(),
{
    if entries.len() == 0 {
        Seq::empty()
    } else {
        all_put(entries.drop_last()) + entries.last().put()
    }
}

/// All the values that the receiver got, in order.
pub open spec fn all_got<T>(entries: Seq<Entry<T>>) -> Seq<T>
    decreases entries.len(),
{
    if entries.len() == 0 {
        Seq::empty()
    } else {
        all_got(entries.drop_last()) + entries.last().got()
    }
}

proof fn lemma_shorter<T>(origin: SendView<T>, entries: Seq<Entry<T>>, capacity: nat)
    requires
        chained(origin, entries, capacity),
        entries.len() > 0,
    ensures
        chained(origin, entries.drop_last(), capacity),
        entries.last().lawful(capacity),
        entries.last().before() == left(origin, entries.drop_last()),
{
    let shorter = entries.drop_last();
    assert forall|i: int| 0 <= i < shorter.len() implies #[trigger] shorter[i].lawful(
        capacity,
    ) by {
        assert(shorter[i] == entries[i]);
        assert(entries[i].lawful(capacity));
    }
    assert forall|i: int| 0 <= i < shorter.len() implies #[trigger] shorter[i].before() == (if i
        == 0 {
        origin
    } else {
        shorter[i - 1].after()
    }) by {
        assert(shorter[i] == entries[i]);
        assert(entries[i].before() == (if i == 0 {
            origin
        } else {
            entries[i - 1].after()
        }));
    }
    assert(entries[entries.len() - 1].lawful(capacity));
    assert(entries[entries.len() - 1].before() == left(origin, shorter));
}

/// One thing done with the half: what waited in it, and then what was put into it, is what the
/// receiver got, and then what waits in it.
pub proof fn law_entry_keeps_values<T>(entry: Entry<T>, capacity: nat)
    requires
        entry.lawful(capacity),
    ensures
        entry.before().pending() + entry.put() == entry.got() + entry.after().pending(),
{
    let was = entry.before().pending() + entry.put();
    let is = entry.got() + entry.after().pending();
    match entry {
        Entry::Sent(a) => {
            assert(is =~= was);
        },
        Entry::Turned(t) => {
            if t.turning is Close || t.before.rx.pending().len() == 0 {
                assert(is =~= was);
            } else {
                assert(t.after == t.before);
                assert(entry.got() =~= Seq::<T>::empty());
                assert(is =~= was);
            }
        },
        Entry::Looked(seen) => {
            assert(is =~= was);
        },
    }
}

/// No value is lost, none is doubled, and none overtakes another: over whatever is done with the
/// half, what waited at first and was then accepted is what the receiver got, in the same order,
/// and then what still waits.
pub proof fn law_values_pass_in_order<T>(
    origin: SendView<T>,
    entries: Seq<Entry<T>>,
    capacity: nat,
)
    requires
        chained(origin, entries, capacity),
    ensures
        origin.pending() + all_put(entries) == all_got(entries) + left(origin, entries).pending(),
    decreases entries.len(),
{
    if entries.len() == 0 {
        assert(origin.pending() + all_put(entries) =~= all_got(entries) + origin.pending());
    } else {
        let shorter = entries.drop_last();
        lemma_shorter(origin, entries, capacity);
        law_values_pass_in_order(origin, shorter, capacity);
        law_entry_keeps_values(entries.last(), capacity);
        let put = entries.last().put();
        let met = left(origin, shorter).pending();
        assert(origin.pending() + all_put(entries) =~= (origin.pending() + all_put(shorter))
            + put);
        assert((all_got(shorter) + met) + put =~= all_got(shorter) + (met + put));
        assert(all_got(shorter) + (entries.last().got() + left(origin, entries).pending())
            =~= all_got(entries) + left(origin, entries).pending());
    }
}

/// Once the receiver has closed the channel it stays closed: every later attempt to send gives its
/// value back as closed, whatever the blocks held.
pub proof fn law_closed_from_then_on<T>(
    origin: SendView<T>,
    entries: Seq<Entry<T>>,
    capacity: nat,
    closing: int,
    later: int,
)
    requires
        chained(origin, entries, capacity),
        0 <= closing < later < entries.len(),
        entries[closing] matches Entry::Turned(t) && t.turning is Close,
    ensures
        entries[later].before().is_closed(),
        entries[later].after().is_closed(),
        entries[later] matches Entry::Sent(a) ==> a.answer == Err::<(), _>(
            TrySendError { value: a.value, ty: TrySendErrorType::Closed },
        ),
    decreases later,
{
    assert(entries[closing].lawful(capacity));
    assert(entries[later].lawful(capacity));
    assert(entries[later].before() == entries[later - 1].after());
    if later - 1 > closing {
        law_closed_from_then_on(origin, entries, capacity, closing, later - 1);
    }
}

/// What was accepted is seen: a look at the half that comes after an accepted send, with no turn
/// of the receiver in between, finds the value.
pub proof fn law_sent_is_seen<T>(
    origin: SendView<T>,
    entries: Seq<Entry<T>>,
    capacity: nat,
    sending: int,
    looking: int,
)
    requires
        chained(origin, entries, capacity),
        0 <= sending < looking < entries.len(),
        entries[sending] matches Entry::Sent(a) && a.answer is Ok,
        forall|i: int| sending < i < looking ==> !((#[trigger] entries[i]) is Turned),
    ensures
        entries[looking].before().pending().contains(entries[sending]->Sent_0.value),
        entries[looking].before().pending().len() > 0,
    decreases looking,
{
    let value = entries[sending]->Sent_0.value;
    assert(entries[sending].lawful(capacity));
    assert(entries[looking].before() == entries[looking - 1].after());
    if looking - 1 == sending {
        let after = entries[sending].after().pending();
        assert(after[after.len() - 1] == value);
    } else {
        law_sent_is_seen(origin, entries, capacity, sending, looking - 1);
        let met = entries[looking - 1].before().pending();
        let after = entries[looking - 1].after().pending();
        assert(entries[looking - 1].lawful(capacity));
        let i = choose|i: int| 0 <= i < met.len() && met[i] == value;
        assert(after[i] == value);
    }
}

/// What the answer to an attempt means: `Ok` only if the value was appended where there was room
/// for it, full only if as many values waited as the capacity allows, and closed only if the
/// channel was; a refused value comes back, and nothing changed.
pub proof fn law_answer<T>(
    attempt: AttemptView<T>,
    shared: Shared<T>,
    value: T,
    answer: Result<(), TrySendError<T>>,
)
    requires
        crate::shared::attempt_on(attempt, shared, value, answer),
    ensures
        answer is Ok ==> attempt.before.pending().len() < shared.capacity()
            && attempt.after.pending() == attempt.before.pending().push(value),
        answer matches Err(e) ==> e.value == value && attempt.after == attempt.before,
        answer matches Err(e) ==> (e.ty is Closed <==> attempt.before.is_closed()),
        answer matches Err(e) ==> (e.ty is Full ==> attempt.before.pending().len()
            == shared.capacity()),
{
}

/// What the answer to a patient send means: it is `Ok` only if an attempt appended the value, and
/// none before it did; it is full only after all the attempts that were allowed found no room; and
/// it is closed only if an attempt found the channel closed.
pub proof fn law_patient_answer<T>(
    tally: Tally<T>,
    shared: Shared<T>,
    value: T,
    answer: Result<(), TrySendError<T>>,
    rounds: nat,
)
    requires
        persisted(tally, shared, value, answer, rounds),
    ensures
        answer is Ok ==> {
            let last = tally.attempts().last();
            &&& last.before.pending().len() < shared.capacity()
            &&& last.after.pending() == last.before.pending().push(value)
        },
        forall|i: int|
            0 <= i < tally.attempts().len() - 1 ==> (#[trigger] tally.attempts()[i]).after
                == tally.attempts()[i].before,
        answer matches Err(e) ==> e.value == value,
        answer matches Err(e) ==> e.ty is Full ==> {
            &&& tally.attempts().len() == rounds
            &&& forall|i: int|
                0 <= i < rounds ==> (#[trigger] tally.attempts()[i]).before.pending().len()
                    == shared.capacity()
        },
        answer matches Err(e) ==> e.ty is Closed ==> tally.attempts().last().before.is_closed(),
{
    let attempts = tally.attempts();
    assert(crate::shared::attempt_on(
        attempts[attempts.len() - 1],
        shared,
        value,
        attempts[attempts.len() - 1].answer,
    ));
    assert forall|i: int| 0 <= i < attempts.len() implies crate::shared::attempt_on(
        #[trigger] attempts[i],
        shared,
        value,
        attempts[i].answer,
    ) by {}
}

/// What an answer about senders means: there are others exactly if two handles or more were
/// counted, the receiver's among them.
pub proof fn law_others_counted<T>(shared: Shared<T>, others: bool)
    requires
        senders_counted(shared, others),
    ensures
        others ==> exists|count: crate::wake::HandleCount<'_, Shared<T>>| #[trigger]
            count.of() == shared && count.handles() >= 2,
        !others ==> exists|count: crate::wake::HandleCount<'_, Shared<T>>| #[trigger]
            count.of() == shared && count.handles() <= 1,
{
}

/// What an answer about waiting values means: some waited exactly if the half that was seen was
/// open and not empty.
pub proof fn law_values_seen<T>(shared: Shared<T>, some: bool)
    requires
        senders_seen(shared, some),
    ensures
        exists|look: crate::guarded::Look<T>| #[trigger]
            look.stamp() == shared.stamp() && some == look.seen().non_empty(),
{
    let look = choose|look: crate::guarded::Look<T>| #[trigger]
        look.stamp() == shared.stamp() && at_rest(look.seen(), shared.capacity()) && some == (
        look.seen().pending().len() > 0);
    assert(look.stamp() == shared.stamp());
}

/// A single attempt is the patience of one round.
pub proof fn law_one_attempt<T>(
    tally: Tally<T>,
    shared: Shared<T>,
    value: T,
    answer: Result<(), TrySendError<T>>,
)
    requires
        persisted(tally, shared, value, answer, 1),
    ensures
        tally.attempts().len() == 1,
        tally.attempts()[0].answer == answer,
        tally.attempts()[0].lawful(shared.capacity()),
{
}

} // verus!
