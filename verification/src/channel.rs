//! Making a channel.

use crate::block::SEALED;
use crate::guarded::{Log, Turn};
use crate::halves::{RecvView, SendView};
use crate::receiver::Receiver;
use crate::sender::Sender;
use crate::shared::Shared;
use std::sync::Arc;
use vstd::prelude::*;

verus! {

/// The number of slots of each of the two blocks of a channel of `capacity`: half of it, rounded
/// up, but less than [`SEALED`].
pub open spec fn half_capacity(capacity: nat) -> nat {
    let half = (capacity + 1) / 2;
    if half < SEALED {
        half
    } else {
        (SEALED - 1) as nat
    }
}

/// Computes [`half_capacity`].
pub fn halve_capacity(capacity: usize) -> (half: u32)
    ensures
        half == half_capacity(capacity as nat),
{
    let half: usize = if capacity % 2 == 0 {
        capacity / 2
    } else {
        capacity / 2 + 1
    };
    if half < SEALED as usize {
        half as u32
    } else {
        SEALED - 1
    }
}

/// Makes a channel of the given capacity. The capacity is rounded up to an even number, and capped
/// so that each of the two blocks it is divided into has fewer than `u32::MAX` slots.
pub fn channel<T>(capacity: usize) -> (ends: (Receiver<T>, Sender<T>))
    requires
        capacity > 0,
    ensures
        ends.0.wf(),
        ends.0@ == RecvView::<T>::empty(half_capacity(capacity as nat)),
        ends.0.received() == Seq::<T>::empty(),
        ends.0.batches() == 0,
        ends.0.origin() == SendView::<T>::empty(half_capacity(capacity as nat)),
        ends.0.turns() == Seq::<Turn<T>>::empty(),
        ends.1.wf(),
        ends.1.shared() == ends.0.shared(),
{
    let half = halve_capacity(capacity);
    let (shared, log): (Shared<T>, Log<T>) = Shared::new(half);
    let shared: Arc<Shared<T>> = Arc::new(shared);
    let tx = Sender::new(Arc::clone(&shared));
    let rx = Receiver::new(half, shared, log);
    (rx, tx)
}

/// A channel has room for the capacity asked for, at most one value more, unless that is capped;
/// and each of its blocks can hold something and leaves the mark of a sealed block free.
pub proof fn law_capacity(capacity: nat)
    requires
        capacity > 0,
    ensures
        0 < half_capacity(capacity) < SEALED,
        capacity <= 2 * (SEALED - 1) ==> capacity <= 2 * half_capacity(capacity) <= capacity + 1,
        capacity > 2 * (SEALED - 1) ==> half_capacity(capacity) == SEALED - 1,
{
}

} // verus!
