//! A block: a fixed run of slots with two watermarks.
//!
//! `locked` counts the slots that some sender has claimed and `written` the slots whose value is
//! in place, so that the slots below `written` may be read, those from `written` to `locked` are
//! still being filled, and those from `locked` on are free. A block that takes no more senders is
//! *sealed*: its `locked` is [`SEALED`], a count that no block can reach.
//!
//! Sending goes through three steps ([`Block::lock_slot`], [`Block::write`], [`Block::publish`]).
//! Each is stated for every block it may meet, whatever other senders have done in between;
//! [`Block::push`] is the three in a row.

use vstd::prelude::*;

verus! {

/// The value of `locked` that marks a sealed block.
pub const SEALED: u32 = 0xffff_ffff;

/// What a block holds.
#[verifier::ext_equal]
pub struct BlockView<T> {
    /// Slots claimed by senders, or [`SEALED`].
    pub locked: nat,
    /// Slots whose value is in place.
    pub written: nat,
    /// The slots; `None` is a slot without a value.
    pub slots: Seq<Option<T>>,
}

impl<T> BlockView<T> {
    /// A block of `capacity` slots that nobody has used.
    pub open spec fn empty(capacity: nat) -> Self {
        BlockView { locked: 0, written: 0, slots: Seq::new(capacity, |i: int| None::<T>) }
    }

    pub open spec fn capacity(self) -> nat {
        self.slots.len()
    }

    /// The block refuses every sender.
    pub open spec fn sealed(self) -> bool {
        self.locked == SEALED
    }

    /// The watermarks are in order and within the slots.
    pub open spec fn wf(self) -> bool {
        &&& 0 < self.capacity() < SEALED
        &&& self.written <= self.capacity()
        &&& self.sealed() || self.written <= self.locked <= self.capacity()
    }

    /// Every claimed slot has its value: no sender is between claiming and publishing.
    pub open spec fn quiet(self) -> bool {
        self.locked == self.written
    }

    /// A sender can claim a slot.
    pub open spec fn has_room(self) -> bool {
        self.locked < self.capacity()
    }

    /// Every slot of `[start, end)` holds a value.
    pub open spec fn filled(self, start: int, end: int) -> bool {
        forall|i: int| start <= i < end ==> (#[trigger] self.slots[i]) is Some
    }

    /// The values in the slots of `[start, end)`, in slot order.
    pub open spec fn items(self, start: int, end: int) -> Seq<T> {
        Seq::new((end - start) as nat, |i: int| self.slots[start + i]->0)
    }

    /// A sender claims the next slot.
    pub open spec fn lock_slot(self) -> Self {
        BlockView { locked: self.locked + 1, ..self }
    }

    /// `it` is put into slot `idx`.
    pub open spec fn write(self, idx: int, it: T) -> Self {
        BlockView { slots: self.slots.update(idx, Some(it)), ..self }
    }

    /// The first unpublished slot is published.
    pub open spec fn publish(self) -> Self {
        BlockView { written: self.written + 1, ..self }
    }

    /// A sender claims the next slot, fills it with `it` and publishes it.
    pub open spec fn push(self, it: T) -> Self {
        self.lock_slot().write(self.locked as int, it).publish()
    }

    /// The block is closed to senders.
    pub open spec fn seal(self) -> Self {
        BlockView { locked: SEALED as nat, ..self }
    }

    /// The value of slot `idx` is moved out.
    pub open spec fn take(self, idx: int) -> Self {
        BlockView { slots: self.slots.update(idx, None), ..self }
    }

    /// The values of the slots in `[start, end)` are dropped.
    pub open spec fn clear(self, start: int, end: int) -> Self {
        BlockView {
            slots: Seq::new(
                self.slots.len(),
                |i: int| if start <= i < end { None } else { self.slots[i] },
            ),
            ..self
        }
    }

    /// Both watermarks go back to the start; the slots stay as they are.
    pub open spec fn reset(self) -> Self {
        BlockView { locked: 0, written: 0, ..self }
    }
}

/// A fixed run of slots with its watermarks.
#[verifier::reject_recursive_types(T)]
pub struct Block<T> {
    locked: u32,
    written: u32,
    data: Vec<Option<T>>,
}

impl<T> View for Block<T> {
    type V = BlockView<T>;

    closed spec fn view(&self) -> BlockView<T> {
        BlockView { locked: self.locked as nat, written: self.written as nat, slots: self.data@ }
    }
}

impl<T> Block<T> {
    /// A block of `capacity` free slots.
    pub fn new(capacity: u32) -> (block: Self)
        requires
            0 < capacity < SEALED,
        ensures
            block@ == BlockView::<T>::empty(capacity as nat),
            block@.wf(),
    {
        let mut data: Vec<Option<T>> = Vec::with_capacity(capacity as usize);
        let mut i: u32 = 0;
        while i < capacity
            invariant
                i <= capacity,
                data@ == Seq::new(i as nat, |j: int| None::<T>),
            decreases capacity - i,
        {
            data.push(None);
            i += 1;
        }
        Block { locked: 0, written: 0, data }
    }

    /// The number of slots.
    pub fn capacity(&self) -> (capacity: u32)
        requires
            self@.wf(),
        ensures
            capacity == self@.capacity(),
    {
        self.data.len() as u32
    }

    /// Looks at the value of a published slot.
    pub fn get(&self, idx: u32) -> (it: &T)
        requires
            self@.wf(),
            idx < self@.written,
            self@.slots[idx as int] is Some,
        ensures
            *it == self@.slots[idx as int]->0,
    {
        match &self.data[idx as usize] {
            Some(it) => it,
            None => vstd::pervasive::unreached(),
        }
    }

    /// Gives mutable access to the value of a published slot.
    pub fn get_mut(&mut self, idx: u32) -> (it: &mut T)
        requires
            old(self)@.wf(),
            idx < old(self)@.written,
            old(self)@.slots[idx as int] is Some,
        ensures
            *it == old(self)@.slots[idx as int]->0,
            final(self)@ == old(self)@.write(idx as int, *final(it)),
    {
        match &mut self.data[idx as usize] {
            Some(it) => it,
            None => vstd::pervasive::unreached(),
        }
    }

    /// Moves the value out of a published slot.
    pub fn take(&mut self, idx: u32) -> (it: T)
        requires
            old(self)@.wf(),
            idx < old(self)@.written,
            old(self)@.slots[idx as int] is Some,
        ensures
            it == old(self)@.slots[idx as int]->0,
            final(self)@ == old(self)@.take(idx as int),
            final(self)@.wf(),
    {
        match self.data[idx as usize].take() {
            Some(it) => it,
            None => vstd::pervasive::unreached(),
        }
    }

    /// Claims the next free slot for a sender. `None`: the block is full, or sealed.
    pub fn lock_slot(&mut self) -> (slot: Option<u32>)
        requires
            old(self)@.wf(),
        ensures
            final(self)@.wf(),
            old(self)@.has_room() ==> slot == Some(old(self)@.locked as u32) && final(self)@
                == old(self)@.lock_slot(),
            !old(self)@.has_room() ==> slot is None && final(self)@ == old(self)@,
    {
        let locked = self.locked;
        if locked >= self.capacity() {
            return None;
        }
        self.locked = locked + 1;
        Some(locked)
    }

    /// Puts a value into a slot that its sender has claimed and not published.
    pub fn write(&mut self, idx: u32, it: T)
        requires
            old(self)@.wf(),
            old(self)@.written <= idx < old(self)@.capacity(),
            idx < old(self)@.locked,
        ensures
            final(self)@ == old(self)@.write(idx as int, it),
            final(self)@.wf(),
    {
        self.data[idx as usize] = Some(it);
    }

    /// Publishes a filled slot, if every slot before it has been published: then `Ok`, and the
    /// flag says whether the block was sealed meanwhile, in which case its owner waits for the
    /// slot and has to be woken. Otherwise `Err`, with the count of the slots published so far.
    pub fn publish(&mut self, idx: u32) -> (done: Result<bool, u32>)
        requires
            old(self)@.wf(),
            old(self)@.written <= idx < old(self)@.capacity(),
            idx < old(self)@.locked,
            old(self)@.slots[idx as int] is Some,
        ensures
            final(self)@.wf(),
            old(self)@.written == idx ==> done == Ok::<bool, u32>(old(self)@.sealed())
                && final(self)@ == old(self)@.publish(),
            old(self)@.written != idx ==> done == Err::<bool, u32>(old(self)@.written as u32)
                && final(self)@ == old(self)@,
    {
        if self.written != idx {
            return Err(self.written);
        }
        self.written = idx + 1;
        Ok(self.locked == SEALED)
    }

    /// Sends one value: claims a slot, fills it and publishes it. A block without room gives the
    /// value back. No other sender may be in the middle of a send, unless there is no room: its
    /// slot would have to be published first.
    pub fn push(&mut self, it: T) -> (done: Result<(), T>)
        requires
            old(self)@.wf(),
            old(self)@.has_room() ==> old(self)@.quiet(),
        ensures
            final(self)@.wf(),
            old(self)@.has_room() ==> done == Ok::<(), T>(()) && final(self)@ == old(self)@.push(
                it,
            ),
            !old(self)@.has_room() ==> done == Err::<(), T>(it) && final(self)@ == old(self)@,
    {
        let idx = match self.lock_slot() {
            Some(idx) => idx,
            None => return Err(it),
        };
        self.write(idx, it);
        let published = self.publish(idx);
        assert(published == Ok::<bool, u32>(false));
        Ok(())
    }

    /// Seals the block, so that it refuses all further senders. Returns how many slots had been
    /// claimed by then.
    pub fn mark_locked(&mut self) -> (locked: u32)
        requires
            old(self)@.wf(),
            !old(self)@.sealed(),
        ensures
            locked == old(self)@.locked,
            final(self)@ == old(self)@.seal(),
            final(self)@.wf(),
    {
        let locked = self.locked;
        self.locked = SEALED;
        locked
    }

    /// Whether the first `locked` slots have all been published: no sender is at work on them.
    pub fn all_written(&self, locked: u32) -> (done: bool)
        ensures
            done == (self@.written >= locked),
    {
        self.written >= locked
    }

    /// The count of published slots.
    pub fn get_written(&self) -> (written: u32)
        ensures
            written == self@.written,
    {
        self.written
    }

    /// The count of claimed slots, or [`SEALED`].
    pub fn get_locked(&self) -> (locked: u32)
        ensures
            locked == self@.locked,
    {
        self.locked
    }

    /// Drops the values in the published slots of `[start, end)`.
    pub fn drop_range_in_place(&mut self, start: u32, end: u32)
        requires
            old(self)@.wf(),
            start <= end,
            start < end ==> end <= old(self)@.written,
        ensures
            final(self)@ == old(self)@.clear(start as int, end as int),
            final(self)@.wf(),
    {
        let mut i: u32 = start;
        while i < end
            invariant
                start <= i <= end,
                old(self)@.wf(),
                start < end ==> end <= old(self)@.written,
                self@ == old(self)@.clear(start as int, i as int),
            decreases end - i,
        {
            self.data[i as usize] = None;
            i += 1;
        }
    }

    /// Puts both watermarks back to the start. The block must be sealed, or have no sender at
    /// work. Values that are still in the slots stay there until a later send takes their slot.
    pub fn reset(&mut self)
        requires
            old(self)@.wf(),
            old(self)@.quiet() || old(self)@.sealed(),
        ensures
            final(self)@ == old(self)@.reset(),
            final(self)@.wf(),
    {
        self.written = 0;
        self.locked = 0;
    }
}

} // verus!
