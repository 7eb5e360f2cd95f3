//! The calls that are believed rather than proved: sleeping and waking, and counting handles. What
//! uses them leaves a record, which nothing else can make.

use std::sync::atomic::{AtomicU32, Ordering};
use std::sync::Arc;
use vstd::prelude::*;

verus! {

/// [`atomic_wait::wait`]: sleeps if `word` holds `value`, until some thread wakes the sleepers on
/// `word`. It may return early for no reason, so nothing is known of `word` afterwards, and
/// nothing is claimed.
#[verifier::external_body]
fn wait(word: &AtomicU32, value: u32) {
    atomic_wait::wait(word, value)
}

/// [`atomic_wait::wake_all`]: wakes every thread that sleeps on `word`. It has no effect that the
/// calling thread could see, and nothing is claimed.
#[verifier::external_body]
fn wake_all(word: &AtomicU32) {
    atomic_wait::wake_all(word)
}

/// The record of a sleep on a word: it was to last while the word held a value.
pub struct Slept<'a> {
    word: &'a AtomicU32,
    value: u32,
}

impl<'a> Slept<'a> {
    /// The word slept on.
    pub closed spec fn word(self) -> AtomicU32 {
        *self.word
    }

    /// The value that the word was to hold.
    pub closed spec fn value(self) -> u32 {
        self.value
    }
}

/// Sleeps while `word` holds `value`. The sleep may end early.
pub(crate) fn sleep_while(word: &AtomicU32, value: u32) -> (slept: Slept<'_>)
    ensures
        slept.word() == *word,
        slept.value() == value,
{
    wait(word, value);
    Slept { word, value }
}

/// The record of a value stored in a word.
pub struct Stored<'a> {
    word: &'a AtomicU32,
    value: u32,
}

impl<'a> Stored<'a> {
    /// The word stored into.
    pub closed spec fn word(self) -> AtomicU32 {
        *self.word
    }

    /// The value stored.
    pub closed spec fn value(self) -> u32 {
        self.value
    }
}

/// Stores `value` in `word`, for senders to see.
pub(crate) fn store_mark(word: &AtomicU32, value: u32) -> (stored: Stored<'_>)
    ensures
        stored.word() == *word,
        stored.value() == value,
{
    word.store(value, Ordering::Relaxed);
    Stored { word, value }
}

/// The record of a call that woke the sleepers on a word.
pub struct Woken<'a> {
    word: &'a AtomicU32,
}

impl<'a> Woken<'a> {
    /// The word that they slept on.
    pub closed spec fn word(self) -> AtomicU32 {
        *self.word
    }
}

/// Wakes every thread that sleeps on `word`.
pub(crate) fn wake_sleepers(word: &AtomicU32) -> (woken: Woken<'_>)
    ensures
        woken.word() == *word,
{
    wake_all(word);
    Woken { word }
}

/// A count of handles, as it was once read.
pub struct HandleCount<'a, S> {
    handles: usize,
    of: &'a Arc<S>,
}

impl<'a, S> HandleCount<'a, S> {
    /// How many handles there were, the one at hand among them.
    pub closed spec fn handles(self) -> nat {
        self.handles as nat
    }

    /// What the handles share.
    pub closed spec fn of(self) -> S {
        **self.of
    }

    /// How many handles there were.
    pub(crate) fn get(&self) -> (handles: usize)
        ensures
            handles == self.handles(),
    {
        self.handles
    }
}

/// [`Arc::strong_count`]: how many handles share the value of `handle`. Other threads make and
/// drop handles meanwhile, so that of the number only this is claimed: the handle at hand is
/// counted. The count comes with the handle it was read from.
#[verifier::external_body]
pub(crate) fn strong_count<S>(handle: &Arc<S>) -> (count: HandleCount<'_, S>)
    ensures
        count.handles() >= 1,
        count.of() == **handle,
{
    HandleCount { handles: Arc::strong_count(handle), of: handle }
}

} // verus!
