use batch_queue::channel::halve_capacity;
use batch_queue::receiver::senders_left;
use batch_queue::shared::must_wait;
use batch_queue::{channel, rx_all, Receiver, Sender, TrySendError, TrySendErrorType};
use std::sync::atomic::{AtomicUsize, Ordering};
use std::sync::Arc;

trait AmbiguousIfSync<A> {
    fn check() -> bool {
        true
    }
}

impl<T: ?Sized> AmbiguousIfSync<()> for T {}

struct IsSync;

impl<T: ?Sized + Sync> AmbiguousIfSync<IsSync> for T {}

fn is_send<T: Send>() -> bool {
    true
}

fn is_send_and_sync<T: Send + Sync>() -> bool {
    true
}

/// Receives one batch, up to `most` values of it.
fn take<T: Send>(rx: &mut Receiver<T>, most: usize) -> Vec<T> {
    let mut out = Vec::new();
    let mut batch = rx.recv();
    while out.len() < most {
        match batch.next() {
            Some(it) => out.push(it),
            None => break,
        }
    }
    batch.finish();
    out
}

#[test]
fn tests_auto_traits() {
    assert!(is_send::<Receiver<usize>>());
    // Ambiguous, and so no valid program, if the receiver were `Sync`.
    assert!(<Receiver<usize> as AmbiguousIfSync<_>>::check());
    assert!(is_send_and_sync::<Sender<usize>>());
}

#[test]
fn create_drop() {
    channel::<()>(16);
}

#[test]
fn tests_send_once() {
    let (mut rx, tx) = channel(16);
    tx.blocking_send(2, u64::MAX).unwrap();
    drop(tx);
    let received = rx_all(&mut rx, u64::MAX).0;
    assert_eq!(received, &[2]);
}

#[test]
fn always_swap() {
    let (mut rx, tx) = channel(2);
    let mut received = Vec::new();
    for i in 0..128 {
        tx.blocking_send(i, u64::MAX).unwrap();
        received.extend(take(&mut rx, 1));
    }
    let expected: Vec<i32> = (0..128).collect();
    assert_eq!(received, expected);
}

#[test]
fn always_fill() {
    let batch_size = 4;
    let total = 64 * batch_size;
    let (mut rx, tx) = channel(batch_size * 2);
    for batch in 0..(total / batch_size) {
        let start = batch * batch_size;
        let expected: Vec<usize> = (start..(start + batch_size)).collect();
        for i in start..(start + batch_size) {
            tx.blocking_send(i, u64::MAX).unwrap();
        }
        assert!(tx.try_send(usize::MAX).is_err());
        assert_eq!(take(&mut rx, batch_size), expected);
    }
}

#[test]
fn send_many() {
    let (mut rx, tx) = channel(16);
    let mut received = Vec::new();
    for i in 0..2048 {
        let mut value = i;
        while let Err(e) = tx.try_send(value) {
            assert!(matches!(e.ty, TrySendErrorType::Full));
            value = e.value;
            received.extend(take(&mut rx, 16));
        }
    }
    drop(tx);
    received.extend(rx_all(&mut rx, u64::MAX).0);
    let expected: Vec<i32> = (0..2048).collect();
    assert_eq!(received, expected);
}

#[test]
fn fill_once() {
    let (mut rx, tx) = channel(16 * 2);
    for i in 0..16 {
        tx.blocking_send(i, u64::MAX).unwrap();
    }
    drop(tx);
    let actual = rx_all(&mut rx, u64::MAX).0;
    let expected: Vec<i32> = (0..16).collect();
    assert_eq!(actual, expected);
}

#[test]
fn fanout_send() {
    let (mut rx, tx) = channel(32);
    let senders: Vec<Sender<i32>> = (0..16).map(|_| tx.clone()).collect();
    drop(tx);
    let mut actual = Vec::new();
    for i in 0..16 {
        for (id, tx) in senders.iter().enumerate() {
            tx.blocking_send(i + 16 * id as i32, u64::MAX).unwrap();
        }
        actual.extend(take(&mut rx, 16));
    }
    drop(senders);
    actual.extend(rx_all(&mut rx, u64::MAX).0);
    assert_eq!(actual.len(), 16 * 16);
    for i in 0..(16 * 16) {
        assert!(actual.contains(&i));
    }
}

struct NeedsDrop {
    been_dropped: bool,
    drops: Arc<AtomicUsize>,
}

impl Drop for NeedsDrop {
    fn drop(&mut self) {
        assert!(!self.been_dropped, "Instance was dropped multiple times");
        self.been_dropped = true;
        self.drops.fetch_add(1, Ordering::Relaxed);
    }
}

#[test]
fn unreceived_dropped() {
    let drops = Arc::new(AtomicUsize::new(0));
    let item = || NeedsDrop { been_dropped: false, drops: drops.clone() };
    let (mut rx, tx) = channel(32);
    for _ in 0..16 {
        assert!(tx.blocking_send(item(), u64::MAX).is_ok());
    }
    let mut out = Vec::with_capacity(16);
    while out.len() < 8 {
        let left = 8 - out.len();
        out.extend(take(&mut rx, left));
    }
    for _ in 0..16 {
        assert!(tx.blocking_send(item(), u64::MAX).is_ok());
    }
    rx.deallocate_blocks();
    drop(rx);
    assert_eq!(drops.load(Ordering::Acquire), 32 - 8);
    drop(out);
    assert_eq!(drops.load(Ordering::Acquire), 32);
}

#[test]
fn capacity_is_halved_and_rounded_up() {
    assert_eq!(halve_capacity(1), 1);
    assert_eq!(halve_capacity(2), 1);
    assert_eq!(halve_capacity(3), 2);
    assert_eq!(halve_capacity(16), 8);
    assert_eq!(halve_capacity(17), 9);
    assert_eq!(halve_capacity(2 * (u32::MAX as usize - 1)), u32::MAX - 1);
    assert_eq!(halve_capacity(2 * (u32::MAX as usize)), u32::MAX - 1);
    assert_eq!(halve_capacity(usize::MAX), u32::MAX - 1);
}

#[test]
fn odd_capacity_has_room_for_half_of_it_rounded_up() {
    let (_rx, tx) = channel(5);
    for i in 0..3 {
        assert!(tx.try_send(i).is_ok());
    }
    assert!(matches!(
        tx.try_send(3),
        Err(TrySendError { value: 3, ty: TrySendErrorType::Full, .. })
    ));
}

#[test]
fn closed_channel_hands_values_back() {
    let (mut rx, tx) = channel(4);
    assert!(tx.try_send(1).is_ok());
    rx.deallocate_blocks();
    assert!(matches!(
        tx.try_send(2),
        Err(TrySendError { value: 2, ty: TrySendErrorType::Closed, .. })
    ));
    assert!(matches!(
        tx.blocking_send(3, u64::MAX),
        Err(TrySendError { value: 3, ty: TrySendErrorType::Closed, .. })
    ));
    let other = tx.clone();
    assert!(matches!(
        other.blocking_send(4, u64::MAX),
        Err(TrySendError { value: 4, ty: TrySendErrorType::Closed, .. })
    ));
}

#[test]
fn closing_a_full_channel_lets_its_senders_go() {
    let (mut rx, tx) = channel(2);
    assert!(tx.try_send(1).is_ok());
    assert!(tx.try_send(2).is_err());
    rx.deallocate_blocks();
    assert!(matches!(
        tx.blocking_send(3, u64::MAX),
        Err(TrySendError { value: 3, ty: TrySendErrorType::Closed, .. })
    ));
}

#[test]
fn one_round_of_sending_does_not_sleep() {
    let (mut rx, tx) = channel(2);
    assert!(tx.blocking_send(1, 1).is_ok());
    assert!(matches!(
        tx.blocking_send(2, 1),
        Err(TrySendError { value: 2, ty: TrySendErrorType::Full, .. })
    ));
    assert_eq!(take(&mut rx, 9), vec![1]);
    assert!(tx.blocking_send(2, 5).is_ok());
    rx.deallocate_blocks();
}

#[test]
fn batch_knows_its_size() {
    let (mut rx, tx) = channel(8);
    for i in 0..3 {
        tx.try_send(i).unwrap();
    }
    let mut batch = rx.recv();
    assert_eq!(batch.len(), 3);
    assert_eq!(batch.size_hint(), (3, Some(3)));
    assert_eq!(batch.next(), Some(0));
    assert_eq!(batch.size_hint(), (2, Some(2)));
    // What is sent now belongs to a later batch.
    tx.try_send(3).unwrap();
    let mut out = vec![9];
    batch.drain_into(&mut out);
    assert_eq!(out, vec![9, 1, 2]);
    assert_eq!(batch.size_hint(), (0, Some(0)));
    assert_eq!(batch.next(), None);
    batch.finish();
    assert_eq!(take(&mut rx, 9), vec![3]);
}

#[test]
fn what_a_batch_leaves_comes_first_in_the_next() {
    let (mut rx, tx) = channel(8);
    for i in 0..4 {
        tx.try_send(i).unwrap();
    }
    assert_eq!(take(&mut rx, 2), vec![0, 1]);
    tx.try_send(4).unwrap();
    assert_eq!(take(&mut rx, 9), vec![2, 3]);
    assert_eq!(take(&mut rx, 9), vec![4]);
}

#[test]
fn senders_are_counted() {
    let (rx, tx) = channel::<u8>(2);
    assert!(rx.has_senders());
    let other = tx.clone();
    drop(tx);
    assert!(rx.has_senders());
    drop(other);
    assert!(!rx.has_senders());
    let again = rx.get_tx();
    assert!(rx.has_senders());
    again.try_send(1).unwrap();
    drop(again);
    assert!(!rx.has_senders());
    assert!(senders_left(2));
    assert!(!senders_left(1));
}

#[test]
fn may_rx_while_there_are_senders_or_values() {
    let (mut rx, tx) = channel(4);
    assert!(rx.may_rx());
    tx.try_send(1).unwrap();
    tx.try_send(2).unwrap();
    drop(tx);
    assert!(rx.may_rx());
    assert_eq!(take(&mut rx, 1), vec![1]);
    assert!(rx.may_rx());
    assert_eq!(take(&mut rx, 9), vec![2]);
    assert!(!rx.may_rx());
    assert_eq!(take(&mut rx, 9), vec![]);
}

#[test]
fn receiving_in_rounds_says_whether_it_is_done() {
    let (mut rx, tx) = channel(4);
    tx.try_send(1).unwrap();
    assert_eq!(rx_all(&mut rx, 3), (vec![1], false));
    tx.try_send(2).unwrap();
    drop(tx);
    assert_eq!(rx_all(&mut rx, 3), (vec![2], true));
    assert_eq!(rx_all(&mut rx, 3), (vec![], true));
}

#[test]
fn senders_sleep_only_while_every_slot_is_claimed() {
    assert!(must_wait(8, 8));
    assert!(!must_wait(7, 8));
    assert!(!must_wait(0, 8));
    assert!(!must_wait(u32::MAX, 8));
}

#[test]
fn receiving_in_rounds_gives_one_batch_a_round() {
    let (mut rx, tx) = channel(4);
    tx.try_send(1).unwrap();
    tx.try_send(2).unwrap();
    assert_eq!(take(&mut rx, 1), vec![1]);
    tx.try_send(3).unwrap();
    assert_eq!(rx_all(&mut rx, 1), (vec![2], false));
    assert_eq!(rx_all(&mut rx, 1), (vec![3], false));
    drop(tx);
    assert_eq!(rx_all(&mut rx, 1), (vec![], true));
}
