use batch_queue::block::SEALED;
use batch_queue::halves::{RecvHalf, SendHalf};
use batch_queue::{SendError, TrySendError, TrySendErrorType};

fn refusal<T>(answer: Result<(), TrySendError<T>>) -> Option<(T, bool)> {
    match answer {
        Ok(()) => None,
        Err(e) => Some((e.value, matches!(e.ty, TrySendErrorType::Full))),
    }
}

fn batch(rx: &mut RecvHalf<u32>, tx: &mut SendHalf<u32>, most: usize) -> Vec<u32> {
    let mut out = Vec::new();
    rx.start(tx);
    let limit = rx.get_written();
    while out.len() < most {
        match rx.next(limit) {
            Some(it) => out.push(it),
            None => break,
        }
    }
    rx.finish(tx);
    out
}

#[test]
fn values_come_out_in_the_order_they_went_in() {
    let mut tx = SendHalf::new(4);
    let mut rx = RecvHalf::new(4);
    for i in 0..4 {
        assert_eq!(refusal(tx.try_send(i)), None);
    }
    assert_eq!(batch(&mut rx, &mut tx, 3), vec![0, 1, 2]);
    assert_eq!(refusal(tx.try_send(4)), None);
    assert_eq!(batch(&mut rx, &mut tx, 9), vec![3]);
    assert_eq!(batch(&mut rx, &mut tx, 9), vec![4]);
    assert_eq!(batch(&mut rx, &mut tx, 9), vec![]);
}

#[test]
fn full_half_hands_the_value_back() {
    let mut tx = SendHalf::new(2);
    assert_eq!(refusal(tx.try_send(1)), None);
    assert_eq!(tx.watermark(), 1);
    assert_eq!(refusal(tx.try_send(2)), None);
    assert_eq!(tx.watermark(), 2);
    assert!(tx.is_full());
    assert_eq!(refusal(tx.try_send(3)), Some((3, true)));
    assert_eq!(tx.watermark(), 2);
    tx.take_block();
    assert!(!tx.is_full());
}

#[test]
fn closed_half_hands_the_value_back() {
    let mut tx = SendHalf::new(2);
    assert_eq!(refusal(tx.try_send(1)), None);
    assert!(tx.take_block().is_some());
    assert_eq!(tx.watermark(), SEALED);
    assert!(!tx.non_empty());
    assert_eq!(refusal(tx.try_send(2)), Some((2, false)));
    assert!(tx.take_block().is_none());
    assert_eq!(refusal(tx.try_send(3)), Some((3, false)));
}

#[test]
fn refusal_is_retried_only_for_want_of_room() {
    let mut tx = SendHalf::new(1);
    assert!(tx.try_send(1).is_ok());
    assert!(matches!(tx.try_send(2).unwrap_err().retry(), Ok(2)));
    tx.take_block();
    assert!(matches!(tx.try_send(3).unwrap_err().retry(), Err(SendError { value: 3, .. })));
}

#[test]
fn waking_is_asked_for_when_a_full_block_is_fetched() {
    let mut tx = SendHalf::new(2);
    let mut rx = RecvHalf::new(2);
    assert!(!rx.start(&mut tx));
    assert!(tx.try_send(1).is_ok());
    assert!(!rx.start(&mut tx));
    assert!(tx.try_send(2).is_ok());
    assert!(tx.try_send(3).is_ok());
    assert_eq!(rx.next(1), Some(1));
    assert_eq!(rx.next(1), None);
    assert!(rx.current_consumed());
    assert!(rx.should_swap(&tx));
    assert!(rx.finish(&mut tx));
    assert_eq!(tx.watermark(), 0);
    assert!(rx.current_unconsumed());
}

#[test]
fn a_batch_does_not_grow() {
    let mut tx = SendHalf::new(2);
    let mut rx = RecvHalf::new(2);
    assert!(tx.try_send(1).is_ok());
    rx.start(&mut tx);
    let limit = rx.get_written();
    assert_eq!(limit, 1);
    assert!(tx.try_send(2).is_ok());
    assert_eq!(rx.next(limit), Some(1));
    assert_eq!(rx.get_consumed(), 1);
    assert_eq!(rx.next(limit), None);
}

#[test]
fn may_rx_until_everything_is_received() {
    let mut tx = SendHalf::new(2);
    let mut rx = RecvHalf::new(2);
    assert!(!rx.may_rx(false, &tx));
    assert!(rx.may_rx(true, &tx));
    assert!(tx.try_send(1).is_ok());
    assert!(rx.may_rx(false, &tx));
    assert_eq!(batch(&mut rx, &mut tx, 0), vec![]);
    assert!(rx.may_rx(false, &tx));
    assert_eq!(batch(&mut rx, &mut tx, 9), vec![1]);
    assert!(!rx.may_rx(false, &tx));
}

#[test]
fn two_blocks_hold_twice_the_capacity() {
    let mut tx = SendHalf::new(3);
    let mut rx = RecvHalf::new(3);
    for i in 0..3 {
        assert!(tx.try_send(i).is_ok());
    }
    assert!(tx.try_send(9).is_err());
    assert!(rx.start(&mut tx));
    for i in 3..6 {
        assert!(tx.try_send(i).is_ok());
    }
    assert!(tx.try_send(9).is_err());
    assert_eq!(rx.rx_all(&mut tx), vec![0, 1, 2, 3, 4, 5]);
    assert!(!rx.may_rx(false, &tx));
    assert_eq!(rx.rx_all(&mut tx), vec![]);
}

#[test]
fn drain_takes_the_rest_of_the_block() {
    let mut tx = SendHalf::new(3);
    let mut rx = RecvHalf::new(3);
    for i in 0..3 {
        assert!(tx.try_send(i).is_ok());
    }
    rx.start(&mut tx);
    assert_eq!(rx.next(3), Some(0));
    let mut out = vec![7];
    rx.drain_into(&mut out);
    assert_eq!(out, vec![7, 1, 2]);
    assert!(rx.current_consumed());
    rx.finalize_current();
    assert_eq!(rx.get_written(), 0);
}

#[test]
fn deallocating_drops_both_blocks() {
    let it = std::rc::Rc::new(());
    let mut tx = SendHalf::new(2);
    let mut rx = RecvHalf::new(2);
    for _ in 0..2 {
        assert!(tx.try_send(it.clone()).is_ok());
    }
    rx.start(&mut tx);
    let taken = rx.next(2);
    assert!(tx.try_send(it.clone()).is_ok());
    assert_eq!(std::rc::Rc::strong_count(&it), 4);
    let block = tx.take_block().unwrap();
    rx.deallocate_blocks(block);
    assert_eq!(std::rc::Rc::strong_count(&it), 2);
    assert!(taken.is_some());
}

#[test]
fn discarding_drops_what_the_receiver_holds() {
    let it = std::rc::Rc::new(());
    let mut tx = SendHalf::new(2);
    let mut rx = RecvHalf::new(2);
    for _ in 0..2 {
        assert!(tx.try_send(it.clone()).is_ok());
    }
    rx.start(&mut tx);
    assert!(tx.try_send(it.clone()).is_ok());
    rx.discard_current();
    assert_eq!(std::rc::Rc::strong_count(&it), 2);
    assert_eq!(rx.get_written(), 0);
    assert!(tx.non_empty());
}
