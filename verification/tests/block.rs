use batch_queue::block::{Block, SEALED};

#[test]
fn block_starts_empty() {
    let block: Block<u8> = Block::new(3);
    assert_eq!(block.capacity(), 3);
    assert_eq!(block.get_locked(), 0);
    assert_eq!(block.get_written(), 0);
}

#[test]
fn push_fills_slots_in_order() {
    let mut block = Block::new(2);
    assert_eq!(block.push('a'), Ok(()));
    assert_eq!(block.push('b'), Ok(()));
    assert_eq!(block.push('c'), Err('c'));
    assert_eq!(block.get_locked(), 2);
    assert_eq!(block.get_written(), 2);
    assert_eq!(*block.get(0), 'a');
    assert_eq!(*block.get(1), 'b');
    assert_eq!(block.take(0), 'a');
    assert_eq!(block.take(1), 'b');
}

#[test]
fn get_mut_changes_the_value() {
    let mut block = Block::new(1);
    assert_eq!(block.push(4), Ok(()));
    *block.get_mut(0) += 5;
    assert_eq!(*block.get(0), 9);
}

#[test]
fn slots_are_published_in_claim_order() {
    let mut block = Block::new(4);
    let first = block.lock_slot().unwrap();
    let second = block.lock_slot().unwrap();
    assert_eq!((first, second), (0, 1));

    // The second sender is faster, and has to wait for the first one.
    block.write(second, "second");
    assert_eq!(block.publish(second), Err(0));
    assert_eq!(block.get_written(), 0);

    block.write(first, "first");
    assert_eq!(block.publish(first), Ok(false));
    assert_eq!(block.publish(second), Ok(false));
    assert_eq!(block.get_written(), 2);
    assert_eq!(block.take(0), "first");
    assert_eq!(block.take(1), "second");
}

#[test]
fn sealed_block_refuses_new_senders_and_lets_old_ones_finish() {
    let mut block = Block::new(4);
    let slot = block.lock_slot().unwrap();
    let locked = block.mark_locked();
    assert_eq!(locked, 1);
    assert_eq!(block.get_locked(), SEALED);
    assert_eq!(block.lock_slot(), None);
    assert_eq!(block.push(9), Err(9));
    assert!(!block.all_written(locked));

    block.write(slot, 5);
    assert_eq!(block.publish(slot), Ok(true));
    assert!(block.all_written(locked));
    assert_eq!(block.take(0), 5);
}

#[test]
fn reset_makes_all_slots_free_again() {
    let mut block = Block::new(1);
    assert_eq!(block.push(1), Ok(()));
    assert_eq!(block.take(0), 1);
    block.mark_locked();
    block.reset();
    assert_eq!(block.get_locked(), 0);
    assert_eq!(block.get_written(), 0);
    assert_eq!(block.push(2), Ok(()));
    assert_eq!(block.take(0), 2);
}

#[test]
fn drop_range_drops_only_the_range() {
    let it = std::rc::Rc::new(());
    let mut block = Block::new(4);
    for _ in 0..4 {
        assert!(block.push(it.clone()).is_ok());
    }
    assert_eq!(std::rc::Rc::strong_count(&it), 5);
    block.drop_range_in_place(2, 2);
    assert_eq!(std::rc::Rc::strong_count(&it), 5);
    block.drop_range_in_place(1, 3);
    assert_eq!(std::rc::Rc::strong_count(&it), 3);
    block.take(0);
    block.take(3);
    assert_eq!(std::rc::Rc::strong_count(&it), 1);
}

#[test]
fn as_many_pushes_are_accepted_as_there_are_slots() {
    let mut block = Block::new(2);
    // Three senders at once: two get a slot, and finish in the other order.
    let first = block.lock_slot().unwrap();
    let second = block.lock_slot().unwrap();
    assert_eq!(block.lock_slot(), None);
    block.write(second, 'b');
    block.write(first, 'a');
    assert_eq!(block.publish(second), Err(0));
    assert_eq!(block.publish(first), Ok(false));
    assert_eq!(block.publish(second), Ok(false));
    assert_eq!((block.get_locked(), block.get_written()), (2, 2));
    assert_eq!((*block.get(0), *block.get(1)), ('a', 'b'));
}
