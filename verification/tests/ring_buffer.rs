use vad_core::{PushOutcome, RingBuffer};

#[test]
fn preserves_arrival_order() {
    let mut rb = RingBuffer::new(8);
    for s in [3i32, -1, 4, -1, 5] {
        assert_eq!(rb.push(s), PushOutcome::Stored);
    }
    assert_eq!(rb.len(), 5);
    assert_eq!(rb.drain(), vec![3, -1, 4, -1, 5]);
    assert_eq!(rb.len(), 0);
}

#[test]
fn preserves_order_across_wraparound() {
    let mut rb = RingBuffer::new(4);
    for s in [1i32, 2, 3, 4] {
        assert_eq!(rb.push(s), PushOutcome::Stored);
    }
    // free two slots, then reuse them: the cursors wrap
    assert_eq!(rb.drain(), vec![1, 2, 3, 4]);
    for s in [5i32, 6] {
        assert_eq!(rb.push(s), PushOutcome::Stored);
    }
    assert_eq!(rb.drain(), vec![5, 6]);
}

#[test]
fn overflow_reported_and_state_stays_valid() {
    let mut rb = RingBuffer::new(3);
    assert_eq!(rb.push(10), PushOutcome::Stored);
    assert_eq!(rb.push(20), PushOutcome::Stored);
    assert_eq!(rb.push(30), PushOutcome::Stored);
    // full: the sample is dropped, not stored, and nothing is corrupted
    assert_eq!(rb.push(40), PushOutcome::Overflow);
    assert_eq!(rb.len(), 3);
    assert!(rb.len() <= rb.capacity());
    assert_eq!(rb.drain(), vec![10, 20, 30]);
}

#[test]
fn block_push_keeps_longest_fitting_prefix() {
    let mut rb = RingBuffer::new(4);
    assert_eq!(rb.push(1), PushOutcome::Stored);
    let dropped = rb.push_block(&vec![2, 3, 4, 5, 6]);
    assert_eq!(dropped, 2);
    assert_eq!(rb.len(), 4);
    assert_eq!(rb.drain(), vec![1, 2, 3, 4]);
}

#[test]
fn block_push_without_overflow_drops_nothing() {
    let mut rb = RingBuffer::new(8);
    let dropped = rb.push_block(&vec![7, 8, 9]);
    assert_eq!(dropped, 0);
    assert_eq!(rb.drain(), vec![7, 8, 9]);
}

#[test]
fn clear_discards_unread_samples() {
    let mut rb = RingBuffer::new(8);
    rb.push_block(&vec![1, 2, 3]);
    rb.clear();
    assert_eq!(rb.len(), 0);
    assert_eq!(rb.drain(), Vec::<i32>::new());
    // the queue stays usable after a clear
    assert_eq!(rb.push(9), PushOutcome::Stored);
    assert_eq!(rb.drain(), vec![9]);
}
