use mail_pipeline::ringbuffer::MultiThreadedRingBuffer;

#[test]
fn fifo_order_is_kept() {
    let mut rb: MultiThreadedRingBuffer<String> = MultiThreadedRingBuffer::new(4);
    rb.enqueue("a".to_string());
    rb.enqueue("b".to_string());
    rb.enqueue("c".to_string());
    assert_eq!(rb.dequeue(), Some("a".to_string()));
    assert_eq!(rb.dequeue(), Some("b".to_string()));
    assert_eq!(rb.dequeue(), Some("c".to_string()));
    assert_eq!(rb.len(), 0);
}

#[test]
fn fifo_order_across_wraparound() {
    let mut rb: MultiThreadedRingBuffer<u64> = MultiThreadedRingBuffer::new(3);
    rb.enqueue(1);
    rb.enqueue(2);
    assert_eq!(rb.dequeue(), Some(1));
    rb.enqueue(3);
    rb.enqueue(4);
    assert_eq!(rb.dequeue(), Some(2));
    assert_eq!(rb.dequeue(), Some(3));
    assert_eq!(rb.dequeue(), Some(4));
}

#[test]
fn job_count_tracks_capacity() {
    let mut rb: MultiThreadedRingBuffer<u64> = MultiThreadedRingBuffer::new(2);
    assert_eq!(rb.len(), 0);
    assert_eq!(rb.capacity(), 2);
    rb.enqueue(10);
    assert_eq!(rb.len(), 1);
    rb.enqueue(20);
    assert_eq!(rb.len(), 2);
    assert_eq!(rb.dequeue(), Some(10));
    assert_eq!(rb.len(), 1);
    assert_eq!(rb.dequeue(), Some(20));
    assert_eq!(rb.len(), 0);
}

#[test]
fn single_slot_buffer_alternates() {
    let mut rb: MultiThreadedRingBuffer<u64> = MultiThreadedRingBuffer::new(1);
    for round in 0..5u64 {
        assert_eq!(rb.len(), 0);
        rb.enqueue(round);
        assert_eq!(rb.len(), 1);
        assert_eq!(rb.capacity(), 1);
        assert_eq!(rb.dequeue(), Some(round));
    }
    assert_eq!(rb.len(), 0);
}

#[test]
fn poison_fills_every_slot() {
    let mut rb: MultiThreadedRingBuffer<String> = MultiThreadedRingBuffer::new(3);
    rb.poison();
    assert_eq!(rb.len(), 3);
    assert_eq!(rb.dequeue(), None);
    assert_eq!(rb.dequeue(), None);
    assert_eq!(rb.dequeue(), None);
    assert_eq!(rb.len(), 0);
}

#[test]
fn poison_tokens_come_after_earlier_items() {
    let mut rb: MultiThreadedRingBuffer<u64> = MultiThreadedRingBuffer::new(4);
    rb.enqueue(7);
    rb.enqueue_item(None);
    assert_eq!(rb.dequeue(), Some(7));
    assert_eq!(rb.dequeue(), None);
}

#[test]
fn clear_poison_resets_a_saturated_buffer() {
    let mut rb: MultiThreadedRingBuffer<u64> = MultiThreadedRingBuffer::new(2);
    rb.poison();
    assert_eq!(rb.len(), 2);
    assert!(rb.clear_poison());
    assert_eq!(rb.len(), 0);
    let mut fresh: MultiThreadedRingBuffer<u64> = MultiThreadedRingBuffer::new(2);
    rb.enqueue(5);
    fresh.enqueue(5);
    rb.enqueue(6);
    fresh.enqueue(6);
    assert_eq!(rb.dequeue(), fresh.dequeue());
    assert_eq!(rb.dequeue(), fresh.dequeue());
    assert_eq!(rb.len(), fresh.len());
}

#[test]
fn clear_poison_is_a_no_op_when_not_saturated() {
    let mut rb: MultiThreadedRingBuffer<u64> = MultiThreadedRingBuffer::new(2);
    rb.enqueue(9);
    assert!(!rb.clear_poison());
    assert_eq!(rb.dequeue(), Some(9));
}

#[test]
fn clear_empties_unconditionally() {
    let mut rb: MultiThreadedRingBuffer<u64> = MultiThreadedRingBuffer::new(3);
    rb.enqueue(1);
    rb.enqueue(2);
    rb.clear();
    assert_eq!(rb.len(), 0);
    rb.enqueue(3);
    assert_eq!(rb.dequeue(), Some(3));
}
