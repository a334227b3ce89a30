use rovctl::queue::Queue;
use rovctl::queue::QUEUE_CAPACITY;

#[test]
fn bytes_come_out_in_arrival_order() {
    let mut q = Queue::new();
    for b in 1..=10u8 {
        assert!(q.enqueue(b));
    }
    assert_eq!(q.len(), 10);
    for b in 1..=10u8 {
        assert_eq!(q.dequeue(), Some(b));
    }
    assert_eq!(q.dequeue(), None);
}

#[test]
fn dequeue_on_empty_never_blocks() {
    let mut q = Queue::new();
    assert_eq!(q.dequeue(), None);
    assert_eq!(q.len(), 0);
}

#[test]
fn overflow_drops_only_the_overflow() {
    let mut q = Queue::new();
    for i in 0..QUEUE_CAPACITY {
        assert!(q.enqueue((i % 251) as u8));
    }
    // The queue is full: further bytes are dropped and reported.
    assert!(!q.enqueue(0xEE));
    assert!(!q.enqueue(0xFF));
    assert_eq!(q.len(), QUEUE_CAPACITY);
    // Everything that fit is still there, in order.
    for i in 0..QUEUE_CAPACITY {
        assert_eq!(q.dequeue(), Some((i % 251) as u8));
    }
    assert_eq!(q.dequeue(), None);
}

#[test]
fn wraparound_keeps_order() {
    let mut q = Queue::new();
    // Shift the head so later enqueues wrap past the end of the ring.
    for _ in 0..3 {
        for b in 0..200u8 {
            assert!(q.enqueue(b));
        }
        for b in 0..200u8 {
            assert_eq!(q.dequeue(), Some(b));
        }
    }
    assert_eq!(q.len(), 0);
}
