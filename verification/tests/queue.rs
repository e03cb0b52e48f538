use line_fanout::queue::OrderedQueue;

#[test]
fn tickets_come_out_in_dispatch_order() {
    let mut q = OrderedQueue::new(2);
    assert_eq!(q.push(), 0);
    assert_eq!(q.push(), 1);
    assert_eq!(q.pop(), 0);
    assert_eq!(q.push(), 2);
    assert_eq!(q.pop(), 1);
    assert_eq!(q.pop(), 2);
    assert_eq!(q.in_flight_count(), 0);
}

#[test]
fn in_flight_never_exceeds_capacity() {
    let capacity: usize = 3;
    let mut q = OrderedQueue::new(capacity);
    assert_eq!(q.capacity(), capacity);
    let mut max_seen: usize = 0;
    for round in 0..4usize {
        for _ in 0..(capacity - round % 2) {
            if q.in_flight_count() < capacity {
                q.push();
            }
            max_seen = max_seen.max(q.in_flight_count());
        }
        while q.in_flight_count() > 0 {
            q.pop();
        }
    }
    assert!(max_seen <= capacity);
    assert_eq!(max_seen, capacity);
}

#[test]
fn capacity_one_forces_strict_alternation() {
    let mut q = OrderedQueue::new(1);
    for job in 0..5usize {
        assert_eq!(q.in_flight_count(), 0);
        assert_eq!(q.push(), job);
        assert_eq!(q.in_flight_count(), 1);
        assert_eq!(q.pop(), job);
    }
    assert_eq!(q.in_flight_count(), 0);
}
