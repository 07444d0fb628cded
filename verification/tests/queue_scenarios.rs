use deadline_queue::deadline::Deadline;
use deadline_queue::queue::DeadlineQueue;

#[test]
fn mixed_deadlines_pop_in_urgency_order() {
    let mut q = DeadlineQueue::new();
    q.push("a", Deadline::Infinity);
    q.push("b", Deadline::Immediate);
    q.push("c", Deadline::Immediate);
    q.push("d", Deadline::Within(10_000_000));
    assert_eq!(q.pop(), Some("b"));
    assert_eq!(q.pop(), Some("c"));
    assert_eq!(q.pop(), Some("d"));
    assert_eq!(q.pop(), Some("a"));
    assert_eq!(q.pop(), None);
}

#[test]
fn zero_span_deadlines_pop_in_push_order() {
    let mut q = DeadlineQueue::new();
    q.push("x", Deadline::Within(0));
    q.push("y", Deadline::Within(0));
    q.push("z", Deadline::Within(0));
    assert_eq!(q.pop(), Some("x"));
    assert_eq!(q.pop(), Some("y"));
    assert_eq!(q.pop(), Some("z"));
    assert_eq!(q.pop(), None);
}

#[test]
fn immediate_ties_keep_push_order() {
    let mut q = DeadlineQueue::new();
    for i in 0..10u32 {
        q.push(i, Deadline::Immediate);
    }
    for i in 0..10u32 {
        assert_eq!(q.pop(), Some(i));
    }
    assert_eq!(q.pop(), None);
}

#[test]
fn infinity_ties_keep_push_order() {
    let mut q = DeadlineQueue::new();
    for i in 0..10u32 {
        q.push(i, Deadline::Infinity);
    }
    for i in 0..10u32 {
        assert_eq!(q.pop(), Some(i));
    }
    assert_eq!(q.pop(), None);
}

#[test]
fn equal_timestamp_ties_keep_push_order() {
    let mut q = DeadlineQueue::new();
    q.push_at("first", Deadline::Within(25), 100);
    q.push_at("second", Deadline::Within(25), 100);
    q.push_at("third", Deadline::Within(25), 100);
    assert_eq!(q.pop(), Some("first"));
    assert_eq!(q.pop(), Some("second"));
    assert_eq!(q.pop(), Some("third"));
    assert_eq!(q.pop(), None);
}

#[test]
fn frozen_clock_orders_by_resolved_timestamp() {
    let mut q = DeadlineQueue::new();
    q.push_at("late", Deadline::Within(300), 1_000);
    q.push_at("early", Deadline::Within(10), 1_000);
    q.push_at("middle", Deadline::Within(150), 1_000);
    assert_eq!(q.pop(), Some("early"));
    assert_eq!(q.pop(), Some("middle"));
    assert_eq!(q.pop(), Some("late"));
}

#[test]
fn later_clock_reading_can_outrank_longer_span() {
    // A short span resolved against a late clock reading lands after a long
    // span resolved against an early one: ordering uses absolute timestamps.
    let mut q = DeadlineQueue::new();
    q.push_at("resolved_late", Deadline::Within(5), 1_000);
    q.push_at("resolved_early", Deadline::Within(900), 10);
    assert_eq!(q.pop(), Some("resolved_early"));
    assert_eq!(q.pop(), Some("resolved_late"));
}

#[test]
fn two_equally_built_queues_drain_identically() {
    let deadlines = [
        Deadline::Infinity,
        Deadline::Immediate,
        Deadline::Within(40),
        Deadline::Within(7),
        Deadline::Immediate,
        Deadline::Infinity,
        Deadline::Within(40),
    ];
    let mut q1 = DeadlineQueue::new();
    let mut q2 = DeadlineQueue::new();
    for (i, d) in deadlines.iter().enumerate() {
        q1.push_at(i, *d, 500);
        q2.push_at(i, *d, 500);
    }
    let mut drained1 = Vec::new();
    while let Some(v) = q1.pop() {
        drained1.push(v);
    }
    let mut drained2 = Vec::new();
    while let Some(v) = q2.pop() {
        drained2.push(v);
    }
    assert_eq!(drained1, drained2);
    assert_eq!(drained1, vec![1, 4, 3, 2, 6, 0, 5]);
}
