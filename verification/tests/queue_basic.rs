use deadline_queue::deadline::{AbsoluteDeadline, Deadline};
use deadline_queue::queue::DeadlineQueue;

#[test]
fn fresh_queue_is_empty() {
    let mut q: DeadlineQueue<u32> = DeadlineQueue::new();
    assert!(q.is_empty());
    assert_eq!(q.len(), 0);
    assert_eq!(q.pushed_count(), 0);
    assert_eq!(q.pop(), None);
}

#[test]
fn drained_queue_reports_empty_again() {
    let mut q = DeadlineQueue::new();
    q.push("only", Deadline::Immediate);
    assert!(!q.is_empty());
    assert_eq!(q.len(), 1);
    assert_eq!(q.pop(), Some("only"));
    assert!(q.is_empty());
    assert_eq!(q.len(), 0);
    assert_eq!(q.pop(), None);
    assert_eq!(q.pop(), None);
}

#[test]
fn pops_before_empty_equal_pushes() {
    let mut q = DeadlineQueue::new();
    let deadlines = [
        Deadline::Within(3),
        Deadline::Immediate,
        Deadline::Infinity,
        Deadline::Within(1),
        Deadline::Immediate,
    ];
    for (i, d) in deadlines.iter().enumerate() {
        q.push(i, *d);
    }
    assert_eq!(q.len(), deadlines.len());
    assert_eq!(q.pushed_count(), deadlines.len() as u64);
    let mut popped = Vec::new();
    while let Some(v) = q.pop() {
        popped.push(v);
    }
    assert_eq!(popped.len(), deadlines.len());
    // No payload duplicated or lost: the popped payloads are a permutation of
    // the pushed ones.
    let mut sorted_popped = popped.clone();
    sorted_popped.sort();
    assert_eq!(sorted_popped, vec![0, 1, 2, 3, 4]);
    assert!(q.is_empty());
}

#[test]
fn counter_keeps_rising_across_pops() {
    let mut q = DeadlineQueue::new();
    q.push("a", Deadline::Immediate);
    q.push("b", Deadline::Immediate);
    q.pop();
    q.pop();
    q.push("c", Deadline::Immediate);
    assert_eq!(q.pushed_count(), 3);
    assert_eq!(q.len(), 1);
}

#[test]
fn default_deadline_is_infinity() {
    assert_eq!(Deadline::default(), Deadline::Infinity);
}

#[test]
fn resolution_is_exact() {
    assert_eq!(
        AbsoluteDeadline::new(Deadline::Immediate, 7),
        AbsoluteDeadline::Immediate
    );
    assert_eq!(
        AbsoluteDeadline::new(Deadline::Within(5), 100),
        AbsoluteDeadline::Until(105)
    );
    assert_eq!(
        AbsoluteDeadline::new(Deadline::Within(0), 42),
        AbsoluteDeadline::Until(42)
    );
    assert_eq!(
        AbsoluteDeadline::new(Deadline::Infinity, 3),
        AbsoluteDeadline::Infinity
    );
}

#[test]
fn resolution_saturates_instead_of_wrapping() {
    assert_eq!(
        AbsoluteDeadline::new(Deadline::Within(u128::MAX), 1),
        AbsoluteDeadline::Until(u128::MAX)
    );
    assert_eq!(
        AbsoluteDeadline::new(Deadline::Within(2), u128::MAX - 1),
        AbsoluteDeadline::Until(u128::MAX)
    );
}

#[test]
fn urgency_comparison_follows_the_three_tiers() {
    let imm = AbsoluteDeadline::Immediate;
    let early = AbsoluteDeadline::Until(10);
    let late = AbsoluteDeadline::Until(20);
    let inf = AbsoluteDeadline::Infinity;
    assert!(imm.precedes(&early));
    assert!(imm.precedes(&inf));
    assert!(early.precedes(&late));
    assert!(!late.precedes(&early));
    assert!(early.precedes(&inf));
    assert!(!inf.precedes(&imm));
    assert!(!imm.precedes(&imm));
    assert!(!early.precedes(&early));
}
