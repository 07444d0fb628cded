//! The deadline-ordered queue: a sequence of items kept in pop order, most
//! urgent first, with strict insertion-order FIFO among items whose resolved
//! deadlines are equal.

use std::time::Instant;
use vstd::prelude::*;
use crate::deadline::{abs_le, abs_lt, resolve, AbsoluteDeadline, Deadline};

verus! {

/// One queued entry: the caller's payload, the sequence number assigned at
/// push time, and the deadline resolved at that same moment.
pub struct Item<T> {
    pub seqno: u64,
    pub deadline: AbsoluteDeadline,
    pub payload: T,
}

/// The queue's strict priority order on (deadline, sequence number) ranks:
/// the first rank comes out earlier when its deadline is strictly more
/// urgent, or the deadlines are equal and it was assigned first.
pub open spec fn rank_before(
    dl_a: AbsoluteDeadline,
    seq_a: u64,
    dl_b: AbsoluteDeadline,
    seq_b: u64,
) -> bool {
    abs_lt(dl_a, dl_b) || (dl_a == dl_b && seq_a < seq_b)
}

/// The queue's strict priority order on items.
pub open spec fn item_before<T>(a: Item<T>, b: Item<T>) -> bool {
    rank_before(a.deadline, a.seqno, b.deadline, b.seqno)
}

/// A sequence of items stands in pop order: every earlier item strictly
/// precedes every later one.
pub open spec fn sorted<T>(s: Seq<Item<T>>) -> bool {
    forall|i: int, j: int|
        0 <= i < j < s.len() ==> #[trigger] item_before(s[i], s[j])
}

/// The entry a push makes.
pub open spec fn made_item<T>(seqno: u64, deadline: AbsoluteDeadline, payload: T) -> Item<T> {
    Item { seqno, deadline, payload }
}

/// Where a push with this deadline and sequence number lands in the pop-order
/// sequence `s`: right after every item that keeps priority over it.
pub open spec fn insert_pos<T>(s: Seq<Item<T>>, deadline: AbsoluteDeadline, seqno: u64) -> int
    decreases s.len(),
{
    if s.len() == 0 {
        0
    } else if rank_before(deadline, seqno, s[0].deadline, s[0].seqno) {
        0
    } else {
        1 + insert_pos(s.drop_first(), deadline, seqno)
    }
}

/// The pop-order sequence after a push: the new entry stands at its insert
/// position, everything else keeps its relative order.
pub open spec fn push_spec<T>(
    s: Seq<Item<T>>,
    seqno: u64,
    deadline: AbsoluteDeadline,
    payload: T,
) -> Seq<Item<T>> {
    s.insert(insert_pos(s, deadline, seqno), made_item(seqno, deadline, payload))
}

/// The insert position is a position of the sequence.
pub proof fn lemma_insert_pos_range<T>(s: Seq<Item<T>>, deadline: AbsoluteDeadline, seqno: u64)
    ensures
        0 <= insert_pos(s, deadline, seqno) <= s.len(),
    decreases s.len(),
{
    if s.len() != 0 && !rank_before(deadline, seqno, s[0].deadline, s[0].seqno) {
        lemma_insert_pos_range(s.drop_first(), deadline, seqno);
    }
}

/// The insert position splits the sequence: no item before it yields priority
/// to the new rank, and the item at it (if any) does.
pub proof fn lemma_insert_pos_split<T>(s: Seq<Item<T>>, deadline: AbsoluteDeadline, seqno: u64)
    ensures
        forall|i: int|
            0 <= i < insert_pos(s, deadline, seqno) ==> !rank_before(
                deadline,
                seqno,
                (#[trigger] s[i]).deadline,
                s[i].seqno,
            ),
        insert_pos(s, deadline, seqno) < s.len() ==> rank_before(
            deadline,
            seqno,
            s[insert_pos(s, deadline, seqno)].deadline,
            s[insert_pos(s, deadline, seqno)].seqno,
        ),
    decreases s.len(),
{
    lemma_insert_pos_range(s, deadline, seqno);
    if s.len() != 0 && !rank_before(deadline, seqno, s[0].deadline, s[0].seqno) {
        lemma_insert_pos_split(s.drop_first(), deadline, seqno);
        assert forall|i: int| 0 <= i < insert_pos(s, deadline, seqno) implies !rank_before(
            deadline,
            seqno,
            (#[trigger] s[i]).deadline,
            s[i].seqno,
        ) by {
            if i > 0 {
                assert(s.drop_first()[i - 1] == s[i]);
            }
        }
        if insert_pos(s, deadline, seqno) < s.len() {
            lemma_insert_pos_range(s.drop_first(), deadline, seqno);
            assert(s.drop_first()[insert_pos(s.drop_first(), deadline, seqno)] == s[insert_pos(
                s,
                deadline,
                seqno,
            )]);
        }
    }
}

/// A position that splits the sequence the same way is the insert position.
pub proof fn lemma_insert_pos_unique<T>(
    s: Seq<Item<T>>,
    deadline: AbsoluteDeadline,
    seqno: u64,
    k: int,
)
    requires
        0 <= k <= s.len(),
        forall|i: int|
            0 <= i < k ==> !rank_before(deadline, seqno, (#[trigger] s[i]).deadline, s[i].seqno),
        k < s.len() ==> rank_before(deadline, seqno, s[k].deadline, s[k].seqno),
    ensures
        insert_pos(s, deadline, seqno) == k,
    decreases s.len(),
{
    if s.len() == 0 {
    } else if k == 0 {
    } else {
        assert(!rank_before(deadline, seqno, s[0].deadline, s[0].seqno));
        assert forall|i: int| 0 <= i < k - 1 implies !rank_before(
            deadline,
            seqno,
            (#[trigger] s.drop_first()[i]).deadline,
            s.drop_first()[i].seqno,
        ) by {
            assert(s.drop_first()[i] == s[i + 1]);
        }
        if k < s.len() {
            assert(s.drop_first()[k - 1] == s[k]);
        }
        lemma_insert_pos_unique(s.drop_first(), deadline, seqno, k - 1);
    }
}

/// Inserting a fresh item at its insert position keeps the sequence in pop
/// order, provided every queued sequence number is older than the item's.
pub proof fn lemma_push_preserves_sorted<T>(s: Seq<Item<T>>, it: Item<T>)
    requires
        sorted(s),
        forall|i: int| 0 <= i < s.len() ==> (#[trigger] s[i]).seqno < it.seqno,
    ensures
        sorted(push_spec(s, it.seqno, it.deadline, it.payload)),
{
    let k = insert_pos(s, it.deadline, it.seqno);
    lemma_insert_pos_range(s, it.deadline, it.seqno);
    lemma_insert_pos_split(s, it.deadline, it.seqno);
    let t = push_spec(s, it.seqno, it.deadline, it.payload);
    assert forall|i: int, j: int| 0 <= i < j < t.len() implies #[trigger] item_before(
        t[i],
        t[j],
    ) by {
        if i < k && j < k {
            assert(t[i] == s[i] && t[j] == s[j]);
            assert(item_before(s[i], s[j]));
        } else if i < k && j == k {
            assert(t[i] == s[i]);
            assert(!rank_before(it.deadline, it.seqno, s[i].deadline, s[i].seqno));
            assert(s[i].seqno < it.seqno);
        } else if i < k && j > k {
            assert(t[i] == s[i] && t[j] == s[j - 1]);
            assert(item_before(s[i], s[j - 1]));
        } else if i == k && j > k {
            assert(t[j] == s[j - 1]);
            assert(rank_before(it.deadline, it.seqno, s[k].deadline, s[k].seqno));
            if j - 1 > k {
                assert(item_before(s[k], s[j - 1]));
            }
        } else {
            assert(t[i] == s[i - 1] && t[j] == s[j - 1]);
            assert(item_before(s[i - 1], s[j - 1]));
        }
    }
}

/// The deadline-ordered priority queue: owns the queued items and the running
/// sequence counter; resolves each deadline once, at push time.
pub struct DeadlineQueue<T> {
    seqno: u64,
    items: Vec<Item<T>>,
    epoch: Instant,
}

impl<T> View for DeadlineQueue<T> {
    type V = Seq<Item<T>>;

    /// The queued items, most urgent first: the order repeated pops return
    /// them in.
    closed spec fn view(&self) -> Seq<Item<T>> {
        self.items@
    }
}

impl<T> DeadlineQueue<T> {
    /// How many pushes the queue has accepted over its lifetime; also the
    /// sequence number the next push will take.
    pub closed spec fn pushes(&self) -> u64 {
        self.seqno
    }

    /// Well-formedness: the items stand in strict pop order, and every queued
    /// sequence number was assigned by an earlier push.
    pub closed spec fn wf(&self) -> bool {
        &&& sorted(self.items@)
        &&& forall|i: int| 0 <= i < self.items@.len() ==> (#[trigger] self.items@[i]).seqno < self.seqno
    }

    /// An empty queue, with the sequence counter at zero.
    pub fn new() -> (q: Self)
        ensures
            q.wf(),
            q@ == Seq::<Item<T>>::empty(),
            q.pushes() == 0,
    {
        let q = DeadlineQueue { seqno: 0u64, items: Vec::new(), epoch: Instant::now() };
        proof {
            assert(q@ =~= Seq::<Item<T>>::empty());
        }
        q
    }

    /// Whether the queue holds no items.
    pub fn is_empty(&self) -> (r: bool)
        ensures
            r == (self@.len() == 0),
    {
        self.items.len() == 0
    }

    /// How many items the queue holds.
    pub fn len(&self) -> (n: usize)
        ensures
            n == self@.len(),
    {
        self.items.len()
    }

    /// How many pushes the queue has accepted over its lifetime. Lets a
    /// caller test, before pushing, that the sequence counter has room left.
    pub fn pushed_count(&self) -> (n: u64)
        ensures
            n == self.pushes(),
    {
        self.seqno
    }

    /// Push a payload under a deadline resolved against the given clock
    /// reading (nanoseconds on the queue's clock). The item takes the next
    /// sequence number and lands at its unique place in pop order.
    pub fn push_at(&mut self, value: T, deadline: Deadline, now: u128)
        requires
            old(self).wf(),
            old(self).pushes() < u64::MAX,
        ensures
            final(self).wf(),
            final(self).pushes() == old(self).pushes() + 1,
            final(self)@ == push_spec(
                old(self)@,
                old(self).pushes(),
                resolve(deadline, now),
                value,
            ),
    {
        let dl = AbsoluteDeadline::new(deadline, now);
        let ghost s0 = self.items@;
        let mut k: usize = 0;
        while k < self.items.len()
            invariant
                *self == *old(self),
                self.wf(),
                k <= self.items@.len(),
                forall|i: int|
                    0 <= i < k ==> !abs_lt(dl, (#[trigger] self.items@[i]).deadline),
            ensures
                *self == *old(self),
                k <= self.items@.len(),
                forall|i: int|
                    0 <= i < k ==> !abs_lt(dl, (#[trigger] self.items@[i]).deadline),
                k < self.items@.len() ==> abs_lt(dl, self.items@[k as int].deadline),
            decreases self.items@.len() - k,
        {
            if dl.precedes(&self.items[k].deadline) {
                break ;
            }
            k += 1;
        }
        proof {
            assert forall|i: int| 0 <= i < k implies !rank_before(
                dl,
                self.seqno,
                (#[trigger] self.items@[i]).deadline,
                self.items@[i].seqno,
            ) by {
                assert(self.items@[i].seqno < self.seqno);
            }
            lemma_insert_pos_unique(self.items@, dl, self.seqno, k as int);
        }
        let item = Item { seqno: self.seqno, deadline: dl, payload: value };
        self.items.insert(k, item);
        self.seqno = self.seqno + 1;
        proof {
            lemma_push_preserves_sorted(s0, made_item(old(self).pushes(), dl, value));
            lemma_insert_pos_range(s0, dl, old(self).pushes());
        }
    }

    /// Push a payload under a deadline resolved against the clock reading
    /// taken at call time. The item lands as `push_at` places it, for the
    /// clock value that was read.
    pub fn push(&mut self, value: T, deadline: Deadline)
        requires
            old(self).wf(),
            old(self).pushes() < u64::MAX,
        ensures
            final(self).wf(),
            final(self).pushes() == old(self).pushes() + 1,
            exists|now: u128|
                final(self)@ == push_spec(
                    old(self)@,
                    old(self).pushes(),
                    resolve(deadline, now),
                    value,
                ),
            deadline == Deadline::Immediate ==> final(self)@ == push_spec(
                old(self)@,
                old(self).pushes(),
                AbsoluteDeadline::Immediate,
                value,
            ),
            deadline == Deadline::Infinity ==> final(self)@ == push_spec(
                old(self)@,
                old(self).pushes(),
                AbsoluteDeadline::Infinity,
                value,
            ),
    {
        let d = self.epoch.elapsed();
        let now: u128 = d.as_nanos();
        self.push_at(value, deadline, now);
        proof {
            assert(self@ == push_spec(old(self)@, old(self).pushes(), resolve(deadline, now), value));
        }
    }

    /// Remove and return the most urgent payload: the head of the pop-order
    /// sequence; `None` exactly when the queue is empty.
    pub fn pop(&mut self) -> (r: Option<T>)
        requires
            old(self).wf(),
        ensures
            final(self).wf(),
            final(self).pushes() == old(self).pushes(),
            old(self)@.len() == 0 ==> r == None::<T> && final(self)@ == old(self)@,
            old(self)@.len() > 0 ==> r == Some(old(self)@[0].payload) && final(self)@ == old(
                self,
            )@.drop_first(),
    {
        if self.items.len() == 0 {
            None
        } else {
            let it = self.items.remove(0);
            proof {
                assert(self.items@ =~= old(self)@.drop_first());
                assert forall|i: int, j: int| 0 <= i < j < self.items@.len() implies #[trigger] item_before(
                    self.items@[i],
                    self.items@[j],
                ) by {
                    assert(self.items@[i] == old(self)@[i + 1]);
                    assert(self.items@[j] == old(self)@[j + 1]);
                    assert(item_before(old(self)@[i + 1], old(self)@[j + 1]));
                }
                assert forall|i: int| 0 <= i < self.items@.len() implies (#[trigger] self.items@[i]).seqno
                    < self.seqno by {
                    assert(self.items@[i] == old(self)@[i + 1]);
                }
            }
            Some(it.payload)
        }
    }
}

/// Ordering invariant (law): repeatedly popping a well-formed queue yields
/// items in non-decreasing resolved-deadline order — the view is the pop
/// order, and along it no deadline ever gets more urgent.
pub proof fn lemma_pop_order<T>(q: DeadlineQueue<T>)
    requires
        q.wf(),
    ensures
        forall|i: int, j: int|
            #![trigger q@[i], q@[j]]
            0 <= i < j < q@.len() ==> abs_le(q@[i].deadline, q@[j].deadline),
{
    assert forall|i: int, j: int| #![trigger q@[i], q@[j]] 0 <= i < j < q@.len() implies abs_le(
        q@[i].deadline,
        q@[j].deadline,
    ) by {
        assert(item_before(q@[i], q@[j]));
    }
}

/// FIFO on ties (law): among items of a well-formed queue whose resolved
/// deadlines are equal, pop order is exactly push order — the earlier
/// sequence number comes out first.
pub proof fn lemma_fifo_on_ties<T>(q: DeadlineQueue<T>)
    requires
        q.wf(),
    ensures
        forall|i: int, j: int|
            #![trigger q@[i], q@[j]]
            0 <= i < j < q@.len() && q@[i].deadline == q@[j].deadline ==> q@[i].seqno < q@[
                j
            ].seqno,
{
    assert forall|i: int, j: int|
        #![trigger q@[i], q@[j]]
        0 <= i < j < q@.len() && q@[i].deadline == q@[j].deadline implies q@[i].seqno < q@[
        j
    ].seqno by {
        assert(item_before(q@[i], q@[j]));
    }
}

/// Conservation under push (law): a push adds exactly its own entry — as a
/// multiset, the queued items afterwards are the items before plus the new
/// one; nothing is duplicated and nothing is lost.
pub proof fn lemma_push_conserves<T>(
    s: Seq<Item<T>>,
    seqno: u64,
    deadline: AbsoluteDeadline,
    payload: T,
)
    ensures
        push_spec(s, seqno, deadline, payload).len() == s.len() + 1,
        push_spec(s, seqno, deadline, payload).to_multiset() == s.to_multiset().insert(
            made_item(seqno, deadline, payload),
        ),
{
    lemma_insert_pos_range(s, deadline, seqno);
    vstd::seq_lib::to_multiset_insert(s, insert_pos(s, deadline, seqno), made_item(
        seqno,
        deadline,
        payload,
    ));
}

/// Conservation under pop (law): a successful pop removes exactly the head —
/// as a multiset, the queued items before the pop are the items afterwards
/// plus the popped entry; so a queue built by `n` pushes yields exactly `n`
/// pops before it reports empty.
pub proof fn lemma_pop_conserves<T>(s: Seq<Item<T>>)
    requires
        s.len() > 0,
    ensures
        s.drop_first().len() == s.len() - 1,
        s.to_multiset() == s.drop_first().to_multiset().insert(s[0]),
{
    broadcast use vstd::multiset::group_multiset_axioms;
    broadcast use vstd::seq_lib::group_to_multiset_ensures;

    vstd::seq_lib::to_multiset_remove(s, 0);
    assert(s.remove(0) =~= s.drop_first());
    assert(s.contains(s[0]));
    assert(s.to_multiset().count(s[0]) > 0);
    assert(s.to_multiset() =~= s.to_multiset().remove(s[0]).insert(s[0]));
}

/// Drain-order determinism (law): a pop order is fully determined by what was
/// pushed — two pop-order sequences that hold the same items hold them in the
/// same order, so separate drains of equally built queues agree.
pub proof fn lemma_drain_order_determined<T>(s1: Seq<Item<T>>, s2: Seq<Item<T>>)
    requires
        sorted(s1),
        sorted(s2),
        s1.to_multiset() == s2.to_multiset(),
    ensures
        s1 == s2,
    decreases s1.len(),
{
    broadcast use vstd::multiset::group_multiset_axioms;
    broadcast use vstd::seq_lib::group_to_multiset_ensures;

    if s1.len() == 0 {
        assert(s2.len() == 0);
        assert(s1 =~= s2);
    } else {
        s1.to_multiset_ensures();
        s2.to_multiset_ensures();
        assert(s2.len() == s1.len());
        assert(s1.to_multiset().count(s1[0]) > 0);
        assert(s2.contains(s1[0]));
        let j = choose|j: int| 0 <= j < s2.len() && s2[j] == s1[0];
        assert(s2.to_multiset().count(s2[0]) > 0);
        assert(s1.contains(s2[0]));
        let i = choose|i: int| 0 <= i < s1.len() && s1[i] == s2[0];
        if i > 0 && j > 0 {
            assert(item_before(s1[0], s1[i]));
            assert(item_before(s2[0], s2[j]));
            assert(false);
        }
        assert(s1[0] == s2[0]);
        vstd::seq_lib::to_multiset_remove(s1, 0);
        vstd::seq_lib::to_multiset_remove(s2, 0);
        assert(s1.remove(0) =~= s1.drop_first());
        assert(s2.remove(0) =~= s2.drop_first());
        assert(s1.drop_first().to_multiset() == s2.drop_first().to_multiset());
        assert forall|a: int, b: int| 0 <= a < b < s1.drop_first().len() implies #[trigger] item_before(
            s1.drop_first()[a],
            s1.drop_first()[b],
        ) by {
            assert(item_before(s1[a + 1], s1[b + 1]));
        }
        assert forall|a: int, b: int| 0 <= a < b < s2.drop_first().len() implies #[trigger] item_before(
            s2.drop_first()[a],
            s2.drop_first()[b],
        ) by {
            assert(item_before(s2[a + 1], s2[b + 1]));
        }
        lemma_drain_order_determined(s1.drop_first(), s2.drop_first());
        assert forall|n: int| 0 <= n < s1.len() implies s1[n] == s2[n] by {
            if n > 0 {
                assert(s1[n] == s1.drop_first()[n - 1]);
                assert(s2[n] == s2.drop_first()[n - 1]);
            }
        }
        assert(s1 =~= s2);
    }
}

} // verus!
