//! A queue of integers that knows its least and its greatest item.

use vstd::prelude::*;
use std::collections::VecDeque;

verus! {

/// Whether `a` must give way to `b`: when keeping least items (`least`), an
/// item gives way to a smaller one; when keeping greatest items, to a
/// greater one.
pub open spec fn gives_way(a: i32, b: i32, least: bool) -> bool {
    if least {
        a > b
    } else {
        a < b
    }
}

/// `chain` without the items at its end that give way to `value`.
pub open spec fn trimmed(chain: Seq<i32>, value: i32, least: bool) -> Seq<i32>
    decreases chain.len(),
{
    if chain.len() > 0 && gives_way(chain.last(), value, least) {
        trimmed(chain.drop_last(), value, least)
    } else {
        chain
    }
}

/// The candidates of a queue: the items that no later item makes give way,
/// in queue order. The first candidate is the least (or the greatest) item
/// of the queue.
pub open spec fn candidates(items: Seq<i32>, least: bool) -> Seq<i32>
    decreases items.len(),
{
    if items.len() == 0 {
        Seq::empty()
    } else {
        trimmed(candidates(items.drop_last(), least), items.last(), least).push(items.last())
    }
}

/// Whether no item of the sequence gives way to a later one.
pub open spec fn settled(chain: Seq<i32>, least: bool) -> bool {
    forall|i: int, j: int| 0 <= i < j < chain.len() ==> !gives_way(chain[i], chain[j], least)
}

/// Whether `m` is an item of the sequence to which no item makes it give
/// way: the least item, or the greatest.
pub open spec fn extreme_of(items: Seq<i32>, m: i32, least: bool) -> bool {
    &&& exists|i: int| 0 <= i < items.len() && items[i] == m
    &&& forall|i: int| 0 <= i < items.len() ==> !gives_way(m, items[i], least)
}

/// Trimming takes items from the end only; what stays gives way neither to
/// the value nor to what stayed behind it.
proof fn lemma_trimmed(chain: Seq<i32>, value: i32, least: bool)
    requires
        settled(chain, least),
    ensures
        trimmed(chain, value, least).len() <= chain.len(),
        trimmed(chain, value, least) == chain.take(trimmed(chain, value, least).len() as int),
        forall|i: int|
            0 <= i < trimmed(chain, value, least).len() ==> !gives_way(chain[i], value, least),
        forall|i: int|
            trimmed(chain, value, least).len() <= i < chain.len() ==> gives_way(
                chain[i],
                value,
                least,
            ),
    decreases chain.len(),
{
    if chain.len() > 0 && gives_way(chain.last(), value, least) {
        let shorter = chain.drop_last();
        assert forall|i: int, j: int| 0 <= i < j < shorter.len() implies !gives_way(
            shorter[i],
            shorter[j],
            least,
        ) by {
            assert(shorter[i] == chain[i] && shorter[j] == chain[j]);
        }
        lemma_trimmed(shorter, value, least);
        let t = trimmed(chain, value, least);
        assert(t == trimmed(shorter, value, least));
        assert(shorter.take(t.len() as int) == chain.take(t.len() as int));
        assert forall|i: int| 0 <= i < t.len() implies !gives_way(chain[i], value, least) by {
            assert(shorter[i] == chain[i]);
        }
        assert forall|i: int| t.len() <= i < chain.len() implies gives_way(
            chain[i],
            value,
            least,
        ) by {
            if i < shorter.len() {
                assert(shorter[i] == chain[i]);
            }
        }
    } else {
        assert(chain.take(chain.len() as int) == chain);
        if chain.len() > 0 {
            assert forall|i: int| 0 <= i < chain.len() implies !gives_way(chain[i], value, least) by {
                if i < chain.len() - 1 {
                    assert(!gives_way(chain[i], chain[chain.len() - 1], least));
                }
            }
        }
    }
}

/// The candidates of a queue are settled, there is one as soon as the queue
/// has an item, and the first is the extreme item of the queue.
pub proof fn lemma_candidates(items: Seq<i32>, least: bool)
    ensures
        settled(candidates(items, least), least),
        candidates(items, least).len() <= items.len(),
        items.len() > 0 ==> candidates(items, least).len() > 0,
        items.len() > 0 ==> candidates(items, least).last() == items.last(),
        items.len() > 0 ==> extreme_of(items, candidates(items, least)[0], least),
    decreases items.len(),
{
    if items.len() > 0 {
        let before = items.drop_last();
        let v = items.last();
        lemma_candidates(before, least);
        let c = candidates(before, least);
        lemma_trimmed(c, v, least);
        let t = trimmed(c, v, least);
        let r = t.push(v);
        assert(r == candidates(items, least));
        assert forall|i: int, j: int| 0 <= i < j < r.len() implies !gives_way(r[i], r[j], least) by {
            assert(r[i] == c[i]);
            if j < t.len() {
                assert(r[j] == c[j]);
            }
        }
        if t.len() == 0 {
            assert(r[0] == v);
            assert(items[items.len() - 1] == v);
            assert forall|i: int| 0 <= i < items.len() implies !gives_way(v, items[i], least) by {
                if i < before.len() {
                    assert(items[i] == before[i]);
                    assert(gives_way(c[0], v, least));
                    assert(!gives_way(c[0], before[i], least));
                }
            }
        } else {
            assert(r[0] == c[0]);
            let k = choose|k: int| 0 <= k < before.len() && before[k] == c[0];
            assert(items[k] == c[0]);
            assert forall|i: int| 0 <= i < items.len() implies !gives_way(c[0], items[i], least) by {
                if i < before.len() {
                    assert(items[i] == before[i]);
                }
            }
        }
    }
}

/// Taking the first item of a queue away takes the first candidate away
/// where the two are equal, and leaves the candidates as they are where
/// they differ.
pub proof fn lemma_candidates_drop_first(items: Seq<i32>, least: bool)
    requires
        items.len() > 0,
    ensures
        candidates(items, least).len() > 0,
        candidates(items.drop_first(), least) == if items[0] == candidates(items, least)[0] {
            candidates(items, least).drop_first()
        } else {
            candidates(items, least)
        },
    decreases items.len(),
{
    lemma_candidates(items, least);
    let t = items.drop_last();
    let v = items.last();
    let rest = items.drop_first();
    if t.len() == 0 {
        assert(rest =~= Seq::empty());
        assert(candidates(t, least) =~= Seq::empty());
        assert(candidates(items, least) =~= seq![v]);
        assert(candidates(items, least).drop_first() =~= Seq::empty());
    } else {
        lemma_candidates_drop_first(t, least);
        lemma_candidates(t, least);
        lemma_candidates(t.drop_first(), least);
        let c = candidates(t, least);
        let c_rest = candidates(t.drop_first(), least);
        assert(rest.drop_last() == t.drop_first());
        assert(rest.last() == v);
        assert(items[0] == t[0]);
        lemma_trimmed(c, v, least);
        lemma_trimmed(c_rest, v, least);
        let tc = trimmed(c, v, least);
        let tr = trimmed(c_rest, v, least);
        assert(candidates(items, least) == tc.push(v));
        assert(candidates(rest, least) == tr.push(v));
        assert(extreme_of(t, c[0], least));
        assert(!gives_way(c[0], t[0], least));
        if t[0] == c[0] {
            assert(c_rest == c.drop_first());
            if tc.len() == 0 {
                assert(gives_way(c[0], v, least));
                if tr.len() > 0 {
                    assert(!gives_way(c_rest[0], v, least));
                    assert(c_rest[0] == c[1]);
                    assert(gives_way(c[1], v, least));
                }
                assert(tr.len() == 0);
                assert(tc.push(v)[0] == v);
                assert(tr.push(v) =~= tc.push(v));
            } else {
                assert(tc.push(v)[0] == c[0]);
                if tr.len() + 1 < tc.len() {
                    let i = tr.len() as int;
                    assert(gives_way(c_rest[i], v, least));
                    assert(c_rest[i] == c[i + 1]);
                    assert(!gives_way(c[i + 1], v, least));
                }
                if tr.len() + 1 > tc.len() {
                    let i = tc.len() as int;
                    assert(gives_way(c[i], v, least));
                    assert(c_rest[i - 1] == c[i]);
                    assert(!gives_way(c_rest[i - 1], v, least));
                }
                assert(tr.len() + 1 == tc.len());
                assert(tr.push(v) =~= tc.push(v).drop_first());
            }
        } else {
            assert(c_rest == c);
            assert(tr == tc);
            if tc.len() == 0 {
                assert(tc.push(v)[0] == v);
                assert(gives_way(c[0], v, least));
            } else {
                assert(tc.push(v)[0] == c[0]);
            }
        }
    }
}

/// A first-in first-out queue of `i32` that answers for its least and its
/// greatest item in constant time.
pub struct MinMaxQueue {
    queue: VecDeque<i32>,
    min_deque: VecDeque<i32>,
    max_deque: VecDeque<i32>,
}

impl View for MinMaxQueue {
    type V = Seq<i32>;

    closed spec fn view(&self) -> Seq<i32> {
        self.queue@
    }
}

impl MinMaxQueue {
    /// The two side queues hold the candidates for least and greatest.
    pub closed spec fn wf(&self) -> bool {
        &&& self.min_deque@ == candidates(self.queue@, true)
        &&& self.max_deque@ == candidates(self.queue@, false)
    }

    /// An empty queue.
    pub fn new() -> (q: MinMaxQueue)
        ensures
            q.wf(),
            q@ == Seq::<i32>::empty(),
    {
        MinMaxQueue { queue: VecDeque::new(), min_deque: VecDeque::new(), max_deque: VecDeque::new() }
    }

    /// Puts `value` at the end of the queue.
    pub fn push(&mut self, value: i32)
        requires
            old(self).wf(),
        ensures
            final(self).wf(),
            final(self)@ == old(self)@.push(value),
    {
        let ghost before = self.queue@;
        self.queue.push_back(value);
        assert(self.queue@.drop_last() == before);
        while self.min_deque.len() > 0 && self.min_deque[self.min_deque.len() - 1] > value
            invariant
                self.queue@ == before.push(value),
                self.max_deque@ == candidates(before, false),
                trimmed(self.min_deque@, value, true) == trimmed(candidates(before, true), value, true),
            decreases self.min_deque.len(),
        {
            self.min_deque.pop_back();
        }
        assert(self.min_deque@ == trimmed(self.min_deque@, value, true));
        while self.max_deque.len() > 0 && self.max_deque[self.max_deque.len() - 1] < value
            invariant
                self.queue@ == before.push(value),
                self.min_deque@ == trimmed(candidates(before, true), value, true),
                trimmed(self.max_deque@, value, false) == trimmed(
                    candidates(before, false),
                    value,
                    false,
                ),
            decreases self.max_deque.len(),
        {
            self.max_deque.pop_back();
        }
        assert(self.max_deque@ == trimmed(self.max_deque@, value, false));
        self.min_deque.push_back(value);
        self.max_deque.push_back(value);
        assert(self.queue@.drop_last() == before);
    }

    /// Takes the oldest item out, if there is one.
    pub fn pop(&mut self) -> (item: Option<i32>)
        requires
            old(self).wf(),
        ensures
            final(self).wf(),
            old(self)@.len() == 0 ==> item is None && final(self)@ == old(self)@,
            old(self)@.len() > 0 ==> item == Some(old(self)@[0]) && final(self)@ == old(
                self,
            )@.drop_first(),
    {
        if self.queue.len() == 0 {
            return None;
        }
        proof {
            lemma_candidates_drop_first(self.queue@, true);
            lemma_candidates_drop_first(self.queue@, false);
        }
        let front = self.queue[0];
        if self.min_deque[0] == front {
            self.min_deque.pop_front();
        }
        if self.max_deque[0] == front {
            self.max_deque.pop_front();
        }
        self.queue.pop_front()
    }

    /// The oldest item.
    pub fn first(&self) -> (item: Option<i32>)
        ensures
            self@.len() == 0 ==> item is None,
            self@.len() > 0 ==> item == Some(self@[0]),
    {
        if self.queue.len() == 0 {
            None
        } else {
            Some(self.queue[0])
        }
    }

    /// The newest item.
    pub fn last(&self) -> (item: Option<i32>)
        ensures
            self@.len() == 0 ==> item is None,
            self@.len() > 0 ==> item == Some(self@.last()),
    {
        if self.queue.len() == 0 {
            None
        } else {
            Some(self.queue[self.queue.len() - 1])
        }
    }

    /// The least item.
    pub fn min(&self) -> (item: Option<i32>)
        requires
            self.wf(),
        ensures
            self@.len() == 0 ==> item is None,
            self@.len() > 0 ==> item is Some && extreme_of(self@, item->0, true),
    {
        proof {
            lemma_candidates(self.queue@, true);
        }
        if self.min_deque.len() == 0 {
            None
        } else {
            Some(self.min_deque[0])
        }
    }

    /// The greatest item.
    pub fn max(&self) -> (item: Option<i32>)
        requires
            self.wf(),
        ensures
            self@.len() == 0 ==> item is None,
            self@.len() > 0 ==> item is Some && extreme_of(self@, item->0, false),
    {
        proof {
            lemma_candidates(self.queue@, false);
        }
        if self.max_deque.len() == 0 {
            None
        } else {
            Some(self.max_deque[0])
        }
    }

    /// The number of items.
    pub fn len(&self) -> (n: usize)
        ensures
            n == self@.len(),
    {
        self.queue.len()
    }

    /// Whether the queue holds nothing.
    pub fn is_empty(&self) -> (empty: bool)
        ensures
            empty == (self@.len() == 0),
    {
        self.queue.len() == 0
    }
}

impl Default for MinMaxQueue {
    fn default() -> (q: MinMaxQueue)
        ensures
            q.wf(),
            q@ == Seq::<i32>::empty(),
    {
        MinMaxQueue::new()
    }
}

/// The least item of a sequence is below all of them, and the greatest is
/// above all of them.
pub proof fn law_extremes_bound_items(items: Seq<i32>, low: i32, high: i32, i: int)
    requires
        extreme_of(items, low, true),
        extreme_of(items, high, false),
        0 <= i < items.len(),
    ensures
        low <= items[i] <= high,
{
}

} // verus!
