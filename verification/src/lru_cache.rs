//! A cache of bounded size that drops the entry that was used least
//! recently.

use vstd::prelude::*;
use std::collections::HashMap;

verus! {

/// `order` with `key` moved to the front; `order` itself where it does not
/// hold the key.
pub open spec fn moved_to_front(order: Seq<u64>, key: u64) -> Seq<u64> {
    if order.contains(key) {
        let at = order.index_of(key);
        seq![key] + order.take(at) + order.skip(at + 1)
    } else {
        order
    }
}

/// Whether the two maps link the keys of `order` as a list: each key to the
/// one behind it and to the one before it.
pub open spec fn linked(order: Seq<u64>, next: Map<u64, u64>, prev: Map<u64, u64>) -> bool {
    &&& forall|j: int|
        0 <= j < order.len() - 1 ==> next.contains_key(#[trigger] order[j]) && next[order[j]]
            == order[j + 1]
    &&& forall|j: int|
        1 <= j < order.len() ==> prev.contains_key(#[trigger] order[j]) && prev[order[j]] == order[j
            - 1]
}

/// Trusted: `HashMap::get_mut` hands out the value stored under the key,
/// if there is one; what is written through it is what the map then holds
/// under the key, and nothing else changes.
#[verifier::external_body]
fn entry_mut<'a, V>(map: &'a mut HashMap<u64, V>, key: u64) -> (slot: Option<&'a mut V>)
    ensures
        slot is Some <==> old(map)@.contains_key(key),
        slot is Some ==> *(slot->0) == old(map)@[key],
        slot is Some ==> final(map)@ == old(map)@.insert(key, *final(slot->0)),
        slot is None ==> final(map)@ == old(map)@,
{
    map.get_mut(&key)
}

/// A cache of at most `capacity` entries with `u64` keys.
pub struct LRUCache<V> {
    capacity: usize,
    cache: HashMap<u64, V>,
    next: HashMap<u64, u64>,
    prev: HashMap<u64, u64>,
    head: Option<u64>,
    tail: Option<u64>,
    order: Ghost<Seq<u64>>,
}

impl<V> LRUCache<V> {
    /// The entries of the cache.
    pub closed spec fn entries(&self) -> Map<u64, V> {
        self.cache@
    }

    /// The keys of the cache, the most recently used first.
    pub closed spec fn order(&self) -> Seq<u64> {
        self.order@
    }

    /// The greatest number of entries that the cache holds.
    pub closed spec fn limit(&self) -> nat {
        self.capacity as nat
    }

    /// The keys in use are those of the entries, each once, no more than
    /// the limit, and the links between them follow the order of use.
    pub closed spec fn wf(&self) -> bool {
        &&& self.capacity > 0
        &&& self.order@.no_duplicates()
        &&& self.order@.len() <= self.capacity
        &&& forall|k: u64| self.order@.contains(k) <==> self.cache@.contains_key(k)
        &&& self.cache@.dom().finite()
        &&& self.cache@.len() == self.order@.len()
        &&& self.head == if self.order@.len() > 0 {
            Some(self.order@[0])
        } else {
            None::<u64>
        }
        &&& self.tail == if self.order@.len() > 0 {
            Some(self.order@.last())
        } else {
            None::<u64>
        }
        &&& linked(self.order@, self.next@, self.prev@)
    }

    /// What `wf` says of the order and the entries.
    pub proof fn lemma_wf(&self)
        requires
            self.wf(),
        ensures
            self.limit() > 0,
            self.order().no_duplicates(),
            self.order().len() <= self.limit(),
            self.order().len() == self.entries().len(),
            forall|k: u64| self.order().contains(k) <==> self.entries().contains_key(k),
    {
    }

    /// An empty cache for at most `capacity` entries.
    pub fn new(capacity: usize) -> (cache: LRUCache<V>)
        requires
            capacity > 0,
        ensures
            cache.wf(),
            cache.limit() == capacity,
            cache.order() == Seq::<u64>::empty(),
            cache.entries() == Map::<u64, V>::empty(),
    {
        LRUCache {
            capacity,
            cache: HashMap::with_capacity(capacity),
            next: HashMap::new(),
            prev: HashMap::new(),
            head: None,
            tail: None,
            order: Ghost(Seq::empty()),
        }
    }

    /// The number of entries.
    pub fn len(&self) -> (n: usize)
        requires
            self.wf(),
        ensures
            n == self.order().len(),
            n == self.entries().len(),
    {
        self.cache.len()
    }

    /// Whether the cache holds nothing.
    pub fn is_empty(&self) -> (empty: bool)
        requires
            self.wf(),
        ensures
            empty == (self.order().len() == 0),
    {
        self.cache.len() == 0
    }

    /// Moves a key in use to the front of the order.
    fn update(&mut self, key: u64)
        requires
            old(self).capacity > 0,
            old(self).order@.no_duplicates(),
            old(self).order@.contains(key),
            old(self).head == Some(old(self).order@[0]),
            old(self).tail == Some(old(self).order@.last()),
            linked(old(self).order@, old(self).next@, old(self).prev@),
        ensures
            final(self).capacity == old(self).capacity,
            final(self).cache == old(self).cache,
            final(self).order@ == moved_to_front(old(self).order@, key),
            final(self).order@.no_duplicates(),
            final(self).order@.len() == old(self).order@.len(),
            forall|k: u64| final(self).order@.contains(k) <==> old(self).order@.contains(k),
            final(self).head == Some(final(self).order@[0]),
            final(self).tail == Some(final(self).order@.last()),
            linked(final(self).order@, final(self).next@, final(self).prev@),
    {
        let ghost order = self.order@;
        let ghost at = order.index_of(key);
        let ghost moved = moved_to_front(order, key);
        let head = self.head.unwrap();
        let tail = self.tail.unwrap();
        proof {
            assert(order[at] == key);
            assert(moved.len() == order.len());
            assert(moved[0] == key);
            assert forall|j: int| 1 <= j <= at implies moved[j] == order[j - 1] by {}
            assert forall|j: int| at < j < order.len() implies moved[j] == order[j] by {}
            assert forall|k: u64| moved.contains(k) <==> order.contains(k) by {
                if moved.contains(k) {
                    let j = choose|j: int| 0 <= j < moved.len() && moved[j] == k;
                    if j == 0 {
                    } else if j <= at {
                        assert(order[j - 1] == k);
                    } else {
                        assert(order[j] == k);
                    }
                }
                if order.contains(k) {
                    let j = choose|j: int| 0 <= j < order.len() && order[j] == k;
                    if j == at {
                        assert(moved[0] == k);
                    } else if j < at {
                        assert(moved[j + 1] == k);
                    } else {
                        assert(moved[j] == k);
                    }
                }
            }
            assert forall|i: int, j: int| 0 <= i < j < moved.len() implies moved[i] != moved[j] by {
                let a = if i == 0 {
                    at
                } else if i <= at {
                    i - 1
                } else {
                    i
                };
                let b = if j <= at {
                    j - 1
                } else {
                    j
                };
                assert(moved[i] == order[a]);
                assert(moved[j] == order[b]);
                assert(a != b);
            }
        }
        if head == key {
            proof {
                assert(at == 0);
                assert(moved =~= order);
            }
        } else if tail == key {
            proof {
                assert(at == order.len() - 1);
                assert(at >= 1);
            }
            let prev_key = self.prev.remove(&key).unwrap();
            self.next.remove(&prev_key);
            self.tail = Some(prev_key);
            self.next.insert(key, head);
            self.prev.insert(head, key);
            self.head = Some(key);
            self.order = Ghost(moved);
            proof {
                assert(prev_key == order[at - 1]);
                assert(moved.last() == order[at - 1]);
                assert forall|j: int| 0 <= j < moved.len() - 1 implies self.next@.contains_key(
                    #[trigger] moved[j],
                ) && self.next@[moved[j]] == moved[j + 1] by {
                    if j >= 1 {
                        assert(moved[j] == order[j - 1]);
                        assert(moved[j + 1] == order[j]);
                        assert(order[j - 1] != order[at - 1]);
                        assert(order[j - 1] != order[at]);
                    }
                }
                assert forall|j: int| 1 <= j < moved.len() implies self.prev@.contains_key(
                    #[trigger] moved[j],
                ) && self.prev@[moved[j]] == moved[j - 1] by {
                    assert(moved[j] == order[j - 1]);
                    if j >= 2 {
                        assert(moved[j - 1] == order[j - 2]);
                        assert(order[j - 1] != order[at]);
                        assert(order[j - 1] != order[0]);
                    }
                }
            }
        } else {
            proof {
                assert(0 < at < order.len() - 1);
            }
            let prev_key = self.prev.remove(&key).unwrap();
            let next_key = self.next.remove(&key).unwrap();
            self.next.remove(&prev_key);
            self.prev.remove(&next_key);
            self.next.insert(prev_key, next_key);
            self.prev.insert(next_key, prev_key);
            self.next.insert(key, head);
            self.prev.insert(head, key);
            self.head = Some(key);
            self.order = Ghost(moved);
            proof {
                assert(prev_key == order[at - 1]);
                assert(next_key == order[at + 1]);
                assert(moved.last() == order.last());
                assert forall|j: int| 0 <= j < moved.len() - 1 implies self.next@.contains_key(
                    #[trigger] moved[j],
                ) && self.next@[moved[j]] == moved[j + 1] by {
                    if j == 0 {
                    } else if j < at {
                        assert(moved[j] == order[j - 1]);
                        assert(moved[j + 1] == order[j]);
                        assert(order[j - 1] != order[at - 1]);
                        assert(order[j - 1] != order[at]);
                    } else if j == at {
                        assert(moved[j] == order[at - 1]);
                        assert(moved[j + 1] == order[at + 1]);
                        assert(order[at - 1] != order[at]);
                    } else {
                        assert(moved[j] == order[j]);
                        assert(moved[j + 1] == order[j + 1]);
                        assert(order[j] != order[at - 1]);
                        assert(order[j] != order[at]);
                    }
                }
                assert forall|j: int| 1 <= j < moved.len() implies self.prev@.contains_key(
                    #[trigger] moved[j],
                ) && self.prev@[moved[j]] == moved[j - 1] by {
                    if j == 1 {
                        assert(moved[1] == order[0]);
                    } else if j <= at {
                        assert(moved[j] == order[j - 1]);
                        assert(moved[j - 1] == order[j - 2]);
                        assert(order[j - 1] != order[0]);
                        assert(order[j - 1] != order[at]);
                        assert(order[j - 1] != order[at + 1]);
                    } else if j == at + 1 {
                        assert(moved[j] == order[at + 1]);
                        assert(moved[j - 1] == order[at - 1]);
                        assert(order[at + 1] != order[0]);
                    } else {
                        assert(moved[j] == order[j]);
                        assert(moved[j - 1] == order[j - 1]);
                        assert(order[j] != order[0]);
                        assert(order[j] != order[at]);
                        assert(order[j] != order[at + 1]);
                    }
                }
            }
        }
    }

    /// The value stored under the key; a key in use moves to the front of
    /// the order.
    pub fn get(&mut self, key: u64) -> (value: Option<&V>)
        requires
            old(self).wf(),
        ensures
            final(self).wf(),
            final(self).limit() == old(self).limit(),
            final(self).entries() == old(self).entries(),
            final(self).order() == moved_to_front(old(self).order(), key),
            match value {
                Some(v) => old(self).entries().contains_key(key) && *v == old(self).entries()[key],
                None => !old(self).entries().contains_key(key),
            },
    {
        if self.cache.contains_key(&key) {
            self.update(key);
        }
        self.cache.get(&key)
    }

    /// The value stored under the key, to be changed in place; a key in use
    /// moves to the front of the order.
    pub fn get_mut(&mut self, key: u64) -> (value: Option<&mut V>)
        requires
            old(self).wf(),
        ensures
            final(self).wf(),
            final(self).limit() == old(self).limit(),
            final(self).order() == moved_to_front(old(self).order(), key),
            value is Some <==> old(self).entries().contains_key(key),
            value is Some ==> *(value->0) == old(self).entries()[key],
            value is Some ==> final(self).entries() == old(self).entries().insert(
                key,
                *final(value->0),
            ),
            value is None ==> final(self).entries() == old(self).entries(),
    {
        if self.cache.contains_key(&key) {
            self.update(key);
        }
        let slot = entry_mut(&mut self.cache, key);
        proof {
            if slot is Some {
                assert(old(self).cache@.insert(key, *final(slot->0)).dom() =~= old(self).cache@.dom());
            }
        }
        slot
    }

    /// Stores the value under the key, which moves to the front of the
    /// order, and hands out the value that was stored under it before. A
    /// new key in a full cache takes the place of the key used least
    /// recently.
    pub fn insert(&mut self, key: u64, value: V) -> (previous: Option<V>)
        requires
            old(self).wf(),
        ensures
            final(self).wf(),
            final(self).limit() == old(self).limit(),
            previous == if old(self).entries().contains_key(key) {
                Some(old(self).entries()[key])
            } else {
                None::<V>
            },
            old(self).entries().contains_key(key) ==> final(self).order() == moved_to_front(
                old(self).order(),
                key,
            ) && final(self).entries() == old(self).entries().insert(key, value),
            !old(self).entries().contains_key(key) && old(self).order().len() < old(self).limit()
                ==> final(self).order() == seq![key] + old(self).order() && final(self).entries()
                == old(self).entries().insert(key, value),
            !old(self).entries().contains_key(key) && old(self).order().len() == old(self).limit()
                ==> final(self).order() == seq![key] + old(self).order().drop_last() && final(self).entries() == old(self).entries().remove(old(self).order().last()).insert(key, value),
    {
        let ghost order = self.order@;
        if self.head.is_none() && self.tail.is_none() {
            self.head = Some(key);
            self.tail = Some(key);
            self.cache.insert(key, value);
            let ghost single = seq![key];
            self.order = Ghost(single);
            proof {
                assert(order =~= Seq::<u64>::empty());
                assert(seq![key] =~= seq![key] + order);
                assert(self.cache@.dom() =~= set![key]);
                assert forall|k: u64| self.order@.contains(k) <==> self.cache@.contains_key(k) by {
                    if k == key {
                        assert(self.order@[0] == key);
                    }
                }
            }
            return None;
        }
        if self.cache.contains_key(&key) {
            let old_value = self.cache.remove(&key);
            self.update(key);
            self.cache.insert(key, value);
            proof {
                assert(self.cache@ =~= old(self).cache@.insert(key, value));
                assert(self.cache@.dom() =~= old(self).cache@.dom());
            }
            old_value
        } else {
            let head = self.head.unwrap();
            let tail = self.tail.unwrap();
            if self.cache.len() == self.capacity && self.capacity == 1 {
                self.cache.remove(&head);
                self.head = Some(key);
                self.tail = Some(key);
                self.cache.insert(key, value);
                let ghost single = seq![key];
            self.order = Ghost(single);
                proof {
                    assert(order.len() == 1);
                    assert(seq![key] =~= seq![key] + order.drop_last());
                    assert(order.last() == head);
                    assert(self.cache@.dom() =~= set![key]) by {
                        assert forall|k: u64| self.cache@.contains_key(k) implies k == key by {
                            if k != key {
                                assert(old(self).cache@.contains_key(k));
                                assert(order.contains(k));
                                assert(order[0] == k);
                            }
                        }
                    }
                    assert forall|k: u64| self.order@.contains(k) <==> self.cache@.contains_key(
                        k,
                    ) by {
                        if k == key {
                            assert(self.order@[0] == key);
                        }
                    }
                }
                return None;
            }
            let ghost kept = if order.len() == self.capacity {
                order.drop_last()
            } else {
                order
            };
            if self.cache.len() == self.capacity {
                proof {
                    assert(order.len() >= 2);
                    assert(order[order.len() - 1] == tail);
                }
                let prev_key = self.prev.remove(&tail).unwrap();
                self.next.remove(&prev_key);
                self.cache.remove(&tail);
                self.tail = Some(prev_key);
                proof {
                    assert(prev_key == order[order.len() - 2]);
                    assert(kept.last() == prev_key);
                    assert forall|j: int| 0 <= j < kept.len() - 1 implies self.next@.contains_key(
                        #[trigger] kept[j],
                    ) && self.next@[kept[j]] == kept[j + 1] by {
                        assert(kept[j] == order[j]);
                        assert(kept[j + 1] == order[j + 1]);
                        assert(order[j] != order[order.len() - 2]);
                    }
                    assert forall|j: int| 1 <= j < kept.len() implies self.prev@.contains_key(
                        #[trigger] kept[j],
                    ) && self.prev@[kept[j]] == kept[j - 1] by {
                        assert(kept[j] == order[j]);
                        assert(kept[j - 1] == order[j - 1]);
                        assert(order[j] != order[order.len() - 1]);
                    }
                    assert forall|k: u64| kept.contains(k) <==> self.cache@.contains_key(k) by {
                        if kept.contains(k) {
                            let j = choose|j: int| 0 <= j < kept.len() && kept[j] == k;
                            assert(order[j] == k);
                            assert(order[j] != order[order.len() - 1]);
                            assert(order.contains(k));
                            assert(old(self).cache@.contains_key(k));
                        }
                        if self.cache@.contains_key(k) {
                            assert(k != tail);
                            assert(old(self).cache@.contains_key(k));
                            assert(order.contains(k));
                            let j = choose|j: int| 0 <= j < order.len() && order[j] == k;
                            assert(j != order.len() - 1);
                            assert(kept[j] == k);
                        }
                    }
                    assert(order.contains(tail));
                    assert(self.cache@.dom() =~= old(self).cache@.dom().remove(tail));
                    assert(self.cache@.len() == kept.len());
                }
            }
            proof {
                assert(kept.len() >= 1);
                assert(kept[0] == head);
                assert(kept.no_duplicates()) by {
                    assert forall|i: int, j: int| 0 <= i < j < kept.len() implies kept[i]
                        != kept[j] by {
                        assert(kept[i] == order[i] && kept[j] == order[j]);
                    }
                }
                assert(!kept.contains(key)) by {
                    if kept.contains(key) {
                        let j = choose|j: int| 0 <= j < kept.len() && kept[j] == key;
                        assert(order[j] == key);
                        assert(order.contains(key));
                    }
                }
                assert(linked(kept, self.next@, self.prev@));
                assert(forall|k: u64| kept.contains(k) <==> self.cache@.contains_key(k));
                assert(self.cache@.len() == kept.len());
            }
            let ghost grown = seq![key] + kept;
            let ghost before = self.cache@;
            self.next.insert(key, head);
            self.prev.insert(head, key);
            self.head = Some(key);
            self.cache.insert(key, value);
            self.order = Ghost(grown);
            proof {
                assert(grown[0] == key);
                assert forall|j: int| 1 <= j < grown.len() implies grown[j] == kept[j - 1] by {}
                assert(grown.last() == kept.last());
                assert forall|i: int, j: int| 0 <= i < j < grown.len() implies grown[i]
                    != grown[j] by {
                    assert(grown[j] == kept[j - 1]);
                    if i >= 1 {
                        assert(grown[i] == kept[i - 1]);
                    }
                }
                assert forall|k: u64| grown.contains(k) <==> self.cache@.contains_key(k) by {
                    if grown.contains(k) {
                        let j = choose|j: int| 0 <= j < grown.len() && grown[j] == k;
                        if j >= 1 {
                            assert(kept[j - 1] == k);
                            assert(kept.contains(k));
                            assert(before.contains_key(k));
                        }
                    }
                    if self.cache@.contains_key(k) {
                        if k != key {
                            assert(before.contains_key(k));
                            assert(kept.contains(k));
                            let j = choose|j: int| 0 <= j < kept.len() && kept[j] == k;
                            assert(grown[j + 1] == k);
                        }
                    }
                }
                assert forall|j: int| 0 <= j < grown.len() - 1 implies self.next@.contains_key(
                    #[trigger] grown[j],
                ) && self.next@[grown[j]] == grown[j + 1] by {
                    if j >= 1 {
                        assert(grown[j] == kept[j - 1]);
                        assert(grown[j + 1] == kept[j]);
                    }
                }
                assert forall|j: int| 1 <= j < grown.len() implies self.prev@.contains_key(
                    #[trigger] grown[j],
                ) && self.prev@[grown[j]] == grown[j - 1] by {
                    assert(grown[j] == kept[j - 1]);
                    if j >= 2 {
                        assert(grown[j - 1] == kept[j - 2]);
                        assert(kept[j - 1] != kept[0]);
                    }
                }
            }
            None
        }
    }

    /// Empties the cache.
    pub fn clear(&mut self)
        requires
            old(self).wf(),
        ensures
            final(self).wf(),
            final(self).limit() == old(self).limit(),
            final(self).order() == Seq::<u64>::empty(),
            final(self).entries() == Map::<u64, V>::empty(),
    {
        self.cache.clear();
        self.next.clear();
        self.prev.clear();
        self.head = None;
        self.tail = None;
        self.order = Ghost(Seq::empty());
    }
}

} // verus!
