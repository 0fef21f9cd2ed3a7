//! Small operations on lists of numbers, and mapping with flattening.

use vstd::prelude::*;

verus! {

/// Each number plus two. No number may be within two of the largest `i32`.
pub fn add2(numbers: Vec<i32>) -> (sums: Vec<i32>)
    requires
        forall|i: int| 0 <= i < numbers@.len() ==> numbers@[i] <= i32::MAX - 2,
    ensures
        sums@.len() == numbers@.len(),
        forall|i: int| 0 <= i < numbers@.len() ==> sums@[i] == numbers@[i] + 2,
{
    let mut sums: Vec<i32> = Vec::new();
    let mut i: usize = 0;
    while i < numbers.len()
        invariant
            i <= numbers.len(),
            sums@.len() == i,
            forall|j: int| 0 <= j < numbers@.len() ==> numbers@[j] <= i32::MAX - 2,
            forall|j: int| 0 <= j < i ==> sums@[j] == numbers@[j] + 2,
        decreases numbers.len() - i,
    {
        sums.push(numbers[i] + 2);
        i = i + 1;
    }
    sums
}

/// The number of positive `i32` that three divides.
pub const MULTIPLES_OF_THREE: usize = 715827882;

/// The first `count` positive numbers that three divides, in ascending
/// order; all of them where `count` is beyond their number.
pub fn div3(count: usize) -> (multiples: Vec<i32>)
    ensures
        multiples@.len() == if count <= MULTIPLES_OF_THREE {
            count
        } else {
            MULTIPLES_OF_THREE
        },
        forall|i: int| 0 <= i < multiples@.len() ==> multiples@[i] == 3 * (i + 1),
{
    let mut multiples: Vec<i32> = Vec::new();
    let mut i: usize = 0;
    while i < count && i < MULTIPLES_OF_THREE
        invariant
            i <= count,
            i <= MULTIPLES_OF_THREE,
            multiples@.len() == i,
            forall|j: int| 0 <= j < i ==> multiples@[j] == 3 * (j + 1),
        decreases count - i,
    {
        multiples.push(3 * (i as i32 + 1));
        i = i + 1;
    }
    multiples
}

/// The first `n` numbers; all of them where there are fewer.
pub fn take_n(numbers: Vec<i32>, n: usize) -> (taken: Vec<i32>)
    ensures
        taken@ == numbers@.take(if n <= numbers@.len() {
            n as int
        } else {
            numbers@.len() as int
        }),
{
    let mut taken = numbers;
    if n < taken.len() {
        taken.truncate(n);
    }
    assert(taken@ =~= numbers@.take(if n <= numbers@.len() {
        n as int
    } else {
        numbers@.len() as int
    }));
    taken
}

/// The lists one after the other.
pub open spec fn concatenated<U>(lists: Seq<Vec<U>>) -> Seq<U>
    decreases lists.len(),
{
    if lists.len() == 0 {
        Seq::empty()
    } else {
        concatenated(lists.drop_last()) + lists.last()@
    }
}

/// The items of the mapped lists, one after the other, to be taken one by
/// one.
pub struct FlatMap<U> {
    items: Vec<U>,
}

impl<U> FlatMap<U> {
    /// The items that are still to come, the next first.
    pub closed spec fn remaining(&self) -> Seq<U> {
        self.items@.reverse()
    }

    /// The items of a list, to be taken one by one from its front.
    pub fn new(list: Vec<U>) -> (flat: FlatMap<U>)
        ensures
            flat.remaining() == list@,
    {
        let mut list = list;
        let mut items: Vec<U> = Vec::new();
        let ghost all = list@;
        while list.len() > 0
            invariant
                list@.len() + items@.len() == all.len(),
                list@ == all.take(list@.len() as int),
                items@.reverse() == all.skip(list@.len() as int),
            decreases list.len(),
        {
            let ghost before = items@;
            let ghost n = list@.len() as int;
            let item = list.pop().unwrap();
            items.push(item);
            proof {
                assert(item == all[n - 1]);
                assert(list@ =~= all.take(n - 1));
                assert(items@.reverse() =~= seq![item] + before.reverse());
                assert(items@.reverse() =~= all.skip(n - 1));
            }
        }
        assert(all.skip(0) == all);
        FlatMap { items }
    }

    /// The next item, if one is still to come.
    pub fn next(&mut self) -> (item: Option<U>)
        ensures
            match item {
                Some(value) => old(self).remaining().len() > 0 && value == old(self).remaining()[0]
                    && final(self).remaining() == old(self).remaining().drop_first(),
                None => old(self).remaining().len() == 0 && final(self).remaining().len() == 0,
            },
    {
        let ghost before = self.items@;
        let item = self.items.pop();
        proof {
            if before.len() > 0 {
                assert(self.items@.reverse() =~= before.reverse().drop_first());
            }
        }
        item
    }
}

/// Maps each item to a list and gives the items of the lists one after the
/// other.
pub fn flat_map<T, U, F: Fn(T) -> Vec<U>>(iter: Vec<T>, f: F) -> (flat: FlatMap<U>)
    requires
        forall|i: int| 0 <= i < iter@.len() ==> call_requires(f, (#[trigger] iter@[i],)),
    ensures
        exists|lists: Seq<Vec<U>>|
            lists.len() == iter@.len() && (forall|i: int|
                0 <= i < iter@.len() ==> call_ensures(f, (iter@[i],), #[trigger] lists[i]))
                && flat.remaining() == concatenated(lists),
{
    let mut source = FlatMap::new(iter);
    let mut result: Vec<U> = Vec::new();
    let ghost mut lists: Seq<Vec<U>> = Seq::empty();
    let ghost all = iter@;
    assert(all.skip(0) == all);
    loop
        invariant
            all == iter@,
            lists.len() + source.remaining().len() == all.len(),
            source.remaining() == all.skip(lists.len() as int),
            forall|i: int| 0 <= i < all.len() ==> call_requires(f, (#[trigger] all[i],)),
            forall|i: int| 0 <= i < lists.len() ==> call_ensures(f, (all[i],), #[trigger] lists[i]),
            result@ == concatenated(lists),
        decreases source.remaining().len(),
    {
        let ghost done = lists.len() as int;
        match source.next() {
            Some(item) => {
                assert(item == all[done]);
                let mut mapped = f(item);
                proof {
                    let grown = lists.push(mapped);
                    assert(grown.drop_last() =~= lists);
                    assert(grown.last() == mapped);
                    assert(source.remaining() =~= all.skip(done + 1));
                    lists = grown;
                }
                result.append(&mut mapped);
            },
            None => {
                let flat = FlatMap::new(result);
                assert(lists.len() == iter@.len() && (forall|i: int|
                    0 <= i < iter@.len() ==> call_ensures(f, (iter@[i],), #[trigger] lists[i]))
                    && flat.remaining() == concatenated(lists));
                return flat;
            },
        }
    }
}

} // verus!
