//! Comparing two lists by their element of a given rank.

use vstd::prelude::*;
use vstd::relations::sorted_by;
use vstd::relations::total_ordering;
use vstd::seq_lib::lemma_sorted_unique;
use crate::sorting::mapped;
use crate::sorting::sorted_by_insertion;

verus! {

/// The order of the integers.
pub open spec fn at_most() -> spec_fn(i32, i32) -> bool {
    |a: i32, b: i32| a <= b
}

/// The element of rank `k` of a list: the element at position `k` once the
/// list is put in ascending order.
pub open spec fn ranked(items: Seq<i32>, k: int) -> i32 {
    items.sort_by(at_most())[k]
}

/// A list in ascending order with the same elements.
fn sorted_copy(items: &Vec<i32>) -> (sorted: Vec<i32>)
    ensures
        sorted@ == items@.sort_by(at_most()),
{
    let mut copy: Vec<i32> = Vec::new();
    let mut i: usize = 0;
    while i < items.len()
        invariant
            i <= items.len(),
            copy@ == items@.take(i as int),
        decreases items.len() - i,
    {
        copy.push(items[i]);
        assert(copy@ =~= items@.take(i + 1));
        i = i + 1;
    }
    assert(items@.take(items@.len() as int) == items@);
    let ghost less = |a: i32, b: i32| a < b;
    let ghost same = |a: i32| a;
    let before = |a: &i32, b: &i32| -> (r: bool)
        ensures
            r == (*a < *b),
        { *a < *b };
    let sorted = sorted_by_insertion::<i32, i32, _>(copy, before, Ghost(less), Ghost(same));
    proof {
        assert(mapped(sorted@, same) =~= sorted@);
        assert(mapped(copy@, same) =~= copy@);
        assert(sorted_by(sorted@, at_most())) by {
            assert forall|i: int, j: int| 0 <= i < j < sorted@.len() implies #[trigger] at_most()(
                sorted@[i],
                sorted@[j],
            ) by {
                assert(!less(sorted@[j], sorted@[i]));
            }
        }
        assert(total_ordering(at_most()));
        items@.lemma_sort_by_ensures(at_most());
        lemma_sorted_unique(sorted@, items@.sort_by(at_most()), at_most());
    }
    sorted
}

/// Of two lists, the one whose element of rank `k` is greater; the first
/// where the two are equal. Both lists must have an element of that rank.
pub fn where_k_th_ordinal_element_greater<'a>(lhs: &'a Vec<i32>, rhs: &'a Vec<i32>, k: usize) -> (chosen:
    &'a Vec<i32>)
    requires
        k < lhs@.len(),
        k < rhs@.len(),
    ensures
        chosen == if ranked(lhs@, k as int) >= ranked(rhs@, k as int) {
            lhs
        } else {
            rhs
        },
{
    let l = sorted_copy(lhs);
    let r = sorted_copy(rhs);
    proof {
        assert(total_ordering(at_most()));
        lhs@.lemma_sort_by_ensures(at_most());
        rhs@.lemma_sort_by_ensures(at_most());
        lhs@.to_multiset_ensures();
        rhs@.to_multiset_ensures();
        l@.to_multiset_ensures();
        r@.to_multiset_ensures();
    }
    if l[k] >= r[k] {
        lhs
    } else {
        rhs
    }
}

/// As above, where both lists have an element of rank `k`; nothing where
/// one has not.
pub fn checked_where_k_th_ordinal_element_greater<'a>(
    lhs: &'a Vec<i32>,
    rhs: &'a Vec<i32>,
    k: usize,
) -> (chosen: Option<&'a Vec<i32>>)
    ensures
        chosen is Some <==> k < lhs@.len() && k < rhs@.len(),
        chosen is Some ==> chosen->0 == if ranked(lhs@, k as int) >= ranked(rhs@, k as int) {
            lhs
        } else {
            rhs
        },
{
    if k < lhs.len() && k < rhs.len() {
        Some(where_k_th_ordinal_element_greater(lhs, rhs, k))
    } else {
        None
    }
}

} // verus!
