//! Sorting a list by insertion.

use vstd::prelude::*;
use vstd::seq_lib::to_multiset_build;
use vstd::seq_lib::to_multiset_insert;

verus! {

/// Whether the relation is a strict order: nothing comes before what comes
/// before it, and what comes before a thing comes before all that the
/// thing comes before.
pub open spec fn strict_order<T>(precedes: spec_fn(T, T) -> bool) -> bool {
    &&& forall|a: T, b: T| #[trigger] precedes(a, b) ==> !precedes(b, a)
    &&& forall|a: T, b: T, c: T| #[trigger] precedes(a, b) && #[trigger] precedes(b, c) ==> precedes(a, c)
}

/// Whether no item of the list comes before an item that stands before it.
pub open spec fn sorted_under<T>(list: Seq<T>, precedes: spec_fn(T, T) -> bool) -> bool {
    forall|i: int, j: int| 0 <= i < j < list.len() ==> !precedes(#[trigger] list[j], #[trigger] list[i])
}

/// The list of what `view` makes of each item.
pub open spec fn mapped<T, V>(list: Seq<T>, view: spec_fn(T) -> V) -> Seq<V> {
    Seq::new(list.len(), |i: int| view(list[i]))
}

/// The list in reverse order.
pub fn reversed<T>(items: Vec<T>) -> (turned: Vec<T>)
    ensures
        turned@ == items@.reverse(),
{
    let mut items = items;
    let mut turned: Vec<T> = Vec::new();
    let ghost all = items@;
    while items.len() > 0
        invariant
            items@.len() <= all.len(),
            items@ == all.take(items@.len() as int),
            turned@ == all.skip(items@.len() as int).reverse(),
        decreases items.len(),
    {
        let ghost n = items@.len() as int;
        let ghost before = turned@;
        let item = items.pop().unwrap();
        turned.push(item);
        proof {
            assert(items@ =~= all.take(n - 1));
            assert(turned@ =~= all.skip(n - 1).reverse());
        }
    }
    assert(all.skip(0) == all);
    turned
}

/// The items in an order in which none comes before an item that stands
/// before it. `before` decides the strict order `precedes`; seen through
/// `view`, the sorted list holds what the given list holds, each as often.
pub(crate) fn sorted_by_insertion<T, V, F: Fn(&T, &T) -> bool>(
    items: Vec<T>,
    before: F,
    Ghost(precedes): Ghost<spec_fn(T, T) -> bool>,
    Ghost(view): Ghost<spec_fn(T) -> V>,
) -> (sorted: Vec<T>)
    requires
        strict_order(precedes),
        forall|a: &T, b: &T| call_requires(before, (a, b)),
        forall|a: &T, b: &T, r: bool| call_ensures(before, (a, b), r) ==> r == precedes(*a, *b),
    ensures
        sorted_under(sorted@, precedes),
        sorted@.len() == items@.len(),
        mapped(sorted@, view).to_multiset() == mapped(items@, view).to_multiset(),
{
    let ghost all = items@;
    let mut pending = reversed(items);
    let mut sorted: Vec<T> = Vec::new();
    proof {
        broadcast use vstd::seq_lib::group_to_multiset_ensures;

        mapped(all, view).lemma_reverse_to_multiset();
        assert(mapped(pending@, view) =~= mapped(all, view).reverse());
        assert(mapped(sorted@, view) =~= Seq::<V>::empty());
        assert(mapped(sorted@, view).to_multiset() =~= vstd::multiset::Multiset::<V>::empty());
        assert(mapped(sorted@, view).to_multiset().add(mapped(pending@, view).to_multiset())
            =~= mapped(all, view).to_multiset());
    }
    while pending.len() > 0
        invariant
            strict_order(precedes),
            forall|a: &T, b: &T| call_requires(before, (a, b)),
            forall|a: &T, b: &T, r: bool| call_ensures(before, (a, b), r) ==> r == precedes(*a, *b),
            sorted_under(sorted@, precedes),
            sorted@.len() + pending@.len() == all.len(),
            mapped(sorted@, view).to_multiset().add(mapped(pending@, view).to_multiset()) == mapped(
                all,
                view,
            ).to_multiset(),
        decreases pending.len(),
    {
        let ghost waiting = pending@;
        let ghost placed = sorted@;
        let item = pending.pop().unwrap();
        let mut at: usize = 0;
        while at < sorted.len() && !before(&item, &sorted[at])
            invariant
                at <= sorted.len(),
                sorted@ == placed,
                forall|a: &T, b: &T| call_requires(before, (a, b)),
                forall|a: &T, b: &T, r: bool|
                    call_ensures(before, (a, b), r) ==> r == precedes(*a, *b),
                forall|i: int| 0 <= i < at ==> !precedes(item, #[trigger] placed[i]),
            decreases sorted.len() - at,
        {
            at = at + 1;
        }
        sorted.insert(at, item);
        proof {
            let grown = sorted@;
            assert(grown == placed.insert(at as int, item));
            assert forall|i: int, j: int| 0 <= i < j < grown.len() implies !precedes(
                #[trigger] grown[j],
                #[trigger] grown[i],
            ) by {
                if j < at {
                    assert(grown[i] == placed[i] && grown[j] == placed[j]);
                } else if j == at {
                    assert(grown[i] == placed[i]);
                } else if i == at {
                    assert(grown[j] == placed[j - 1]);
                    assert(precedes(item, placed[at as int]));
                    if j - 1 > at {
                        assert(!precedes(placed[j - 1], placed[at as int]));
                    }
                } else if i < at {
                    assert(grown[i] == placed[i] && grown[j] == placed[j - 1]);
                } else {
                    assert(grown[i] == placed[i - 1] && grown[j] == placed[j - 1]);
                }
            }
            assert(mapped(grown, view) =~= mapped(placed, view).insert(at as int, view(item)));
            to_multiset_insert(mapped(placed, view), at as int, view(item));
            assert(mapped(waiting, view) =~= mapped(pending@, view).push(view(item)));
            to_multiset_build(mapped(pending@, view), view(item));
            assert(mapped(sorted@, view).to_multiset().add(mapped(pending@, view).to_multiset())
                =~= mapped(placed, view).to_multiset().add(mapped(waiting, view).to_multiset()));
        }
    }
    proof {
        broadcast use vstd::seq_lib::group_to_multiset_ensures;

        assert(mapped(pending@, view) =~= Seq::<V>::empty());
        assert(mapped(pending@, view).to_multiset() =~= vstd::multiset::Multiset::<V>::empty());
        assert(mapped(sorted@, view).to_multiset().add(mapped(pending@, view).to_multiset())
            =~= mapped(sorted@, view).to_multiset());
    }
    sorted
}

} // verus!
