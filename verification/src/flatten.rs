//! Gathering the mutable borrows of a list of arrays into one list.

use vstd::prelude::*;
use crate::sorting::reversed;

verus! {

/// The items of the arrays, one array after the other.
pub open spec fn flattened<'a, const N: usize>(data: Seq<Box<[&'a mut i32; N]>>) -> Seq<&'a mut i32>
    decreases data.len(),
{
    if data.len() == 0 {
        Seq::empty()
    } else {
        flattened(data.drop_last()) + data.last()@
    }
}

/// Trusted: turning a boxed array into a vector (`Vec::from`) keeps the
/// items and their order.
#[verifier::external_body]
fn array_items<'a, const N: usize>(array: Box<[&'a mut i32; N]>) -> (items: Vec<&'a mut i32>)
    ensures
        items@ == array@,
{
    Vec::from(*array)
}

/// The borrows of all the arrays, in order.
pub fn flatten<'a, const N: usize>(data: Vec<Box<[&'a mut i32; N]>>) -> (res: Vec<&'a mut i32>)
    ensures
        res@ == flattened(data@),
{
    let ghost all = data@;
    let mut pending = reversed(data);
    let mut res: Vec<&'a mut i32> = Vec::new();
    let ghost mut done: int = 0;
    assert(all.take(0) =~= Seq::<Box<[&'a mut i32; N]>>::empty());
    while pending.len() > 0
        invariant
            0 <= done <= all.len(),
            pending@ == all.skip(done).reverse(),
            res@ == flattened(all.take(done)),
        decreases pending.len(),
    {
        let ghost waiting = pending@;
        let array = pending.pop().unwrap();
        proof {
            assert(waiting.len() == all.len() - done);
            assert(array == all[done]);
            assert(pending@ =~= all.skip(done + 1).reverse());
            assert(all.take(done + 1).drop_last() =~= all.take(done));
            assert(all.take(done + 1).last() == array);
        }
        let mut items = array_items(array);
        res.append(&mut items);
        proof {
            done = done + 1;
        }
    }
    assert(all.take(all.len() as int) == all);
    res
}

} // verus!
