//! Saturating addition on `i32`.

use vstd::prelude::*;

verus! {

/// The sum of two integers, clamped to the range of `i32`.
pub open spec fn clamped_sum(x: int, y: int) -> int {
    if x + y > i32::MAX {
        i32::MAX as int
    } else if x + y < i32::MIN {
        i32::MIN as int
    } else {
        x + y
    }
}

/// Adds two numbers; a sum beyond either end of `i32` gives that end.
pub fn add(x: i32, y: i32) -> (sum: i32)
    ensures
        sum == clamped_sum(x as int, y as int),
{
    if x > 0 && y > i32::MAX - x {
        i32::MAX
    } else if x < 0 && y < i32::MIN - x {
        i32::MIN
    } else {
        x + y
    }
}

} // verus!
