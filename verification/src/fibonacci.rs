//! Fibonacci numbers.

use vstd::prelude::*;

verus! {

/// The Fibonacci numbers: 0, 1, and from there on the sum of the two before.
pub open spec fn fib(n: nat) -> nat
    decreases n,
{
    if n == 0 {
        0
    } else if n == 1 {
        1
    } else {
        fib((n - 2) as nat) + fib((n - 1) as nat)
    }
}

/// The Fibonacci numbers never fall.
pub proof fn lemma_fib_monotonic(i: nat, j: nat)
    requires
        i <= j,
    ensures
        fib(i) <= fib(j),
    decreases j - i,
{
    if j < 2 {
    } else if i == j {
    } else if i == j - 1 {
    } else {
        lemma_fib_monotonic(i, (j - 1) as nat);
        lemma_fib_monotonic(i, (j - 2) as nat);
    }
}

/// The Fibonacci numbers up to the 47th fit in 32 bits; the 48th does not.
pub proof fn lemma_fib_fits_u32(n: nat)
    ensures
        n <= 47 <==> fib(n) <= u32::MAX,
{
    assert(fib(0) == 0);
    assert(fib(1) == 1);
    assert(fib(2) == 1);
    assert(fib(3) == 2);
    assert(fib(4) == 3);
    assert(fib(5) == 5);
    assert(fib(6) == 8);
    assert(fib(7) == 13);
    assert(fib(8) == 21);
    assert(fib(9) == 34);
    assert(fib(10) == 55);
    assert(fib(11) == 89);
    assert(fib(12) == 144);
    assert(fib(13) == 233);
    assert(fib(14) == 377);
    assert(fib(15) == 610);
    assert(fib(16) == 987);
    assert(fib(17) == 1597);
    assert(fib(18) == 2584);
    assert(fib(19) == 4181);
    assert(fib(20) == 6765);
    assert(fib(21) == 10946);
    assert(fib(22) == 17711);
    assert(fib(23) == 28657);
    assert(fib(24) == 46368);
    assert(fib(25) == 75025);
    assert(fib(26) == 121393);
    assert(fib(27) == 196418);
    assert(fib(28) == 317811);
    assert(fib(29) == 514229);
    assert(fib(30) == 832040);
    assert(fib(31) == 1346269);
    assert(fib(32) == 2178309);
    assert(fib(33) == 3524578);
    assert(fib(34) == 5702887);
    assert(fib(35) == 9227465);
    assert(fib(36) == 14930352);
    assert(fib(37) == 24157817);
    assert(fib(38) == 39088169);
    assert(fib(39) == 63245986);
    assert(fib(40) == 102334155);
    assert(fib(41) == 165580141);
    assert(fib(42) == 267914296);
    assert(fib(43) == 433494437);
    assert(fib(44) == 701408733);
    assert(fib(45) == 1134903170);
    assert(fib(46) == 1836311903);
    assert(fib(47) == 2971215073);
    assert(fib(48) == fib(46) + fib(47));
    if n <= 47 {
        lemma_fib_monotonic(n, 47);
    } else {
        lemma_fib_monotonic(48, n);
    }
}

/// The `n`-th Fibonacci number, for an `n` whose Fibonacci number fits in 32
/// bits (that is, up to 47).
pub fn get_nth_fibonacci(n: u32) -> (f: u32)
    requires
        fib(n as nat) <= u32::MAX,
    ensures
        f == fib(n as nat),
{
    let mut f0: u32 = 0;
    let mut f1: u32 = 1;
    if n == 0 {
        return f0;
    } else if n == 1 {
        return f1;
    }
    let mut i: u32 = 1;
    while i < n
        invariant
            1 <= i <= n,
            f0 == fib((i - 1) as nat),
            f1 == fib(i as nat),
            fib(n as nat) <= u32::MAX,
        decreases n - i,
    {
        proof {
            lemma_fib_monotonic((i + 1) as nat, n as nat);
        }
        let f2 = f0 + f1;
        f0 = f1;
        f1 = f2;
        i = i + 1;
    }
    f1
}

/// The `n`-th Fibonacci number where it fits in 32 bits, and nothing where
/// it does not.
pub fn checked_nth_fibonacci(n: u32) -> (f: Option<u32>)
    ensures
        f is Some <==> fib(n as nat) <= u32::MAX,
        f is Some ==> f->0 == fib(n as nat),
{
    proof {
        lemma_fib_fits_u32(n as nat);
    }
    if n <= 47 {
        Some(get_nth_fibonacci(n))
    } else {
        None
    }
}

} // verus!
