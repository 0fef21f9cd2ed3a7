//! The first prime numbers.

use vstd::prelude::*;
use vstd::arithmetic::div_mod::lemma_fundamental_div_mod;
use vstd::arithmetic::div_mod::lemma_mod_multiples_basic;
use vstd::arithmetic::mul::lemma_mul_is_associative;
use vstd::arithmetic::mul::lemma_mul_is_commutative;

verus! {

/// Whether `d` divides `n`.
pub open spec fn divides(d: int, n: int) -> bool {
    d > 0 && n % d == 0
}

/// A prime is at least two and divisible by nothing between one and itself.
pub open spec fn is_prime(n: int) -> bool {
    n >= 2 && forall|d: int| 2 <= d < n ==> !#[trigger] divides(d, n)
}

/// What divides a divisor of a number divides the number.
pub proof fn lemma_divides_transitive(p: int, d: int, n: int)
    requires
        divides(p, d),
        divides(d, n),
    ensures
        divides(p, n),
{
    lemma_fundamental_div_mod(n, d);
    lemma_fundamental_div_mod(d, p);
    let a = n / d;
    let b = d / p;
    assert(n == d * a);
    assert(d == p * b);
    assert(n == (p * b) * a);
    lemma_mul_is_associative(p, b, a);
    lemma_mul_is_commutative(p, b * a);
    assert(n == (b * a) * p);
    lemma_mod_multiples_basic(b * a, p);
}

/// Every number from two on has a prime divisor.
pub proof fn lemma_has_prime_divisor(n: int) -> (p: int)
    requires
        n >= 2,
    ensures
        is_prime(p),
        p <= n,
        divides(p, n),
    decreases n,
{
    if is_prime(n) {
        assert(n % n == 0) by {
            lemma_mod_multiples_basic(1, n);
        }
        n
    } else {
        let d = choose|d: int| 2 <= d < n && #[trigger] divides(d, n);
        let p = lemma_has_prime_divisor(d);
        lemma_divides_transitive(p, d, n);
        p
    }
}

/// Whether the list holds, in ascending order, exactly the primes below
/// `bound`.
pub open spec fn primes_below(list: Seq<u32>, bound: int) -> bool {
    &&& forall|i: int| 0 <= i < list.len() ==> is_prime(#[trigger] list[i] as int) && list[i] < bound
    &&& forall|i: int, j: int| 0 <= i < j < list.len() ==> list[i] < list[j]
    &&& forall|p: int|
        is_prime(p) && p < bound ==> exists|i: int| 0 <= i < list.len() && #[trigger] list[i] == p
}

/// Whether the list holds the first primes, as many as it has items.
pub open spec fn first_primes(list: Seq<u32>) -> bool {
    if list.len() == 0 {
        true
    } else {
        primes_below(list, list.last() + 1)
    }
}

/// A number above one that no prime below it divides is prime.
proof fn lemma_prime_by_trial(list: Seq<u32>, cur: int)
    requires
        cur >= 2,
        primes_below(list, cur),
        forall|i: int| 0 <= i < list.len() ==> cur % (#[trigger] list[i] as int) != 0,
    ensures
        is_prime(cur),
{
    assert forall|d: int| 2 <= d < cur implies !#[trigger] divides(d, cur) by {
        if divides(d, cur) {
            let p = lemma_has_prime_divisor(d);
            lemma_divides_transitive(p, d, cur);
            let i = choose|i: int| 0 <= i < list.len() && #[trigger] list[i] == p;
            assert(cur % (list[i] as int) == 0);
        }
    }
}

/// Two is the least prime.
proof fn lemma_two_is_prime()
    ensures
        is_prime(2),
        forall|p: int| is_prime(p) ==> p >= 2,
{
}

/// The first `n` primes in ascending order; where fewer than `n` primes
/// fit in 32 bits, all that fit.
pub fn get_n_prime_numbers(n: u32) -> (ans: Vec<u32>)
    ensures
        ans@.len() <= n,
        first_primes(ans@),
        ans@.len() < n ==> primes_below(ans@, u32::MAX + 1),
{
    let mut ans: Vec<u32> = Vec::new();
    if n == 0 {
        return ans;
    }
    ans.push(2);
    proof {
        lemma_two_is_prime();
        assert(primes_below(ans@, 3)) by {
            assert forall|p: int| is_prime(p) && p < 3 implies exists|i: int|
                0 <= i < ans@.len() && #[trigger] ans@[i] == p by {
                assert(ans@[0] == 2);
            }
        }
    }
    let mut cur: u64 = 3;
    let mut k: u32 = 1;
    while k < n && cur <= 0xffff_ffff
        invariant
            1 <= k <= n,
            ans@.len() == k,
            3 <= cur <= 0xffff_ffff + 2,
            cur % 2 == 1,
            primes_below(ans@, cur as int),
            first_primes(ans@),
        decreases 0xffff_ffff + 2 - cur,
    {
        let mut is_prime_number = true;
        let mut i: usize = 0;
        while i < ans.len()
            invariant
                i <= ans.len(),
                3 <= cur <= 0xffff_ffff,
                primes_below(ans@, cur as int),
                is_prime_number ==> forall|j: int|
                    0 <= j < i ==> cur as int % (#[trigger] ans@[j] as int) != 0,
                !is_prime_number ==> exists|j: int|
                    0 <= j < ans@.len() && cur as int % (#[trigger] ans@[j] as int) == 0,
            decreases ans.len() - i,
        {
            let prime = ans[i];
            assert(is_prime(ans@[i as int] as int));
            if cur % (prime as u64) == 0 {
                is_prime_number = false;
            }
            i = i + 1;
        }
        let ghost before = ans@;
        if is_prime_number {
            proof {
                lemma_prime_by_trial(ans@, cur as int);
            }
            ans.push(cur as u32);
            k = k + 1;
            proof {
                let list = ans@;
                assert forall|a: int| 0 <= a < list.len() implies is_prime(
                    #[trigger] list[a] as int,
                ) && list[a] < cur + 1 by {
                    if a < before.len() {
                        assert(list[a] == before[a]);
                    }
                }
                assert forall|a: int, b: int| 0 <= a < b < list.len() implies list[a] < list[b] by {
                    assert(list[a] == before[a]);
                    if b < before.len() {
                        assert(list[b] == before[b]);
                    }
                }
                assert forall|p: int| is_prime(p) && p < cur + 1 implies exists|a: int|
                    0 <= a < list.len() && #[trigger] list[a] == p by {
                    if p < cur {
                        let a = choose|a: int| 0 <= a < before.len() && #[trigger] before[a] == p;
                        assert(list[a] == p);
                    } else {
                        assert(list[list.len() - 1] == p);
                    }
                }
                assert(primes_below(list, cur + 1));
            }
        } else {
            proof {
                let j = choose|j: int|
                    0 <= j < ans@.len() && cur as int % (#[trigger] ans@[j] as int) == 0;
                assert(is_prime(ans@[j] as int));
                assert(divides(ans@[j] as int, cur as int));
                assert(!is_prime(cur as int));
                assert(primes_below(ans@, cur + 1));
            }
        }
        proof {
            assert(primes_below(ans@, cur + 1));
            assert(divides(2, cur + 1));
            assert(!is_prime(cur + 1));
            assert(primes_below(ans@, cur + 2));
        }
        cur = cur + 2;
    }
    ans
}

} // verus!
