//! Numbers that read the same in both directions.

use vstd::prelude::*;

verus! {

/// The decimal digits of `n` written behind the digits of `acc`, the last
/// digit of `n` first: the reversal of `n` where `acc` is zero.
pub open spec fn reversed_onto(n: nat, acc: nat) -> nat
    decreases n,
{
    if n == 0 {
        acc
    } else {
        reversed_onto(n / 10, acc * 10 + n % 10)
    }
}

/// The number whose decimal digits are those of `n` in reverse order.
pub open spec fn reversed(n: nat) -> nat {
    reversed_onto(n, 0)
}

/// A palindrome is its own reversal.
pub open spec fn palindrome(n: nat) -> bool {
    reversed(n) == n
}

/// Ten to the power `k`.
pub open spec fn pow10(k: nat) -> nat
    decreases k,
{
    if k == 0 {
        1
    } else {
        10 * pow10((k - 1) as nat)
    }
}

/// Whether the decimal digits of the number read the same backwards.
pub fn is_palindrome(number: u64) -> (same: bool)
    ensures
        same == palindrome(number as nat),
{
    let mut tmp: u64 = number;
    let mut number_rev: u128 = 0;
    let ghost mut taken: nat = 0;
    while tmp > 0
        invariant
            reversed(number as nat) == reversed_onto(tmp as nat, number_rev as nat),
            number_rev < pow10(taken),
            tmp * pow10(taken) <= number,
        decreases tmp,
    {
        proof {
            assert(pow10(taken) <= number) by (nonlinear_arith)
                requires
                    tmp * pow10(taken) <= number,
                    tmp >= 1,
            ;
            assert((tmp / 10) * pow10(taken + 1) <= number) by (nonlinear_arith)
                requires
                    tmp * pow10(taken) <= number,
                    pow10(taken + 1) == 10 * pow10(taken),
            ;
            taken = taken + 1;
        }
        number_rev = number_rev * 10 + (tmp % 10) as u128;
        tmp = tmp / 10;
    }
    number as u128 == number_rev
}

/// The decimal digits of a number, the last digit first; zero has none.
pub open spec fn digits(n: nat) -> Seq<nat>
    decreases n,
{
    if n == 0 {
        Seq::empty()
    } else {
        seq![n % 10] + digits(n / 10)
    }
}

/// The number that a list of digits stands for, the last digit first.
pub open spec fn value(list: Seq<nat>) -> nat
    decreases list.len(),
{
    if list.len() == 0 {
        0
    } else {
        list[0] + 10 * value(list.drop_first())
    }
}

/// Whether every item of the list is a decimal digit.
pub open spec fn all_digits(list: Seq<nat>) -> bool {
    forall|i: int| 0 <= i < list.len() ==> #[trigger] list[i] < 10
}

/// The digits of a number are digits and stand for the number.
pub proof fn lemma_digits(n: nat)
    ensures
        all_digits(digits(n)),
        value(digits(n)) == n,
    decreases n,
{
    if n > 0 {
        lemma_digits(n / 10);
        let list = digits(n);
        assert(list.drop_first() =~= digits(n / 10));
        assert forall|i: int| 0 <= i < list.len() implies #[trigger] list[i] < 10 by {
            if i > 0 {
                assert(list[i] == digits(n / 10)[i - 1]);
            }
        }
    }
}

/// A digit put behind a list adds its value at the list's power of ten.
pub proof fn lemma_value_push(list: Seq<nat>, digit: nat)
    ensures
        value(list.push(digit)) == value(list) + digit * pow10(list.len()),
    decreases list.len(),
{
    let grown = list.push(digit);
    if list.len() == 0 {
        assert(grown.drop_first() =~= Seq::<nat>::empty());
        assert(grown[0] == digit);
        assert(value(grown) == digit + 10 * value(grown.drop_first()));
        assert(pow10(0) == 1);
        assert(digit * 1 == digit);
    } else {
        let rest = list.drop_first();
        lemma_value_push(rest, digit);
        assert(grown.drop_first() =~= rest.push(digit));
        assert(grown[0] == list[0]);
        assert(value(grown) == list[0] + 10 * value(rest.push(digit)));
        assert(value(list) == list[0] + 10 * value(rest));
        assert(pow10(list.len()) == 10 * pow10(rest.len()));
        assert(10 * (value(rest) + digit * pow10(rest.len())) == 10 * value(rest) + digit * (10
            * pow10(rest.len()))) by (nonlinear_arith);
    }
}

/// Reading the digits of `n` behind `acc` gives `acc` shifted by as many
/// places, plus the digits of `n` read backwards.
pub proof fn lemma_reversed_onto(n: nat, acc: nat)
    ensures
        reversed_onto(n, acc) == acc * pow10(digits(n).len()) + value(digits(n).reverse()),
    decreases n,
{
    if n == 0 {
        assert(digits(n).reverse() =~= Seq::<nat>::empty());
        assert(acc * 1 == acc);
    } else {
        let list = digits(n);
        let rest = digits(n / 10);
        lemma_reversed_onto(n / 10, acc * 10 + n % 10);
        assert(list.drop_first() =~= rest);
        assert(list.reverse() =~= rest.reverse().push(n % 10));
        lemma_value_push(rest.reverse(), n % 10);
        assert(pow10(list.len()) == 10 * pow10(rest.len()));
        assert((acc * 10 + n % 10) * pow10(rest.len()) == acc * (10 * pow10(rest.len())) + (n % 10)
            * pow10(rest.len())) by (nonlinear_arith);
    }
}

/// Two lists of digits of one length that stand for one number are equal.
pub proof fn lemma_value_injective(a: Seq<nat>, b: Seq<nat>)
    requires
        a.len() == b.len(),
        all_digits(a),
        all_digits(b),
        value(a) == value(b),
    ensures
        a == b,
    decreases a.len(),
{
    if a.len() > 0 {
        let x = a.drop_first();
        let y = b.drop_first();
        assert(a[0] < 10 && b[0] < 10);
        assert(a[0] == b[0] && value(x) == value(y)) by {
            assert(value(a) == a[0] + 10 * value(x));
            assert(value(b) == b[0] + 10 * value(y));
        }
        assert forall|i: int| 0 <= i < x.len() implies #[trigger] x[i] < 10 by {
            assert(x[i] == a[i + 1]);
        }
        assert forall|i: int| 0 <= i < y.len() implies #[trigger] y[i] < 10 by {
            assert(y[i] == b[i + 1]);
        }
        lemma_value_injective(x, y);
        assert(a =~= seq![a[0]] + x);
        assert(b =~= seq![b[0]] + y);
    } else {
        assert(a =~= b);
    }
}

/// A number is a palindrome exactly when its decimal digits are the same
/// read forwards and backwards.
pub proof fn law_palindrome_reads_both_ways(n: nat)
    ensures
        palindrome(n) <==> digits(n) == digits(n).reverse(),
{
    lemma_digits(n);
    lemma_reversed_onto(n, 0);
    let list = digits(n);
    assert(reversed(n) == value(list.reverse())) by {
        assert(0 * pow10(list.len()) == 0);
    }
    assert forall|i: int| 0 <= i < list.reverse().len() implies #[trigger] list.reverse()[i]
        < 10 by {
        assert(list.reverse()[i] == list[list.len() - 1 - i]);
    }
    if palindrome(n) {
        lemma_value_injective(list.reverse(), list);
    }
}

} // verus!
