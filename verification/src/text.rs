//! Searching and replacing in texts, and writing numbers out, stated over
//! sequences of characters.

use vstd::prelude::*;

verus! {

/// Whether `needle` occurs in `haystack` at position `at`.
pub open spec fn occurs_at(haystack: Seq<char>, needle: Seq<char>, at: int) -> bool {
    0 <= at && at + needle.len() <= haystack.len() && haystack.subrange(
        at,
        at + needle.len(),
    ) == needle
}

/// Whether `needle` occurs in `haystack`.
pub open spec fn occurs_in(haystack: Seq<char>, needle: Seq<char>) -> bool {
    exists|at: int| occurs_at(haystack, needle, at)
}

/// `text` with every occurrence of `from` replaced by `to`, the occurrences
/// taken from the left and without overlap. `from` is not empty.
pub open spec fn replaced(text: Seq<char>, from: Seq<char>, to: Seq<char>) -> Seq<char>
    decreases text.len(),
{
    if from.len() == 0 || text.len() < from.len() {
        text
    } else if occurs_at(text, from, 0) {
        to + replaced(text.skip(from.len() as int), from, to)
    } else {
        seq![text[0]] + replaced(text.drop_first(), from, to)
    }
}

/// The character of a decimal digit.
pub open spec fn digit_char(digit: nat) -> char {
    if digit == 0 {
        '0'
    } else if digit == 1 {
        '1'
    } else if digit == 2 {
        '2'
    } else if digit == 3 {
        '3'
    } else if digit == 4 {
        '4'
    } else if digit == 5 {
        '5'
    } else if digit == 6 {
        '6'
    } else if digit == 7 {
        '7'
    } else if digit == 8 {
        '8'
    } else {
        '9'
    }
}

/// The decimal numeral of a number, without leading zeros.
pub open spec fn decimal(n: nat) -> Seq<char>
    decreases n,
{
    if n < 10 {
        seq![digit_char(n)]
    } else {
        decimal(n / 10).push(digit_char(n % 10))
    }
}

/// Trusted: `String::push` puts one character at the end.
#[verifier::external_body]
pub(crate) fn push_char(text: &mut String, c: char)
    ensures
        final(text)@ == old(text)@.push(c),
{
    text.push(c);
}

/// The characters of a text.
pub fn characters(text: &str) -> (list: Vec<char>)
    ensures
        list@ == text@,
{
    let mut list: Vec<char> = Vec::new();
    for c in it: text.chars()
        invariant
            it.seq() == text@,
            it.index() <= text@.len(),
            list@ == text@.take(it.index() as int),
    {
        list.push(c);
        assert(list@ =~= text@.take(it.index() + 1));
    }
    assert(text@.take(text@.len() as int) == text@);
    list
}

/// Whether `needle` occurs in `haystack` at position `at`.
pub fn matches_at(haystack: &Vec<char>, needle: &Vec<char>, at: usize) -> (found: bool)
    requires
        at + needle@.len() <= haystack@.len(),
    ensures
        found == occurs_at(haystack@, needle@, at as int),
{
    let m = needle.len();
    let mut j: usize = 0;
    while j < m
        invariant
            j <= m,
            m == needle.len(),
            at + m <= haystack.len(),
            forall|q: int| 0 <= q < j ==> haystack@[at + q] == needle@[q],
        decreases m - j,
    {
        if haystack[at + j] != needle[j] {
            assert(haystack@.subrange(at as int, at + m)[j as int] != needle@[j as int]);
            return false;
        }
        j = j + 1;
    }
    assert(haystack@.subrange(at as int, at + m) =~= needle@);
    true
}

/// Whether `needle` occurs in `haystack`.
pub fn text_contains(haystack: &str, needle: &str) -> (found: bool)
    ensures
        found == occurs_in(haystack@, needle@),
{
    let hay = characters(haystack);
    let pin = characters(needle);
    let n = hay.len();
    let m = pin.len();
    if m > n {
        assert forall|at: int| !occurs_at(haystack@, needle@, at) by {}
        return false;
    }
    let last = n - m;
    let mut at: usize = 0;
    loop
        invariant
            last + m == n,
            n == hay.len(),
            m == pin.len(),
            hay@ == haystack@,
            pin@ == needle@,
            at <= last,
            forall|i: int| 0 <= i < at ==> !occurs_at(haystack@, needle@, i),
        decreases last - at,
    {
        if matches_at(&hay, &pin, at) {
            return true;
        }
        if at == last {
            assert forall|i: int| !occurs_at(haystack@, needle@, i) by {
                if 0 <= i <= at {
                }
            }
            return false;
        }
        at = at + 1;
    }
}

/// `text` with every occurrence of `from` replaced by `to`, the occurrences
/// taken from the left and without overlap. `from` must not be empty.
pub fn text_replace(text: &str, from: &str, to: &str) -> (result: String)
    requires
        from@.len() > 0,
    ensures
        result@ == replaced(text@, from@, to@),
{
    let source = characters(text);
    let pattern = characters(from);
    let n = source.len();
    let m = pattern.len();
    let mut result = String::new();
    let mut i: usize = 0;
    assert(text@.skip(0) == text@);
    assert(result@ + replaced(text@, from@, to@) =~= replaced(text@, from@, to@));
    while i < n
        invariant
            i <= n,
            m > 0,
            n == source.len(),
            m == pattern.len(),
            source@ == text@,
            pattern@ == from@,
            replaced(text@, from@, to@) == result@ + replaced(text@.skip(i as int), from@, to@),
        decreases n - i,
    {
        let ghost rest = text@.skip(i as int);
        let ghost before = result@;
        if m <= n - i && matches_at(&source, &pattern, i) {
            proof {
                assert(rest.subrange(0, m as int) =~= text@.subrange(i as int, i + m));
                assert(occurs_at(rest, from@, 0));
                assert(rest.skip(m as int) =~= text@.skip(i + m));
            }
            result.append(to);
            i = i + m;
            assert(result@ + replaced(text@.skip(i as int), from@, to@) =~= before + (to@ + replaced(
                text@.skip(i as int),
                from@,
                to@,
            )));
        } else {
            proof {
                if m <= n - i {
                    assert(rest.subrange(0, m as int) =~= text@.subrange(i as int, i + m));
                    assert(!occurs_at(rest, from@, 0));
                }
                assert(rest.drop_first() =~= text@.skip(i + 1));
                assert(rest[0] == source@[i as int]);
                if rest.len() < m {
                    assert(replaced(rest.drop_first(), from@, to@) == rest.drop_first());
                    assert(rest =~= seq![rest[0]] + rest.drop_first());
                }
                assert(replaced(rest, from@, to@) == seq![rest[0]] + replaced(
                    rest.drop_first(),
                    from@,
                    to@,
                ));
            }
            push_char(&mut result, source[i]);
            i = i + 1;
            assert(result@ + replaced(text@.skip(i as int), from@, to@) =~= before + (seq![rest[0]]
                + replaced(text@.skip(i as int), from@, to@)));
        }
    }
    assert(text@.skip(n as int) =~= Seq::<char>::empty());
    assert(result@ + Seq::<char>::empty() =~= result@);
    result
}

/// The character of a decimal digit.
fn digit(d: usize) -> (c: char)
    requires
        d < 10,
    ensures
        c == digit_char(d as nat),
{
    if d == 0 {
        '0'
    } else if d == 1 {
        '1'
    } else if d == 2 {
        '2'
    } else if d == 3 {
        '3'
    } else if d == 4 {
        '4'
    } else if d == 5 {
        '5'
    } else if d == 6 {
        '6'
    } else if d == 7 {
        '7'
    } else if d == 8 {
        '8'
    } else {
        '9'
    }
}

/// The decimal numeral of a number.
pub fn decimal_text(n: usize) -> (numeral: String)
    ensures
        numeral@ == decimal(n as nat),
{
    let mut digits: Vec<char> = Vec::new();
    digits.push(digit(n % 10));
    let mut rest = n / 10;
    assert(digits@.reverse() =~= seq![digit_char((n % 10) as nat)]);
    assert(decimal((n / 10) as nat).push(digit_char((n % 10) as nat)) =~= decimal((n / 10) as nat)
        + seq![digit_char((n % 10) as nat)]);
    assert(Seq::<char>::empty() + digits@.reverse() =~= digits@.reverse());
    while rest > 0
        invariant
            decimal(n as nat) == (if rest > 0 {
                decimal(rest as nat)
            } else {
                Seq::<char>::empty()
            }) + digits@.reverse(),
        decreases rest,
    {
        let ghost before = digits@;
        let ghost d = digit_char((rest % 10) as nat);
        digits.push(digit(rest % 10));
        proof {
            assert(digits@.reverse() =~= seq![d] + before.reverse());
            if rest >= 10 {
                assert(decimal(rest as nat) =~= decimal((rest / 10) as nat) + seq![d]);
                assert(decimal((rest / 10) as nat) + digits@.reverse() =~= (decimal(
                    (rest / 10) as nat,
                ) + seq![d]) + before.reverse());
            } else {
                assert(decimal(rest as nat) =~= seq![d]);
                assert(Seq::<char>::empty() + digits@.reverse() =~= seq![d] + before.reverse());
            }
        }
        rest = rest / 10;
    }
    assert(Seq::<char>::empty() + digits@.reverse() =~= digits@.reverse());
    let mut numeral = String::new();
    let mut j: usize = digits.len();
    while j > 0
        invariant
            j <= digits.len(),
            numeral@ == digits@.reverse().take(digits@.len() - j),
        decreases j,
    {
        j = j - 1;
        push_char(&mut numeral, digits[j]);
        assert(numeral@ =~= digits@.reverse().take(digits@.len() - j));
    }
    assert(digits@.reverse().take(digits@.len() as int) == digits@.reverse());
    numeral
}

} // verus!
