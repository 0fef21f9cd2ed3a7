//! Correct bracket sequences over `()`, `[]` and `{}`.

use vstd::prelude::*;

verus! {

/// The opening bracket that a closing bracket answers.
pub open spec fn opener_of(c: char) -> Option<char> {
    if c == ')' {
        Some('(')
    } else if c == ']' {
        Some('[')
    } else if c == '}' {
        Some('{')
    } else {
        None
    }
}

/// Whether `rest` closes, in order, everything that `open` holds (the
/// innermost last) and what it opens itself. A character that closes
/// nothing counts as opening.
pub open spec fn closes_all(rest: Seq<char>, open: Seq<char>) -> bool
    decreases rest.len(),
{
    if rest.len() == 0 {
        open.len() == 0
    } else {
        match opener_of(rest[0]) {
            Some(opener) => open.len() > 0 && open.last() == opener && closes_all(
                rest.drop_first(),
                open.drop_last(),
            ),
            None => closes_all(rest.drop_first(), open.push(rest[0])),
        }
    }
}

/// A correct bracket sequence closes all that it opens, in order.
pub open spec fn correct_bracket_sequence(s: Seq<char>) -> bool {
    closes_all(s, Seq::empty())
}

/// A sequence that closes everything pending has as many characters left as
/// pending ones, plus an even number.
pub proof fn lemma_closing_length(rest: Seq<char>, open: Seq<char>)
    requires
        closes_all(rest, open),
    ensures
        rest.len() >= open.len(),
        (rest.len() - open.len()) % 2 == 0,
    decreases rest.len(),
{
    if rest.len() > 0 {
        match opener_of(rest[0]) {
            Some(opener) => lemma_closing_length(rest.drop_first(), open.drop_last()),
            None => lemma_closing_length(rest.drop_first(), open.push(rest[0])),
        }
    }
}

/// A correct bracket sequence has even length.
pub proof fn law_correct_sequence_is_even(s: Seq<char>)
    requires
        correct_bracket_sequence(s),
    ensures
        s.len() % 2 == 0,
{
    lemma_closing_length(s, Seq::empty());
}

/// A text that closes all of `open` does so on top of whatever stands
/// below: what follows it finds what was below.
pub proof fn lemma_closes_on_top(a: Seq<char>, b: Seq<char>, below: Seq<char>, open: Seq<char>)
    requires
        closes_all(a, open),
    ensures
        closes_all(a + b, below + open) == closes_all(b, below),
    decreases a.len(),
{
    if a.len() == 0 {
        assert(a + b =~= b);
        assert(below + open =~= below);
    } else {
        let rest = a.drop_first();
        assert((a + b)[0] == a[0]);
        assert((a + b).drop_first() =~= rest + b);
        match opener_of(a[0]) {
            Some(opener) => {
                assert((below + open).last() == open.last());
                assert((below + open).drop_last() =~= below + open.drop_last());
                lemma_closes_on_top(rest, b, below, open.drop_last());
            },
            None => {
                assert((below + open).push(a[0]) =~= below + open.push(a[0]));
                lemma_closes_on_top(rest, b, below, open.push(a[0]));
            },
        }
    }
}

/// The empty text is a correct bracket sequence, two correct sequences one
/// after the other make a correct sequence, and so does a correct sequence
/// between a bracket and the bracket that closes it.
pub proof fn law_correct_sequences_compose(a: Seq<char>, b: Seq<char>, closer: char)
    requires
        correct_bracket_sequence(a),
        correct_bracket_sequence(b),
        opener_of(closer) is Some,
    ensures
        correct_bracket_sequence(Seq::empty()),
        correct_bracket_sequence(a + b),
        correct_bracket_sequence(seq![opener_of(closer)->0] + a + seq![closer]),
{
    lemma_closes_on_top(a, b, Seq::empty(), Seq::empty());
    assert(Seq::<char>::empty() + Seq::<char>::empty() =~= Seq::<char>::empty());
    let opener = opener_of(closer)->0;
    let wrapped = seq![opener] + a + seq![closer];
    assert(opener_of(opener) is None);
    assert(wrapped[0] == opener);
    assert(wrapped.drop_first() =~= a + seq![closer]);
    assert(Seq::<char>::empty().push(opener) =~= seq![opener]);
    lemma_closes_on_top(a, seq![closer], seq![opener], Seq::empty());
    assert(seq![opener] + Seq::<char>::empty() =~= seq![opener]);
    let last = seq![closer];
    assert(last.drop_first() =~= Seq::<char>::empty());
    assert(seq![opener].drop_last() =~= Seq::<char>::empty());
    assert(last[0] == closer);
    assert(seq![opener].last() == opener);
    assert(closes_all(Seq::<char>::empty(), Seq::<char>::empty()));
    assert(closes_all(last.drop_first(), seq![opener].drop_last()));
    assert(closes_all(last, seq![opener]));
}

fn opener(c: char) -> (o: Option<char>)
    ensures
        o == opener_of(c),
{
    if c == ')' {
        Some('(')
    } else if c == ']' {
        Some('[')
    } else if c == '}' {
        Some('{')
    } else {
        None
    }
}

/// Whether the text is a correct bracket sequence.
pub fn is_correct_bracket_sequence(s: &str) -> (correct: bool)
    ensures
        correct == correct_bracket_sequence(s@),
{
    let mut stack: Vec<char> = Vec::new();
    assert(s@.skip(0) == s@);
    for c in it: s.chars()
        invariant
            it.seq() == s@,
            it.index() <= s@.len(),
            correct_bracket_sequence(s@) == closes_all(s@.skip(it.index() as int), stack@),
    {
        let ghost rest = s@.skip(it.index() as int);
        assert(rest.len() > 0 && rest[0] == c);
        assert(rest.drop_first() == s@.skip(it.index() + 1));
        match opener(c) {
            Some(expected) => {
                if stack.len() > 0 && stack[stack.len() - 1] == expected {
                    stack.pop();
                } else {
                    return false;
                }
            },
            None => {
                stack.push(c);
            },
        }
    }
    stack.len() == 0
}

} // verus!
