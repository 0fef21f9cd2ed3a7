//! Splitting a text at a delimiter.

use vstd::prelude::*;
use vstd::string::StrSliceExecFns;
use crate::text::characters;
use crate::text::matches_at;
use crate::text::occurs_at;

verus! {

/// The position of the first occurrence of `delimiter` in `text`, or -1
/// where there is none.
pub open spec fn first_occurrence(text: Seq<char>, delimiter: Seq<char>) -> int
    decreases text.len(),
{
    if text.len() < delimiter.len() {
        -1
    } else if occurs_at(text, delimiter, 0) {
        0
    } else if text.len() == 0 {
        -1
    } else {
        let later = first_occurrence(text.drop_first(), delimiter);
        if later < 0 {
            -1
        } else {
            later + 1
        }
    }
}

/// The pieces of a text between the occurrences of a delimiter, the
/// occurrences taken from the left. With an empty delimiter, the pieces are
/// the characters of the text.
pub open spec fn pieces(text: Seq<char>, delimiter: Seq<char>) -> Seq<Seq<char>>
    decreases text.len(),
{
    if delimiter.len() == 0 {
        Seq::new(text.len(), |i: int| seq![text[i]])
    } else {
        let at = first_occurrence(text, delimiter);
        if at < 0 || at + delimiter.len() > text.len() {
            seq![text]
        } else {
            seq![text.take(at)] + pieces(text.skip(at + delimiter.len()), delimiter)
        }
    }
}

/// The first occurrence is an occurrence, and the first.
pub proof fn lemma_first_occurrence(text: Seq<char>, delimiter: Seq<char>)
    ensures
        first_occurrence(text, delimiter) >= 0 ==> occurs_at(
            text,
            delimiter,
            first_occurrence(text, delimiter),
        ),
        forall|i: int|
            0 <= i && (i < first_occurrence(text, delimiter) || first_occurrence(text, delimiter) < 0)
                ==> !occurs_at(text, delimiter, i),
    decreases text.len(),
{
    if text.len() < delimiter.len() {
    } else if occurs_at(text, delimiter, 0) {
    } else if text.len() == 0 {
    } else {
        let rest = text.drop_first();
        lemma_first_occurrence(rest, delimiter);
        let later = first_occurrence(rest, delimiter);
        assert forall|i: int| 1 <= i implies occurs_at(text, delimiter, i) == occurs_at(
            rest,
            delimiter,
            i - 1,
        ) by {
            if i + delimiter.len() <= text.len() {
                assert(text.subrange(i, i + delimiter.len()) =~= rest.subrange(
                    i - 1,
                    i - 1 + delimiter.len(),
                ));
            }
        }
        if later >= 0 {
            assert(occurs_at(text, delimiter, later + 1));
        }
        assert forall|i: int|
            0 <= i && (i < first_occurrence(text, delimiter) || first_occurrence(text, delimiter)
                < 0) implies !occurs_at(text, delimiter, i) by {
            if i >= 1 {
                assert(!occurs_at(rest, delimiter, i - 1));
            }
        }
    }
}

/// A position with an occurrence and none before it is the first
/// occurrence; where no position has one, there is none.
pub proof fn lemma_first_occurrence_is(text: Seq<char>, delimiter: Seq<char>, at: int)
    requires
        forall|i: int| 0 <= i < at ==> !occurs_at(text, delimiter, i),
        occurs_at(text, delimiter, at) || at + delimiter.len() > text.len(),
    ensures
        first_occurrence(text, delimiter) == if occurs_at(text, delimiter, at) {
            at
        } else {
            -1
        },
{
    lemma_first_occurrence(text, delimiter);
    let found = first_occurrence(text, delimiter);
    if occurs_at(text, delimiter, at) {
        if found < 0 || found > at {
            assert(!occurs_at(text, delimiter, at));
        }
    } else {
        if found >= 0 {
            assert(occurs_at(text, delimiter, found));
            assert(found + delimiter.len() <= text.len());
            assert(found < at);
        }
    }
}

/// A text that is being split: the pieces come out one by one.
#[derive(Debug)]
pub struct SplitString<'input, 'delimiter> {
    remainder: &'input str,
    delimiter: &'delimiter str,
    characters: Vec<char>,
    delimiter_characters: Vec<char>,
    last_index: usize,
    is_end: bool,
}

impl<'input, 'delimiter> SplitString<'input, 'delimiter> {
    /// The fields agree with each other.
    pub closed spec fn wf(&self) -> bool {
        &&& self.characters@ == self.remainder@
        &&& self.delimiter_characters@ == self.delimiter@
        &&& self.last_index <= self.remainder@.len()
    }

    /// The part of the text that has not come out yet.
    pub closed spec fn rest(&self) -> Seq<char> {
        self.remainder@.skip(self.last_index as int)
    }

    /// The delimiter.
    pub closed spec fn delimiter(&self) -> Seq<char> {
        self.delimiter@
    }

    /// Whether the last piece has come out.
    pub closed spec fn finished(&self) -> bool {
        if self.delimiter@.len() == 0 {
            self.last_index >= self.remainder@.len()
        } else {
            self.is_end
        }
    }

    /// The pieces that are still to come.
    pub open spec fn remaining(&self) -> Seq<Seq<char>> {
        if self.finished() {
            Seq::empty()
        } else {
            pieces(self.rest(), self.delimiter())
        }
    }

    /// A text to be split at a delimiter.
    pub fn new(input: &'input str, delimiter: &'delimiter str) -> (splitter: Self)
        ensures
            splitter.wf(),
            splitter.delimiter() == delimiter@,
            splitter.remaining() == pieces(input@, delimiter@),
    {
        let splitter = SplitString {
            remainder: input,
            delimiter,
            characters: characters(input),
            delimiter_characters: characters(delimiter),
            last_index: 0,
            is_end: false,
        };
        proof {
            assert(input@.skip(0) == input@);
            if delimiter@.len() == 0 && input@.len() == 0 {
                assert(pieces(input@, delimiter@) =~= Seq::<Seq<char>>::empty());
            }
        }
        splitter
    }

    /// Whether the delimiter stands at position `at` of the text.
    fn delimiter_at(&self, at: usize) -> (found: bool)
        requires
            self.wf(),
            at + self.delimiter@.len() <= self.remainder@.len(),
        ensures
            found == occurs_at(self.remainder@, self.delimiter@, at as int),
    {
        matches_at(&self.characters, &self.delimiter_characters, at)
    }

    /// The next piece, if one is still to come.
    pub fn next(&mut self) -> (piece: Option<&'input str>)
        requires
            old(self).wf(),
        ensures
            final(self).wf(),
            final(self).delimiter() == old(self).delimiter(),
            match piece {
                Some(text) => old(self).remaining().len() > 0 && text@ == old(self).remaining()[0]
                    && final(self).remaining() == old(self).remaining().drop_first(),
                None => old(self).remaining().len() == 0 && final(self).remaining().len() == 0,
            },
    {
        let n = self.characters.len();
        let m = self.delimiter_characters.len();
        let ghost rest = self.rest();
        if m == 0 {
            if self.last_index >= n {
                return None;
            }
            let start = self.last_index;
            self.last_index = start + 1;
            let piece = self.remainder.substring_char(start, start + 1);
            proof {
                let after = self.rest();
                assert(piece@ =~= seq![rest[0]]);
                assert(after =~= rest.skip(1));
                assert(pieces(rest, self.delimiter@)[0] == seq![rest[0]]);
                assert(pieces(after, self.delimiter@) =~= pieces(rest, self.delimiter@).drop_first());
                if self.last_index >= n {
                    assert(pieces(rest, self.delimiter@).drop_first() =~= Seq::<Seq<char>>::empty());
                }
            }
            return Some(piece);
        }
        if self.is_end {
            return None;
        }
        let start = self.last_index;
        let mut at: usize = start;
        while m <= n - at && !self.delimiter_at(at)
            invariant
                start <= at <= n,
                *self == *old(self),
                self.wf(),
                n == self.remainder@.len(),
                m == self.delimiter@.len(),
                m > 0,
                start == self.last_index,
                forall|i: int| start <= i < at ==> !occurs_at(self.remainder@, self.delimiter@, i),
            decreases n - at,
        {
            at = at + 1;
        }
        proof {
            assert forall|i: int| 0 <= i implies occurs_at(rest, self.delimiter@, i) == occurs_at(
                self.remainder@,
                self.delimiter@,
                start + i,
            ) by {
                if i + m <= rest.len() {
                    assert(rest.subrange(i, i + m) =~= self.remainder@.subrange(
                        start + i,
                        start + i + m,
                    ));
                }
            }
            assert forall|i: int| 0 <= i < at - start implies !occurs_at(
                rest,
                self.delimiter@,
                i,
            ) by {
                assert(!occurs_at(self.remainder@, self.delimiter@, start + i));
            }
            lemma_first_occurrence_is(rest, self.delimiter@, at - start);
        }
        if m > n - at {
            self.is_end = true;
            let piece = self.remainder.substring_char(start, n);
            proof {
                assert(piece@ =~= rest);
                assert(pieces(rest, self.delimiter@) =~= seq![rest]);
                assert(seq![rest].drop_first() =~= Seq::<Seq<char>>::empty());
            }
            return Some(piece);
        }
        self.last_index = at + m;
        let piece = self.remainder.substring_char(start, at);
        proof {
            let after = self.rest();
            assert(piece@ =~= rest.take(at - start));
            assert(after =~= rest.skip(at - start + m));
            assert(pieces(rest, self.delimiter@) == seq![rest.take(at - start)] + pieces(
                after,
                self.delimiter@,
            ));
            assert(pieces(rest, self.delimiter@).drop_first() =~= pieces(after, self.delimiter@));
        }
        Some(piece)
    }

    /// All the pieces that are still to come.
    pub fn collect(&mut self) -> (list: Vec<&'input str>)
        requires
            old(self).wf(),
        ensures
            final(self).wf(),
            final(self).delimiter() == old(self).delimiter(),
            final(self).remaining().len() == 0,
            list@.len() == old(self).remaining().len(),
            forall|i: int|
                0 <= i < list@.len() ==> (#[trigger] list@[i])@ == old(self).remaining()[i],
    {
        let ghost all = self.remaining();
        let mut list: Vec<&'input str> = Vec::new();
        loop
            invariant
                self.wf(),
                self.delimiter() == old(self).delimiter(),
                all == old(self).remaining(),
                list@.len() + self.remaining().len() == all.len(),
                forall|i: int| 0 <= i < list@.len() ==> (#[trigger] list@[i])@ == all[i],
                forall|i: int|
                    0 <= i < self.remaining().len() ==> (#[trigger] self.remaining()[i]) == all[list@.len()
                        + i],
            decreases self.remaining().len(),
        {
            let ghost before = self.remaining();
            match self.next() {
                Some(piece) => {
                    list.push(piece);
                    proof {
                        assert forall|i: int| 0 <= i < self.remaining().len() implies (
                        #[trigger] self.remaining()[i]) == all[list@.len() + i] by {
                            assert(self.remaining()[i] == before[i + 1]);
                        }
                    }
                },
                None => {
                    return list;
                },
            }
        }
    }
}

/// A text to be split at a delimiter.
pub fn split<'input, 'delimiter>(input: &'input str, delimiter: &'delimiter str) -> (splitter:
    SplitString<'input, 'delimiter>)
    ensures
        splitter.wf(),
        splitter.delimiter() == delimiter@,
        splitter.remaining() == pieces(input@, delimiter@),
{
    SplitString::new(input, delimiter)
}

} // verus!
