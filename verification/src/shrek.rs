//! Questions about the lines of a text: which hold a word, which are the
//! longest, how often a word occurs in each.

use vstd::prelude::*;
use vstd::utf8::encode_utf8;
use crate::mmv::texts;
use crate::text::occurs_in;
use crate::text::text_contains;
use crate::sorting::sorted_by_insertion;

verus! {

/// A text in lower case.
pub uninterp spec fn lowercase(text: Seq<char>) -> Seq<char>;

/// Trusted: `str::to_lowercase` gives the text in lower case; the result
/// depends on the text alone.
#[verifier::external_body]
fn to_lowercase(text: &str) -> (lower: String)
    ensures
        lower@ == lowercase(text@),
{
    text.to_lowercase()
}

/// The number of lines in which the word occurs.
pub open spec fn lines_containing(lines: Seq<Seq<char>>, word: Seq<char>) -> nat
    decreases lines.len(),
{
    if lines.len() == 0 {
        0
    } else {
        lines_containing(lines.drop_last(), word) + if occurs_in(lines.last(), word) {
            1nat
        } else {
            0nat
        }
    }
}

/// Each text in lower case.
pub open spec fn lowercased(lines: Seq<Seq<char>>) -> Seq<Seq<char>> {
    Seq::new(lines.len(), |i: int| lowercase(lines[i]))
}

/// The number of lines in which the word occurs, letter for letter.
pub fn count_lines_containing(lines: &Vec<String>, word: &str) -> (count: usize)
    ensures
        count == lines_containing(texts(lines@), word@),
{
    let mut count: usize = 0;
    let ghost all = texts(lines@);
    let mut i: usize = 0;
    assert(all.take(0) =~= Seq::<Seq<char>>::empty());
    while i < lines.len()
        invariant
            i <= lines.len(),
            all == texts(lines@),
            count <= i,
            count == lines_containing(all.take(i as int), word@),
        decreases lines.len() - i,
    {
        assert(all.take(i + 1).drop_last() == all.take(i as int));
        assert(all.take(i + 1).last() == lines@[i as int]@);
        if text_contains(lines[i].as_str(), word) {
            count = count + 1;
        }
        i = i + 1;
    }
    assert(all.take(all.len() as int) == all);
    count
}

/// Each line in lower case.
pub fn lowercase_lines(lines: &Vec<String>) -> (lowered: Vec<String>)
    ensures
        texts(lowered@) == lowercased(texts(lines@)),
{
    let mut lowered: Vec<String> = Vec::new();
    let mut i: usize = 0;
    while i < lines.len()
        invariant
            i <= lines.len(),
            lowered@.len() == i,
            forall|j: int| 0 <= j < i ==> (#[trigger] lowered@[j])@ == lowercase(lines@[j]@),
        decreases lines.len() - i,
    {
        lowered.push(to_lowercase(lines[i].as_str()));
        i = i + 1;
    }
    assert(texts(lowered@) =~= lowercased(texts(lines@)));
    lowered
}

/// The number of lines in which the word occurs, whatever the case of the
/// letters.
pub fn count_lines_with_word(lines: &Vec<String>, word: &str) -> (count: usize)
    ensures
        count == lines_containing(lowercased(texts(lines@)), lowercase(word@)),
{
    let lowered = lowercase_lines(lines);
    let lowered_word = to_lowercase(word);
    count_lines_containing(&lowered, lowered_word.as_str())
}

/// The number of positions up to `limit` at which `width` bytes of `hay`
/// are the bytes of `needle`.
pub open spec fn windows_equal(hay: Seq<u8>, needle: Seq<u8>, width: nat, limit: nat) -> nat
    decreases limit,
{
    if limit == 0 {
        0
    } else {
        let at = limit - 1;
        windows_equal(hay, needle, width, at as nat) + if at + width <= hay.len() && hay.subrange(
            at,
            at + width,
        ) == needle {
            1nat
        } else {
            0nat
        }
    }
}

/// The number of windows of `width` bytes of `hay` that are the bytes of
/// `needle`; windows overlap. There are no windows of no bytes.
pub open spec fn occurrences(hay: Seq<u8>, needle: Seq<u8>, width: nat) -> nat {
    if width == 0 || width > hay.len() {
        0
    } else {
        windows_equal(hay, needle, width, (hay.len() - width + 1) as nat)
    }
}

/// The number of windows of `width` bytes of `hay` that are the bytes of
/// `needle`.
pub fn count_windows(hay: &[u8], needle: &[u8], width: usize) -> (count: usize)
    ensures
        count == occurrences(hay@, needle@, width as nat),
{
    if width == 0 || width > hay.len() {
        return 0;
    }
    let last = hay.len() - width;
    let mut count: usize = 0;
    let mut at: usize = 0;
    while at <= last
        invariant
            at <= last + 1,
            last + width == hay.len(),
            width > 0,
            count <= at,
            count == windows_equal(hay@, needle@, width as nat, at as nat),
        decreases last + 1 - at,
    {
        let mut same = needle.len() == width;
        let mut j: usize = 0;
        while same && j < width
            invariant
                j <= width,
                at + width <= hay.len(),
                same ==> needle@.len() == width,
                same ==> forall|q: int| 0 <= q < j ==> hay@[at + q] == needle@[q],
                !same ==> hay@.subrange(at as int, at + width) != needle@,
            decreases width - j + if same { 1nat } else { 0nat },
        {
            if hay[at + j] != needle[j] {
                same = false;
                assert(hay@.subrange(at as int, at + width)[j as int] != needle@[j as int]);
            } else {
                j = j + 1;
            }
        }
        if same {
            assert(hay@.subrange(at as int, at + width) =~= needle@);
            count = count + 1;
        }
        at = at + 1;
    }
    count
}

/// For each line in which windows of as many bytes as `word` has are the
/// bytes of the lowered word: the number of such windows of the lowered
/// line, and the position of the line.
pub open spec fn word_counts(lines: Seq<Seq<char>>, word: Seq<char>) -> Seq<(usize, usize)>
    decreases lines.len(),
{
    if lines.len() == 0 {
        Seq::empty()
    } else {
        let before = word_counts(lines.drop_last(), word);
        let count = occurrences(
            encode_utf8(lowercase(lines.last())),
            encode_utf8(lowercase(word)),
            encode_utf8(word).len(),
        );
        if count > 0 {
            before.push((count as usize, (lines.len() - 1) as usize))
        } else {
            before
        }
    }
}

/// For each line in which the word occurs, whatever the case of the
/// letters: how often it occurs, and the position of the line. An empty
/// word occurs nowhere.
pub fn words_counter_iter(lines: &Vec<String>, word: &str) -> (res: Vec<(usize, usize)>)
    ensures
        res@ == word_counts(texts(lines@), word@),
{
    let mut res: Vec<(usize, usize)> = Vec::new();
    let lowered_word = to_lowercase(word);
    let width = word.as_bytes().len();
    let ghost all = texts(lines@);
    let mut pos: usize = 0;
    assert(all.take(0) =~= Seq::<Seq<char>>::empty());
    while pos < lines.len()
        invariant
            pos <= lines.len(),
            all == texts(lines@),
            width == encode_utf8(word@).len(),
            lowered_word@ == lowercase(word@),
            res@ == word_counts(all.take(pos as int), word@),
        decreases lines.len() - pos,
    {
        assert(all.take(pos + 1).drop_last() == all.take(pos as int));
        assert(all.take(pos + 1).last() == lines@[pos as int]@);
        let lowered = to_lowercase(lines[pos].as_str());
        let count = count_windows(lowered.as_str().as_bytes(), lowered_word.as_str().as_bytes(), width);
        if count > 0 {
            res.push((count, pos));
        }
        pos = pos + 1;
    }
    assert(all.take(all.len() as int) == all);
    res
}

/// The length of a text in bytes.
pub open spec fn byte_len(text: Seq<char>) -> nat {
    encode_utf8(text).len()
}

/// Whether line `a` comes before line `b` among the longest: the longer
/// line first, and of two lines of one length the earlier.
pub open spec fn ranks_before(a: (usize, Seq<char>), b: (usize, Seq<char>)) -> bool {
    byte_len(a.1) > byte_len(b.1) || (byte_len(a.1) == byte_len(b.1) && a.0 < b.0)
}

/// Numbered lines as mathematical values.
pub open spec fn numbered(lines: Seq<(usize, String)>) -> Seq<(usize, Seq<char>)> {
    Seq::new(lines.len(), |i: int| (lines[i].0, lines[i].1@))
}

/// The lines with the longer first, and of two lines of one length the one
/// with the lower number.
fn sort_longest_first(lines: Vec<(usize, String)>) -> (sorted: Vec<(usize, String)>)
    ensures
        sorted@.len() == lines@.len(),
        numbered(sorted@).to_multiset() == numbered(lines@).to_multiset(),
        forall|i: int, j: int|
            0 <= i < j < sorted@.len() ==> !ranks_before(
                #[trigger] numbered(sorted@)[j],
                #[trigger] numbered(sorted@)[i],
            ),
{
    let ghost earlier = |a: (usize, String), b: (usize, String)| ranks_before((a.0, a.1@), (b.0, b.1@));
    let ghost seen = |a: (usize, String)| (a.0, a.1@);
    let before = |a: &(usize, String), b: &(usize, String)| -> (r: bool)
        ensures
            r == ranks_before((a.0, a.1@), (b.0, b.1@)),
        {
            let first = a.1.as_str().as_bytes().len();
            let second = b.1.as_str().as_bytes().len();
            first > second || (first == second && a.0 < b.0)
        };
    let sorted = sorted_by_insertion::<(usize, String), (usize, Seq<char>), _>(
        lines,
        before,
        Ghost(earlier),
        Ghost(seen),
    );
    proof {
        assert(crate::sorting::mapped(sorted@, seen) =~= numbered(sorted@));
        assert(crate::sorting::mapped(lines@, seen) =~= numbered(lines@));
        assert forall|i: int, j: int| 0 <= i < j < sorted@.len() implies !ranks_before(
            #[trigger] numbered(sorted@)[j],
            #[trigger] numbered(sorted@)[i],
        ) by {
            assert(!earlier(sorted@[j], sorted@[i]));
        }
    }
    sorted
}

/// The `k` longest lines, each with its position, the longest first and of
/// two lines of one length the earlier first. There must be `k` lines.
pub fn top_k_longest(lines: &Vec<String>, k: usize) -> (top: Vec<(usize, String)>)
    requires
        k <= lines@.len(),
    ensures
        top@.len() == k,
        forall|i: int|
            0 <= i < k ==> (#[trigger] top@[i]).0 < lines@.len() && top@[i].1@ == lines@[top@[i].0 as int]@,
        forall|i: int, j: int|
            0 <= i < j < k ==> ranks_before(#[trigger] numbered(top@)[i], #[trigger] numbered(top@)[j]),
        forall|p: int, i: int|
            0 <= p < lines@.len() && 0 <= i < k ==> (exists|q: int|
                0 <= q < k && (#[trigger] top@[q]).0 == p) || ranks_before(
                #[trigger] numbered(top@)[i],
                (p as usize, #[trigger] lines@[p]@),
            ),
{
    let mut sorted_lines: Vec<(usize, String)> = Vec::new();
    let mut pos: usize = 0;
    while pos < lines.len()
        invariant
            pos <= lines.len(),
            sorted_lines@.len() == pos,
            forall|i: int|
                0 <= i < pos ==> (#[trigger] sorted_lines@[i]).0 == i && sorted_lines@[i].1@
                    == lines@[i]@,
        decreases lines.len() - pos,
    {
        sorted_lines.push((pos, lines[pos].clone()));
        pos = pos + 1;
    }
    let ghost given = numbered(sorted_lines@);
    let mut sorted_lines = sort_longest_first(sorted_lines);
    let ghost sorted = numbered(sorted_lines@);
    proof {
        given.to_multiset_ensures();
        sorted.to_multiset_ensures();
        assert(sorted.len() == given.len());
        assert(given.no_duplicates());
        given.lemma_multiset_has_no_duplicates();
        sorted.lemma_multiset_has_no_duplicates_conv();
        assert forall|q: int| 0 <= q < sorted.len() implies (#[trigger] sorted[q]).0 < lines@.len()
            && sorted[q].1 == lines@[sorted[q].0 as int]@ by {
            assert(sorted.to_multiset().count(sorted[q]) > 0);
            assert(given.contains(sorted[q]));
            let p = choose|p: int| 0 <= p < given.len() && given[p] == sorted[q];
            assert(given[p].0 == p);
        }
        assert forall|i: int, j: int| 0 <= i < j < sorted.len() implies ranks_before(
            #[trigger] sorted[i],
            #[trigger] sorted[j],
        ) by {
            assert(!ranks_before(sorted[j], sorted[i]));
            assert(sorted[i] != sorted[j]);
            assert(sorted[i].1 == lines@[sorted[i].0 as int]@);
            assert(sorted[j].1 == lines@[sorted[j].0 as int]@);
        }
    }
    sorted_lines.truncate(k);
    proof {
        let top = numbered(sorted_lines@);
        assert forall|i: int| 0 <= i < k implies top[i] == sorted[i] by {}
        assert forall|i: int| 0 <= i < k implies (#[trigger] sorted_lines@[i]).0 < lines@.len()
            && sorted_lines@[i].1@ == lines@[sorted_lines@[i].0 as int]@ by {
            assert(top[i] == sorted[i]);
        }
        assert forall|i: int, j: int| 0 <= i < j < k implies ranks_before(
            #[trigger] top[i],
            #[trigger] top[j],
        ) by {
            assert(top[i] == sorted[i] && top[j] == sorted[j]);
        }
        assert forall|p: int, i: int| 0 <= p < lines@.len() && 0 <= i < k implies (exists|q: int|
            0 <= q < k && (#[trigger] sorted_lines@[q]).0 == p) || ranks_before(
            #[trigger] top[i],
            (p as usize, #[trigger] lines@[p]@),
        ) by {
            let line = (p as usize, lines@[p]@);
            assert(given[p] == line);
            assert(given.contains(line));
            assert(given.to_multiset().count(line) > 0);
            assert(sorted.contains(line));
            let q = choose|q: int| 0 <= q < sorted.len() && sorted[q] == line;
            if q < k {
                assert(top[q] == sorted[q]);
                assert(sorted_lines@[q].0 == p);
            } else {
                assert(top[i] == sorted[i]);
                assert(ranks_before(sorted[i], sorted[q]));
            }
        }
    }
    sorted_lines
}

} // verus!
