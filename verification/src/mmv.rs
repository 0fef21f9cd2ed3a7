//! Moving files by pattern: the patterns and the new names.
//!
//! A source pattern is a file name in which `*` stands for any text; a
//! target pattern is a file name in which the marker `#1` stands for what
//! the first `*` matched, `#2` for the second, and so on.

use vstd::prelude::*;
use vstd::string::StringExecFns;
use regex::Regex;
use crate::text::decimal;
use crate::text::decimal_text;
use crate::text::occurs_in;
use crate::text::push_char;
use crate::text::replaced;
use crate::text::text_contains;
use crate::text::text_replace;
use crate::sorting::sorted_by_insertion;

verus! {

/// The characters that have a meaning of their own in a regular expression
/// and are escaped: `[]{}()|^$\?+.`
pub open spec fn is_special(c: char) -> bool {
    c == '[' || c == ']' || c == '{' || c == '}' || c == '(' || c == ')' || c == '|' || c == '^'
        || c == '$' || c == '\\' || c == '?' || c == '+' || c == '.'
}

/// What one character of a pattern becomes: a backslash stays a single
/// backslash, any other special character gets a backslash in front, and
/// every other character stays.
pub open spec fn escaped_char(c: char) -> Seq<char> {
    if c == '\\' {
        seq!['\\']
    } else if is_special(c) {
        seq!['\\', c]
    } else {
        seq![c]
    }
}

/// A pattern with its special characters escaped.
pub open spec fn escaped(pattern: Seq<char>) -> Seq<char>
    decreases pattern.len(),
{
    if pattern.len() == 0 {
        Seq::empty()
    } else {
        escaped(pattern.drop_last()) + escaped_char(pattern.last())
    }
}

/// What one character of an escaped pattern becomes in the regular
/// expression: `*` becomes the group `(.*)`.
pub open spec fn grouped_char(c: char) -> Seq<char> {
    if c == '*' {
        seq!['(', '.', '*', ')']
    } else {
        seq![c]
    }
}

/// A text with each `*` replaced by the group `(.*)`.
pub open spec fn grouped(pattern: Seq<char>) -> Seq<char>
    decreases pattern.len(),
{
    if pattern.len() == 0 {
        Seq::empty()
    } else {
        grouped(pattern.drop_last()) + grouped_char(pattern.last())
    }
}

/// The number of `*` in a text.
pub open spec fn stars(pattern: Seq<char>) -> nat
    decreases pattern.len(),
{
    if pattern.len() == 0 {
        0
    } else {
        stars(pattern.drop_last()) + if pattern.last() == '*' {
            1nat
        } else {
            0nat
        }
    }
}

fn special(c: char) -> (b: bool)
    ensures
        b == is_special(c),
{
    c == '[' || c == ']' || c == '{' || c == '}' || c == '(' || c == ')' || c == '|' || c == '^'
        || c == '$' || c == '\\' || c == '?' || c == '+' || c == '.'
}

/// Escapes the characters of a pattern that have a meaning of their own in
/// a regular expression. `*` is left as it is.
pub fn escape_special_regular_expression_characters(pattern: &str) -> (new_pattern: String)
    ensures
        new_pattern@ == escaped(pattern@),
{
    let mut new_pattern = String::new();
    assert(pattern@.take(0) =~= Seq::<char>::empty());
    for ch in it: pattern.chars()
        invariant
            it.seq() == pattern@,
            it.index() <= pattern@.len(),
            new_pattern@ == escaped(pattern@.take(it.index() as int)),
    {
        let ghost i = it.index() as int;
        assert(pattern@.take(i + 1).drop_last() == pattern@.take(i));
        assert(pattern@.take(i + 1).last() == ch);
        let ghost before = new_pattern@;
        if special(ch) && ch != '*' {
            push_char(&mut new_pattern, '\\');
        }
        if ch != '\\' {
            push_char(&mut new_pattern, ch);
        }
        assert(new_pattern@ =~= before + escaped_char(ch));
    }
    assert(pattern@.take(pattern@.len() as int) == pattern@);
    new_pattern
}

/// Replaces each `*` by the group `(.*)`.
pub fn group_stars(pattern: &str) -> (new_pattern: String)
    ensures
        new_pattern@ == grouped(pattern@),
{
    let mut new_pattern = String::new();
    assert(pattern@.take(0) =~= Seq::<char>::empty());
    for ch in it: pattern.chars()
        invariant
            it.seq() == pattern@,
            it.index() <= pattern@.len(),
            new_pattern@ == grouped(pattern@.take(it.index() as int)),
    {
        let ghost i = it.index() as int;
        assert(pattern@.take(i + 1).drop_last() == pattern@.take(i));
        assert(pattern@.take(i + 1).last() == ch);
        let ghost before = new_pattern@;
        if ch == '*' {
            push_char(&mut new_pattern, '(');
            push_char(&mut new_pattern, '.');
            push_char(&mut new_pattern, '*');
            push_char(&mut new_pattern, ')');
        } else {
            push_char(&mut new_pattern, ch);
        }
        assert(new_pattern@ =~= before + grouped_char(ch));
    }
    assert(pattern@.take(pattern@.len() as int) == pattern@);
    new_pattern
}

/// The number of `*` in a pattern, up to the largest `usize`.
pub fn count_stars(pattern: &str) -> (count: usize)
    ensures
        count == stars(pattern@) || (count == usize::MAX && stars(pattern@) > usize::MAX),
{
    let mut count: usize = 0;
    let ghost mut exact: nat = 0;
    assert(pattern@.take(0) =~= Seq::<char>::empty());
    for ch in it: pattern.chars()
        invariant
            it.seq() == pattern@,
            it.index() <= pattern@.len(),
            exact == stars(pattern@.take(it.index() as int)),
            count == exact || (count == usize::MAX && exact > usize::MAX),
    {
        let ghost i = it.index() as int;
        assert(pattern@.take(i + 1).drop_last() == pattern@.take(i));
        assert(pattern@.take(i + 1).last() == ch);
        if ch == '*' {
            proof {
                exact = exact + 1;
            }
            if count < usize::MAX {
                count = count + 1;
            }
        }
    }
    assert(pattern@.take(pattern@.len() as int) == pattern@);
    count
}

/// The parts of the two templates given on the command line.
#[derive(Debug)]
pub struct Arguments {
    /// The directory from which files are taken.
    pub from_path: String,
    /// The pattern by which files are selected there.
    pub from_pattern: String,
    /// The directory to which files are moved.
    pub to_path: String,
    /// The pattern by which files are named there.
    pub to_pattern: String,
    /// Whether existing files are replaced.
    pub force_flag: bool,
}

impl Arguments {
    /// The parts of a source template and a target template: of each the
    /// directory and the pattern.
    pub fn from_templates(from_template: &str, to_template: &str, force_flag: bool) -> (arguments:
        Arguments)
        ensures
            arguments.from_path@ == template_directory(from_template@),
            arguments.from_pattern@ == template_pattern(from_template@),
            arguments.to_path@ == template_directory(to_template@),
            arguments.to_pattern@ == template_pattern(to_template@),
            arguments.force_flag == force_flag,
    {
        let (from_path, from_pattern) = split_template(from_template);
        let (to_path, to_pattern) = split_template(to_template);
        Arguments { from_path, from_pattern, to_path, to_pattern, force_flag }
    }
}

/// Moves matched files to a directory, under names made from a pattern.
pub struct FileMover {
    /// The directory to which files are moved.
    pub to_path: String,
    /// The pattern by which files are named there.
    pub to_pattern: String,
    /// Whether existing files are replaced.
    pub force_flag: bool,
}

/// Why a target pattern and the matchings do not fit.
#[derive(Clone, Copy, Debug, PartialEq, Eq, Structural)]
pub enum MarkerError {
    /// The pattern holds a marker with a number beyond the last `*`.
    IndexTooLarge,
    /// A `*` has no marker, or the markers leave a number out.
    NotCovered,
}

/// The marker with the given number: `#` and the decimal numeral.
pub open spec fn marker(index: nat) -> Seq<char> {
    seq!['#'] + decimal(index)
}

/// The name that comes of `name` when the markers from `index` on are
/// replaced one after the other, each by its matching, until a marker does
/// not occur: an error where a marker occurs that has no matching, or where
/// a matching is left over.
pub open spec fn markers_replaced(name: Seq<char>, matchings: Seq<Seq<char>>, index: nat) -> Result<
    Seq<char>,
    MarkerError,
>
    decreases matchings.len() + 1 - index,
{
    if occurs_in(name, marker(index)) {
        if index > matchings.len() || index == 0 {
            Err(MarkerError::IndexTooLarge)
        } else {
            markers_replaced(
                replaced(name, marker(index), matchings[index - 1]),
                matchings,
                index + 1,
            )
        }
    } else if index <= matchings.len() {
        Err(MarkerError::NotCovered)
    } else {
        Ok(name)
    }
}

/// The texts of a list of strings.
pub open spec fn texts(strings: Seq<String>) -> Seq<Seq<char>> {
    Seq::new(strings.len(), |i: int| strings[i]@)
}

impl FileMover {
    /// A mover to `to_path` by `to_pattern`.
    pub fn new(to_path: &str, to_pattern: &str, force_flag: bool) -> (mover: FileMover)
        ensures
            mover.to_path@ == to_path@,
            mover.to_pattern@ == to_pattern@,
            mover.force_flag == force_flag,
    {
        FileMover { to_path: to_path.to_owned(), to_pattern: to_pattern.to_owned(), force_flag }
    }

    /// The name that the pattern gives with each marker replaced by its
    /// matching: `#1` by the first, `#2` by the second, and so on.
    pub fn replace_markers_with_matchings(pattern: &str, matchings: &Vec<String>) -> (name: Result<
        String,
        MarkerError,
    >)
        requires
            matchings@.len() < usize::MAX,
        ensures
            match name {
                Ok(text) => markers_replaced(pattern@, texts(matchings@), 1) == Ok::<
                    Seq<char>,
                    MarkerError,
                >(text@),
                Err(error) => markers_replaced(pattern@, texts(matchings@), 1) == Err::<
                    Seq<char>,
                    MarkerError,
                >(error),
            },
    {
        let mut new_filename = pattern.to_owned();
        let mut marker_index: usize = 1;
        loop
            invariant
                matchings@.len() < usize::MAX,
                1 <= marker_index <= matchings@.len() + 1,
                markers_replaced(pattern@, texts(matchings@), 1) == markers_replaced(
                    new_filename@,
                    texts(matchings@),
                    marker_index as nat,
                ),
            decreases matchings@.len() + 1 - marker_index,
        {
            let mut marker_text = String::from_str("#");
            proof {
                reveal_strlit("#");
                assert("#"@ =~= seq!['#']);
            }
            let numeral = decimal_text(marker_index);
            marker_text.append(numeral.as_str());
            assert(marker_text@ == marker(marker_index as nat));
            if !text_contains(new_filename.as_str(), marker_text.as_str()) {
                if marker_index <= matchings.len() {
                    return Err(MarkerError::NotCovered);
                }
                return Ok(new_filename);
            }
            if marker_index > matchings.len() {
                return Err(MarkerError::IndexTooLarge);
            }
            new_filename = text_replace(
                new_filename.as_str(),
                marker_text.as_str(),
                matchings[marker_index - 1].as_str(),
            );
            marker_index = marker_index + 1;
        }
    }
}

/// `regex::Regex`, opaque to the verifier.
#[verifier::external_type_specification]
#[verifier::external_body]
pub struct ExRegex(Regex);

/// `regex::Error`, opaque to the verifier.
#[verifier::external_type_specification]
#[verifier::external_body]
pub struct ExRegexError(regex::Error);

/// Whether a text is a regular expression that can be compiled.
pub uninterp spec fn regex_compiles(pattern: Seq<char>) -> bool;

/// The text that a regular expression was compiled from.
pub uninterp spec fn regex_source(expression: Regex) -> Seq<char>;

/// The groups of the leftmost match of a regular expression in a text,
/// where there is a match: the whole match first, then each group in the
/// order of its opening bracket, with nothing for a group that took no part.
pub uninterp spec fn regex_captures(pattern: Seq<char>, text: Seq<char>) -> Option<Seq<Option<Seq<char>>>>;

/// The texts of a list of optional strings.
pub open spec fn group_texts(groups: Seq<Option<String>>) -> Seq<Option<Seq<char>>> {
    Seq::new(groups.len(), |i: int| crate::models::text_of(groups[i]))
}

/// The texts of the groups of a match, where there is one.
pub open spec fn captures_view(groups: Option<Vec<Option<String>>>) -> Option<Seq<Option<Seq<char>>>> {
    match groups {
        Some(list) => Some(group_texts(list@)),
        None => None,
    }
}

/// Trusted: `Regex::new` compiles a text, or refuses it; which of the two
/// depends on the text alone, and the compiled expression remembers it.
#[verifier::external_body]
fn compile_pattern(pattern: &str) -> (compiled: Result<Regex, regex::Error>)
    ensures
        compiled is Ok <==> regex_compiles(pattern@),
        compiled is Ok ==> regex_source(compiled->Ok_0) == pattern@,
{
    Regex::new(pattern)
}

/// Trusted: `Regex::captures` finds the leftmost match and its groups; the
/// result depends on the expression's text and on the searched text alone.
#[verifier::external_body]
fn capture_groups(expression: &Regex, text: &str) -> (groups: Option<Vec<Option<String>>>)
    ensures
        captures_view(groups) == regex_captures(regex_source(*expression), text@),
{
    expression.captures(text).map(
        |found| found.iter().map(|group| group.map(|part| part.as_str().to_string())).collect(),
    )
}

/// What the stars of a pattern matched in a file name, given the groups of
/// the match: the match must cover the whole name, and each of the first
/// `count` groups must have taken part.
pub open spec fn matching_of(
    groups: Option<Seq<Option<Seq<char>>>>,
    name: Seq<char>,
    count: nat,
) -> Option<Seq<Seq<char>>> {
    match groups {
        Some(list) => if list.len() > count && list[0] == Some(name) && (forall|i: int|
            1 <= i <= count ==> (#[trigger] list[i]) is Some) {
            Some(Seq::new(count, |i: int| list[i + 1]->0))
        } else {
            None
        },
        None => None,
    }
}

/// A directory and a file name as one path: the name alone where the
/// directory is empty, and otherwise the two with one `/` between them.
pub open spec fn joined(directory: Seq<char>, name: Seq<char>) -> Seq<char> {
    if directory.len() == 0 {
        name
    } else if directory.last() == '/' {
        directory + name
    } else {
        directory + seq!['/'] + name
    }
}

/// The position of the last `/` of a text, or -1 where it has none.
pub open spec fn last_slash(text: Seq<char>) -> int
    decreases text.len(),
{
    if text.len() == 0 {
        -1
    } else if text.last() == '/' {
        text.len() - 1
    } else {
        last_slash(text.drop_last())
    }
}

/// The directory of a template: what stands before its last `/`; the root
/// where that is the first character; nothing where there is no `/`.
pub open spec fn template_directory(template: Seq<char>) -> Seq<char> {
    let at = last_slash(template);
    if at < 0 {
        Seq::empty()
    } else if at == 0 {
        seq!['/']
    } else {
        template.take(at)
    }
}

/// The pattern of a template: what stands behind its last `/`.
pub open spec fn template_pattern(template: Seq<char>) -> Seq<char> {
    template.skip(last_slash(template) + 1)
}

/// Whether text `a` comes before text `b`, or is equal to it, in the order
/// of the dictionary by character code.
pub open spec fn text_le(a: Seq<char>, b: Seq<char>) -> bool
    decreases a.len(),
{
    if a.len() == 0 {
        true
    } else if b.len() == 0 {
        false
    } else if a[0] != b[0] {
        (a[0] as u32) < (b[0] as u32)
    } else {
        text_le(a.drop_first(), b.drop_first())
    }
}

/// A matched file: its path, and what each `*` matched in its name.
#[derive(Debug)]
pub struct MatchedFile {
    pub path: String,
    pub matchings: Vec<String>,
}

/// A matched file as a mathematical value.
pub struct MatchedFileView {
    pub path: Seq<char>,
    pub matchings: Seq<Seq<char>>,
}

impl View for MatchedFile {
    type V = MatchedFileView;

    open spec fn view(&self) -> MatchedFileView {
        MatchedFileView { path: self.path@, matchings: texts(self.matchings@) }
    }
}

/// A list of matched files as mathematical values.
pub open spec fn file_views(files: Seq<MatchedFile>) -> Seq<MatchedFileView> {
    Seq::new(files.len(), |i: int| files[i]@)
}

/// Whether the files stand in the order of their paths.
pub open spec fn ordered_by_path(files: Seq<MatchedFileView>) -> bool {
    forall|i: int, j: int| 0 <= i < j < files.len() ==> text_le(#[trigger] files[i].path, #[trigger] files[j].path)
}

/// The order of the dictionary leaves no two texts apart.
pub proof fn lemma_text_le_total(a: Seq<char>, b: Seq<char>)
    ensures
        text_le(a, b) || text_le(b, a),
    decreases a.len(),
{
    if a.len() > 0 && b.len() > 0 {
        if a[0] == b[0] {
            lemma_text_le_total(a.drop_first(), b.drop_first());
        } else {
            vstd::utf8::char_u32_cast(a[0], a[0] as u32);
            vstd::utf8::char_u32_cast(b[0], b[0] as u32);
        }
    }
}

/// The order of the dictionary goes on from text to text.
pub proof fn lemma_text_le_transitive(a: Seq<char>, b: Seq<char>, c: Seq<char>)
    requires
        text_le(a, b),
        text_le(b, c),
    ensures
        text_le(a, c),
    decreases a.len(),
{
    if a.len() > 0 && b.len() > 0 && c.len() > 0 && a[0] == b[0] && b[0] == c[0] {
        lemma_text_le_transitive(a.drop_first(), b.drop_first(), c.drop_first());
    }
}

/// Whether text `a` comes before text `b`, or is equal to it, in the order
/// of the dictionary.
pub fn text_at_most(a: &str, b: &str) -> (le: bool)
    ensures
        le == text_le(a@, b@),
{
    let first = crate::text::characters(a);
    let second = crate::text::characters(b);
    let mut i: usize = 0;
    assert(a@.skip(0) == a@);
    assert(b@.skip(0) == b@);
    while i < first.len() && i < second.len()
        invariant
            i <= first.len(),
            i <= second.len(),
            first@ == a@,
            second@ == b@,
            text_le(a@, b@) == text_le(a@.skip(i as int), b@.skip(i as int)),
        decreases first.len() - i,
    {
        let ghost x = a@.skip(i as int);
        let ghost y = b@.skip(i as int);
        assert(x[0] == first@[i as int] && y[0] == second@[i as int]);
        assert(x.drop_first() == a@.skip(i + 1));
        assert(y.drop_first() == b@.skip(i + 1));
        if first[i] != second[i] {
            return (first[i] as u32) < (second[i] as u32);
        }
        i = i + 1;
    }
    i >= first.len()
}

/// The files in the order of their paths.
fn sort_by_path(files: Vec<MatchedFile>) -> (sorted: Vec<MatchedFile>)
    ensures
        sorted@.len() == files@.len(),
        ordered_by_path(file_views(sorted@)),
        file_views(sorted@).to_multiset() == file_views(files@).to_multiset(),
{
    let ghost earlier = |a: MatchedFile, b: MatchedFile| !text_le(b.path@, a.path@);
    let ghost seen = |a: MatchedFile| a@;
    let before = |a: &MatchedFile, b: &MatchedFile| -> (r: bool)
        ensures
            r == !text_le(b.path@, a.path@),
        { !text_at_most(b.path.as_str(), a.path.as_str()) };
    proof {
        assert forall|a: MatchedFile, b: MatchedFile| #[trigger] earlier(a, b) implies !earlier(
            b,
            a,
        ) by {
            lemma_text_le_total(a.path@, b.path@);
        }
        assert forall|a: MatchedFile, b: MatchedFile, c: MatchedFile| #[trigger]
            earlier(a, b) && #[trigger] earlier(b, c) implies earlier(a, c) by {
            lemma_text_le_total(a.path@, b.path@);
            if text_le(c.path@, a.path@) {
                lemma_text_le_transitive(c.path@, a.path@, b.path@);
            }
        }
    }
    let sorted = sorted_by_insertion::<MatchedFile, MatchedFileView, _>(
        files,
        before,
        Ghost(earlier),
        Ghost(seen),
    );
    proof {
        assert(crate::sorting::mapped(sorted@, seen) =~= file_views(sorted@));
        assert(crate::sorting::mapped(files@, seen) =~= file_views(files@));
        assert forall|i: int, j: int| 0 <= i < j < sorted@.len() implies text_le(
            #[trigger] file_views(sorted@)[i].path,
            #[trigger] file_views(sorted@)[j].path,
        ) by {
            assert(!earlier(sorted@[j], sorted@[i]));
        }
    }
    sorted
}

/// The files among `names` that the expression matches as a whole, in the
/// order of the names: each with its path in `directory` and with what the
/// `count` stars matched.
pub open spec fn matched_among(
    expression: Seq<char>,
    count: nat,
    directory: Seq<char>,
    names: Seq<Seq<char>>,
) -> Seq<MatchedFileView>
    decreases names.len(),
{
    if names.len() == 0 {
        Seq::empty()
    } else {
        let before = matched_among(expression, count, directory, names.drop_last());
        match matching_of(regex_captures(expression, names.last()), names.last(), count) {
            Some(matchings) => before.push(
                MatchedFileView { path: joined(directory, names.last()), matchings },
            ),
            None => before,
        }
    }
}

/// Why no files were matched.
#[derive(Clone, Copy, Debug, PartialEq, Eq, Structural)]
pub enum MatchError {
    /// The pattern does not make a regular expression.
    InvalidPattern,
    /// No file fits the pattern.
    NothingMatched,
}

/// The files that a source pattern matched, in the order of their paths.
#[derive(Debug)]
pub struct MatchedFiles {
    pub files: Vec<MatchedFile>,
}

/// A directory and a file name as one path.
pub fn join_path(directory: &str, name: &str) -> (path: String)
    ensures
        path@ == joined(directory@, name@),
{
    let mut path = directory.to_owned();
    let mut ends_with_slash = false;
    let mut empty = true;
    for c in it: directory.chars()
        invariant
            it.seq() == directory@,
            it.index() <= directory@.len(),
            empty == (it.index() == 0),
            !empty ==> ends_with_slash == (directory@[it.index() - 1] == '/'),
    {
        empty = false;
        ends_with_slash = c == '/';
    }
    if empty {
        return name.to_owned();
    }
    if !ends_with_slash {
        push_char(&mut path, '/');
    }
    path.append(name);
    path
}

/// The directory and the pattern of a template.
pub fn split_template(template: &str) -> (parts: (String, String))
    ensures
        parts.0@ == template_directory(template@),
        parts.1@ == template_pattern(template@),
{
    let mut directory = String::new();
    let mut pending = String::new();
    let mut pattern = String::new();
    let ghost mut at: int = -1;
    assert(template@.take(0) =~= Seq::<char>::empty());
    for c in it: template.chars()
        invariant
            it.seq() == template@,
            it.index() <= template@.len(),
            at == last_slash(template@.take(it.index() as int)),
            -1 <= at < it.index(),
            directory@ == template@.take(if at < 0 { 0 } else { at }),
            pattern@ == template@.subrange(at + 1, it.index() as int),
            at >= 0 ==> pending@ == template@.subrange(at, it.index() as int),
            at < 0 ==> pending@ == template@.take(it.index() as int),
    {
        let ghost i = it.index() as int;
        assert(template@.take(i + 1).drop_last() == template@.take(i));
        assert(template@.take(i + 1).last() == c);
        if c == '/' {
            directory.append(pending.as_str());
            pending = String::new();
            push_char(&mut pending, c);
            pattern = String::new();
            proof {
                if at >= 0 {
                    assert(template@.take(at) + template@.subrange(at, i) =~= template@.take(i));
                } else {
                    assert(template@.take(0) + template@.take(i) =~= template@.take(i));
                }
                at = i;
                assert(pending@ =~= template@.subrange(i, i + 1));
                assert(pattern@ =~= template@.subrange(i + 1, i + 1));
            }
        } else {
            push_char(&mut pending, c);
            push_char(&mut pattern, c);
            proof {
                assert(pattern@ =~= template@.subrange(at + 1, i + 1));
                if at >= 0 {
                    assert(pending@ =~= template@.subrange(at, i + 1));
                } else {
                    assert(pending@ =~= template@.take(i + 1));
                }
            }
        }
    }
    proof {
        assert(template@.take(template@.len() as int) == template@);
        assert(template@.subrange(at + 1, template@.len() as int) =~= template@.skip(at + 1));
    }
    let ghost whole = template@;
    let mut starts_with_slash = false;
    let mut first = true;
    for c in it: template.chars()
        invariant
            it.seq() == template@,
            it.index() <= template@.len(),
            first == (it.index() == 0),
            !first ==> starts_with_slash == (template@[0] == '/'),
    {
        if first {
            starts_with_slash = c == '/';
            first = false;
        }
    }
    if directory.as_str().unicode_len() == 0 && !first && starts_with_slash {
        proof {
            assert(at == 0) by {
                lemma_last_slash_found(template@, 0);
                if at > 0 {
                    assert(directory@.len() == at);
                }
            }
        }
        let mut root = String::new();
        push_char(&mut root, '/');
        assert(root@ =~= seq!['/']);
        return (root, pattern);
    }
    proof {
        if at == 0 {
            assert(template@[0] == '/') by {
                lemma_last_slash_is_slash(template@);
            }
        }
        if at > 0 {
            assert(directory@.len() == at);
        }
    }
    (directory, pattern)
}

/// The last `/` of a text is at or behind any `/` of it.
pub proof fn lemma_last_slash_found(text: Seq<char>, i: int)
    requires
        0 <= i < text.len(),
        text[i] == '/',
    ensures
        i <= last_slash(text) < text.len(),
    decreases text.len(),
{
    if text.last() != '/' {
        lemma_last_slash_found(text.drop_last(), i);
    }
}

/// At the position of the last `/` stands a `/`.
pub proof fn lemma_last_slash_is_slash(text: Seq<char>)
    ensures
        -1 <= last_slash(text) < text.len(),
        last_slash(text) >= 0 ==> text[last_slash(text)] == '/',
    decreases text.len(),
{
    if text.len() > 0 && text.last() != '/' {
        lemma_last_slash_is_slash(text.drop_last());
    }
}

/// What the stars of a pattern matched in a file name, given the groups of
/// the match; nothing where the match does not cover the whole name.
pub fn select_matching(groups: Option<Vec<Option<String>>>, name: &str, count: usize) -> (matching:
    Option<Vec<String>>)
    ensures
        match matching {
            Some(list) => matching_of(captures_view(groups), name@, count as nat) == Some(
                texts(list@),
            ),
            None => matching_of(captures_view(groups), name@, count as nat) is None,
        },
{
    let ghost given = captures_view(groups);
    match groups {
        None => None,
        Some(list) => {
            assert(given == Some(group_texts(list@)));
            if list.len() <= count {
                return None;
            }
            match &list[0] {
                None => {
                    return None;
                },
                Some(whole) => {
                    if !crate::models::same_text(whole.as_str(), name) {
                        return None;
                    }
                },
            }
            let ghost view = group_texts(list@);
            assert(view[0] == Some(name@));
            let mut matching: Vec<String> = Vec::new();
            let mut i: usize = 1;
            while i <= count
                invariant
                    1 <= i <= count + 1,
                    count < list.len(),
                    given == Some(view),
                    given == captures_view(groups),
                    view[0] == Some(name@),
                    view == group_texts(list@),
                    matching@.len() == i - 1,
                    forall|k: int| 1 <= k < i ==> (#[trigger] view[k]) is Some,
                    forall|k: int| 0 <= k < i - 1 ==> (#[trigger] matching@[k])@ == view[k + 1]->0,
                decreases count + 1 - i,
            {
                match &list[i] {
                    None => {
                        assert(view[i as int] is None);
                        return None;
                    },
                    Some(part) => {
                        assert(view[i as int] == Some(part@));
                        matching.push(part.clone());
                    },
                }
                i = i + 1;
            }
            assert(texts(matching@) =~= Seq::new(count as nat, |k: int| view[k + 1]->0));
            Some(matching)
        },
    }
}

impl MatchedFiles {
    /// The regular expression that a source pattern stands for: the pattern
    /// with its special characters escaped and each `*` as a group.
    pub fn make_correct_pattern(pattern: &str) -> (expression: String)
        ensures
            expression@ == grouped(escaped(pattern@)),
    {
        let escaped_pattern = escape_special_regular_expression_characters(pattern);
        group_stars(escaped_pattern.as_str())
    }

    /// The files among `names`, the names of the files of `from_path`, that
    /// fit the pattern, in the order of their paths; an error where the
    /// pattern makes no regular expression or where no file fits. The
    /// pattern must have fewer stars than a `usize` can count.
    pub fn get_matched_files_info(from_path: &str, from_pattern: &str, names: &Vec<String>) -> (matched:
        Result<MatchedFiles, MatchError>)
        requires
            stars(from_pattern@) < usize::MAX,
        ensures
            match matched {
                Ok(found) => regex_compiles(grouped(escaped(from_pattern@))) && found.files@.len() > 0
                    && ordered_by_path(file_views(found.files@)) && file_views(
                    found.files@,
                ).to_multiset() == matched_among(
                    grouped(escaped(from_pattern@)),
                    stars(from_pattern@),
                    from_path@,
                    texts(names@),
                ).to_multiset(),
                Err(MatchError::InvalidPattern) => !regex_compiles(grouped(escaped(from_pattern@))),
                Err(MatchError::NothingMatched) => regex_compiles(grouped(escaped(from_pattern@)))
                    && matched_among(
                    grouped(escaped(from_pattern@)),
                    stars(from_pattern@),
                    from_path@,
                    texts(names@),
                ).len() == 0,
            },
    {
        let pattern = MatchedFiles::make_correct_pattern(from_pattern);
        let compiled = compile_pattern(pattern.as_str());
        let expression = match compiled {
            Ok(expression) => expression,
            Err(_) => {
                return Err(MatchError::InvalidPattern);
            },
        };
        let count = count_stars(from_pattern);
        let mut files: Vec<MatchedFile> = Vec::new();
        let ghost all = texts(names@);
        let mut i: usize = 0;
        assert(all.take(0) =~= Seq::<Seq<char>>::empty());
        assert(file_views(files@) =~= Seq::<MatchedFileView>::empty());
        while i < names.len()
            invariant
                i <= names.len(),
                all == texts(names@),
                count == stars(from_pattern@),
                regex_source(expression) == pattern@,
                pattern@ == grouped(escaped(from_pattern@)),
                file_views(files@) == matched_among(
                    pattern@,
                    count as nat,
                    from_path@,
                    all.take(i as int),
                ),
            decreases names.len() - i,
        {
            let name = &names[i];
            assert(all.take(i + 1).drop_last() == all.take(i as int));
            assert(all.take(i + 1).last() == name@);
            let groups = capture_groups(&expression, name.as_str());
            let ghost before = file_views(files@);
            match select_matching(groups, name.as_str(), count) {
                Some(matchings) => {
                    let path = join_path(from_path, name.as_str());
                    let ghost added = MatchedFileView {
                        path: path@,
                        matchings: texts(matchings@),
                    };
                    files.push(MatchedFile { path, matchings });
                    assert(file_views(files@) =~= before.push(added));
                },
                None => {},
            }
            i = i + 1;
        }
        assert(all.take(all.len() as int) == all);
        if files.len() == 0 {
            return Err(MatchError::NothingMatched);
        }
        let files = sort_by_path(files);
        Ok(MatchedFiles { files })
    }
}

/// A planned move: from one path to another.
#[derive(Debug)]
pub struct PlannedMove {
    pub from: String,
    pub to: String,
}

impl FileMover {
    /// Where a matched file is to go: the directory of the mover, and the
    /// name that its pattern gives with the file's matchings. A file
    /// without matchings takes the pattern as it is.
    pub fn plan_move(&self, file: &MatchedFile) -> (planned: Result<PlannedMove, MarkerError>)
        requires
            file.matchings@.len() < usize::MAX,
        ensures
            match planned {
                Ok(step) => step.from@ == file.path@ && (if file.matchings@.len() == 0 {
                    step.to@ == joined(self.to_path@, self.to_pattern@)
                } else {
                    markers_replaced(self.to_pattern@, texts(file.matchings@), 1) is Ok
                        && step.to@ == joined(
                        self.to_path@,
                        markers_replaced(self.to_pattern@, texts(file.matchings@), 1)->Ok_0,
                    )
                }),
                Err(error) => file.matchings@.len() > 0 && markers_replaced(
                    self.to_pattern@,
                    texts(file.matchings@),
                    1,
                ) == Err::<Seq<char>, MarkerError>(error),
            },
    {
        let name = if file.matchings.len() == 0 {
            self.to_pattern.clone()
        } else {
            match FileMover::replace_markers_with_matchings(self.to_pattern.as_str(), &file.matchings) {
                Ok(name) => name,
                Err(error) => {
                    return Err(error);
                },
            }
        };
        Ok(PlannedMove { from: file.path.clone(), to: join_path(self.to_path.as_str(), name.as_str()) })
    }
}

} // verus!
