//! A problem of the course, known by the path of its directory.

use vstd::prelude::*;
use vstd::string::StringExecFns;
use crate::mmv::texts;
use crate::text::push_char;

verus! {

/// The part of a list that a text in progress adds: itself where it is not
/// empty.
pub open spec fn closed_part(current: Seq<char>) -> Seq<Seq<char>> {
    if current.len() > 0 {
        seq![current]
    } else {
        Seq::empty()
    }
}

/// The parts of `text` between its slashes, the empty ones left out, where
/// `current` is the part that stands before `text`.
pub open spec fn parts(text: Seq<char>, current: Seq<char>) -> Seq<Seq<char>>
    decreases text.len(),
{
    if text.len() == 0 {
        closed_part(current)
    } else if text[0] == '/' {
        closed_part(current) + parts(text.drop_first(), Seq::empty())
    } else {
        parts(text.drop_first(), current.push(text[0]))
    }
}

/// The components of a path: its parts between slashes, the empty ones
/// left out.
pub open spec fn components(path: Seq<char>) -> Seq<Seq<char>> {
    parts(path, Seq::empty())
}

/// The directory under which the problems stand.
pub open spec fn problems_folder() -> Seq<char> {
    "problems"@
}

/// The components of a path.
pub fn path_components(path: &str) -> (list: Vec<String>)
    ensures
        texts(list@) == components(path@),
{
    let mut list: Vec<String> = Vec::new();
    let mut current = String::new();
    assert(path@.skip(0) == path@);
    assert(texts(list@) =~= Seq::<Seq<char>>::empty());
    assert(texts(list@) + parts(path@, current@) =~= parts(path@, current@));
    for c in it: path.chars()
        invariant
            it.seq() == path@,
            it.index() <= path@.len(),
            components(path@) == texts(list@) + parts(path@.skip(it.index() as int), current@),
    {
        let ghost i = it.index() as int;
        let ghost rest = path@.skip(i);
        let ghost before = texts(list@);
        assert(rest[0] == c);
        assert(rest.drop_first() == path@.skip(i + 1));
        if c == '/' {
            let ghost part = current@;
            let ghost later = parts(path@.skip(i + 1), Seq::empty());
            assert(parts(rest, part) == closed_part(part) + later);
            if current.as_str().unicode_len() > 0 {
                list.push(current);
                assert(texts(list@) =~= before + seq![part]);
                current = String::new();
            }
            assert(current@ =~= Seq::<char>::empty());
            assert(texts(list@) =~= before + closed_part(part));
            assert(before + (closed_part(part) + later) =~= texts(list@) + later);
        } else {
            push_char(&mut current, c);
        }
    }
    proof {
        assert(path@.skip(path@.len() as int) =~= Seq::<char>::empty());
    }
    let ghost before = texts(list@);
    if current.as_str().unicode_len() > 0 {
        let ghost part = current@;
        list.push(current);
        assert(texts(list@) =~= before + seq![part]);
    } else {
        assert(before + Seq::<Seq<char>>::empty() =~= before);
    }
    list
}

/// A problem.
pub struct Problem {
    path: String,
}

impl Problem {
    /// The path of the problem's directory.
    pub closed spec fn path(&self) -> Seq<char> {
        self.path@
    }

    /// The title: the last component of the path.
    pub open spec fn title_text(&self) -> Seq<char> {
        components(self.path()).last()
    }

    /// The group: the component before the last.
    pub open spec fn group_text(&self) -> Seq<char> {
        components(self.path())[components(self.path()).len() - 2]
    }

    /// The problem in the directory at `path`.
    pub fn from_path(path: &str) -> (problem: Problem)
        ensures
            problem.path() == path@,
    {
        Problem { path: path.to_owned() }
    }

    /// The number of components of the path.
    pub fn depth(&self) -> (count: usize)
        ensures
            count == components(self.path()).len(),
    {
        let list = path_components(self.path.as_str());
        assert(texts(list@).len() == list@.len());
        list.len()
    }

    /// The title of the problem. The path must have a component.
    pub fn title(&self) -> (title: String)
        requires
            components(self.path()).len() >= 1,
        ensures
            title@ == self.title_text(),
    {
        let list = path_components(self.path.as_str());
        assert(texts(list@).len() == list@.len());
        assert(texts(list@).last() == list@[list@.len() - 1]@);
        list[list.len() - 1].clone()
    }

    /// The group of the problem. The path must have two components.
    pub fn group(&self) -> (group: String)
        requires
            components(self.path()).len() >= 2,
        ensures
            group@ == self.group_text(),
    {
        let list = path_components(self.path.as_str());
        assert(texts(list@).len() == list@.len());
        assert(texts(list@)[list@.len() - 2] == list@[list@.len() - 2]@);
        list[list.len() - 2].clone()
    }

    /// The name of the problem's branch: group, a slash, and the title.
    pub fn branch_name(&self) -> (name: String)
        requires
            components(self.path()).len() >= 2,
        ensures
            name@ == self.group_text() + seq!['/'] + self.title_text(),
    {
        let mut name = self.group();
        push_char(&mut name, '/');
        let title = self.title();
        name.append(title.as_str());
        name
    }

    /// The path of the problem from the root of the course: the folder of
    /// the problems, the group and the title.
    pub fn relative_path(&self) -> (path: String)
        requires
            components(self.path()).len() >= 2,
        ensures
            path@ == problems_folder() + seq!['/'] + self.group_text() + seq!['/']
                + self.title_text(),
    {
        let mut path = String::from_str("problems");
        push_char(&mut path, '/');
        let group = self.group();
        path.append(group.as_str());
        push_char(&mut path, '/');
        let title = self.title();
        path.append(title.as_str());
        path
    }
}

} // verus!
