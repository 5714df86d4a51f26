//! Column paths: where a column stands in the schema of a file.

use vstd::prelude::*;
use vstd::string::StringExecFns;

verus! {

/// The parts of a path joined by dots.
pub open spec fn dotted(parts: Seq<Seq<char>>) -> Seq<char>
    decreases parts.len(),
{
    if parts.len() == 0 {
        Seq::<char>::empty()
    } else if parts.len() == 1 {
        parts[0]
    } else {
        dotted(parts.drop_last()) + seq!['.'] + parts.last()
    }
}

/// The strings of a list as contracts see them.
pub open spec fn strings_view(strings: Seq<String>) -> Seq<Seq<char>> {
    strings.map_values(|s: String| s@)
}

/// A copy of a list of strings.
pub fn clone_strings(strings: &Vec<String>) -> (copy: Vec<String>)
    ensures
        strings_view(copy@) == strings_view(strings@),
{
    let mut copy: Vec<String> = Vec::new();
    let mut i: usize = 0;
    while i < strings.len()
        invariant
            i <= strings@.len(),
            copy@.len() == i,
            forall|j: int| 0 <= j < i ==> (#[trigger] copy@[j])@ == strings@[j]@,
        decreases strings@.len() - i,
    {
        copy.push(strings[i].clone());
        i = i + 1;
    }
    assert(strings_view(copy@) =~= strings_view(strings@));
    copy
}

/// The path of a column: the names that lead from the root of the schema to
/// the column.
#[derive(Debug, PartialEq, Eq)]
pub struct ColumnPath {
    parts: Vec<String>,
}

impl View for ColumnPath {
    type V = Seq<Seq<char>>;

    closed spec fn view(&self) -> Seq<Seq<char>> {
        strings_view(self.parts@)
    }
}

impl ColumnPath {
    /// The path with the given parts.
    pub fn new(parts: Vec<String>) -> (path: Self)
        ensures
            path@ == strings_view(parts@),
    {
        ColumnPath { parts }
    }

    /// The parts of the path.
    pub fn parts(&self) -> (parts: &Vec<String>)
        ensures
            strings_view(parts@) == self@,
    {
        &self.parts
    }

    /// The path as one string: its parts joined by dots.
    pub fn string(&self) -> (joined: String)
        ensures
            joined@ == dotted(self@),
    {
        let mut joined = String::new();
        let mut i: usize = 0;
        while i < self.parts.len()
            invariant
                i <= self.parts@.len(),
                joined@ == dotted(strings_view(self.parts@).take(i as int)),
            decreases self.parts@.len() - i,
        {
            proof {
                let all = strings_view(self.parts@);
                let next = all.take(i + 1);
                assert(next.drop_last() =~= all.take(i as int));
                assert(next.last() == self.parts@[i as int]@);
                if i == 0 {
                    assert(dotted(all.take(0)) =~= Seq::<char>::empty());
                }
            }
            if i > 0 {
                joined.append(".");
                proof {
                    reveal_strlit(".");
                    assert("."@ =~= seq!['.']);
                }
            }
            joined.append(self.parts[i].as_str());
            i = i + 1;
        }
        proof {
            let all = strings_view(self.parts@);
            assert(all.take(all.len() as int) =~= all);
        }
        joined
    }
}

} // verus!
