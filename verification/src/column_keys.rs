//! The keys of the columns of a file, by column path.
//!
//! The map is an association list in which no path occurs twice; contracts
//! speak of it as a `Map` from paths to keys.

use crate::encrypt::{EncryptionKey, EncryptionKeyView};
use vstd::prelude::*;

verus! {

/// Whether some entry is filed under `path`.
pub open spec fn has_path(entries: Seq<(String, EncryptionKey)>, path: Seq<char>) -> bool {
    exists|i: int| 0 <= i < entries.len() && (#[trigger] entries[i]).0@ == path
}

/// The place of an entry that is filed under `path`.
pub open spec fn place_of(entries: Seq<(String, EncryptionKey)>, path: Seq<char>) -> int {
    choose|i: int| 0 <= i < entries.len() && (#[trigger] entries[i]).0@ == path
}

/// No two entries are filed under the same path.
pub open spec fn distinct_paths(entries: Seq<(String, EncryptionKey)>) -> bool {
    forall|i: int, j: int|
        0 <= i < entries.len() && 0 <= j < entries.len() && i != j ==> (#[trigger] entries[i]).0@
            != (#[trigger] entries[j]).0@
}

/// The map that a list of entries stands for.
pub open spec fn entries_map(entries: Seq<(String, EncryptionKey)>) -> Map<
    Seq<char>,
    EncryptionKeyView,
> {
    Map::new(
        |path: Seq<char>| has_path(entries, path),
        |path: Seq<char>| entries[place_of(entries, path)].1@,
    )
}

/// In a list without repeated paths, the entry at place `i` is the one that
/// the map holds for its path.
pub proof fn lemma_entry_in_map(entries: Seq<(String, EncryptionKey)>, i: int)
    requires
        distinct_paths(entries),
        0 <= i < entries.len(),
    ensures
        entries_map(entries).contains_key(entries[i].0@),
        entries_map(entries)[entries[i].0@] == entries[i].1@,
{
    let path = entries[i].0@;
    assert(has_path(entries, path));
    let found = place_of(entries, path);
    assert(found == i);
}

/// Two lists that agree place by place, of which the first has no repeated
/// path, stand for the same map, and the second has no repeated path either.
proof fn lemma_same_entries_same_map(
    first: Seq<(String, EncryptionKey)>,
    second: Seq<(String, EncryptionKey)>,
)
    requires
        distinct_paths(first),
        first.len() == second.len(),
        forall|j: int|
            0 <= j < first.len() ==> (#[trigger] second[j]).0@ == first[j].0@ && second[j].1@
                == first[j].1@,
    ensures
        distinct_paths(second),
        entries_map(second) == entries_map(first),
{
    assert(distinct_paths(second)) by {
        assert forall|a: int, b: int|
            0 <= a < second.len() && 0 <= b < second.len() && a != b implies (
        #[trigger] second[a]).0@ != (#[trigger] second[b]).0@ by {
            assert(first[a].0@ != first[b].0@);
        }
    }
    assert forall|p: Seq<char>| has_path(first, p) == has_path(second, p) by {
        if has_path(first, p) {
            let j = place_of(first, p);
            assert(second[j].0@ == p);
        }
        if has_path(second, p) {
            let j = place_of(second, p);
            assert(first[j].0@ == p);
        }
    }
    assert forall|p: Seq<char>| has_path(first, p) implies #[trigger] entries_map(first)[p]
        == entries_map(second)[p] by {
        let j = place_of(first, p);
        lemma_entry_in_map(first, j);
        lemma_entry_in_map(second, j);
    }
    assert(entries_map(second) =~= entries_map(first));
}

/// The place of the entry for `path`, if there is one.
fn find(entries: &Vec<(String, EncryptionKey)>, path: &String) -> (place: Option<usize>)
    ensures
        match place {
            Some(i) => i < entries@.len() && entries@[i as int].0@ == path@,
            None => !has_path(entries@, path@),
        },
{
    let mut i: usize = 0;
    while i < entries.len()
        invariant
            i <= entries@.len(),
            forall|j: int| 0 <= j < i ==> (#[trigger] entries@[j]).0@ != path@,
        decreases entries@.len() - i,
    {
        if entries[i].0 == *path {
            return Some(i);
        }
        i = i + 1;
    }
    None
}

/// The keys of the columns that have a key of their own.
#[derive(Debug)]
pub struct ColumnKeys {
    entries: Vec<(String, EncryptionKey)>,
}

impl View for ColumnKeys {
    type V = Map<Seq<char>, EncryptionKeyView>;

    closed spec fn view(&self) -> Map<Seq<char>, EncryptionKeyView> {
        entries_map(self.entries@)
    }
}

impl Clone for ColumnKeys {
    fn clone(&self) -> (copy: Self)
        ensures
            copy@ == self@,
    {
        proof {
            use_type_invariant(self);
        }
        let mut entries: Vec<(String, EncryptionKey)> = Vec::new();
        let mut i: usize = 0;
        while i < self.entries.len()
            invariant
                i <= self.entries@.len(),
                entries@.len() == i,
                forall|j: int|
                    0 <= j < i ==> (#[trigger] entries@[j]).0@ == self.entries@[j].0@
                        && entries@[j].1@ == self.entries@[j].1@,
            decreases self.entries@.len() - i,
        {
            entries.push((self.entries[i].0.clone(), self.entries[i].1.clone()));
            i = i + 1;
        }
        proof {
            lemma_same_entries_same_map(self.entries@, entries@);
        }
        ColumnKeys { entries }
    }
}

impl PartialEq for ColumnKeys {
    fn eq(&self, other: &Self) -> (equal: bool) {
        self.same_as(other)
    }
}

impl vstd::std_specs::cmp::PartialEqSpecImpl for ColumnKeys {
    open spec fn obeys_eq_spec() -> bool {
        true
    }

    open spec fn eq_spec(&self, other: &Self) -> bool {
        self@ == other@
    }
}

impl ColumnKeys {
    #[verifier::type_invariant]
    spec fn well_formed(self) -> bool {
        distinct_paths(self.entries@)
    }

    /// No keys.
    pub fn new() -> (keys: Self)
        ensures
            keys@ == Map::<Seq<char>, EncryptionKeyView>::empty(),
    {
        let keys = ColumnKeys { entries: Vec::new() };
        assert(keys@ =~= Map::<Seq<char>, EncryptionKeyView>::empty());
        keys
    }

    /// Whether no column has a key of its own.
    pub fn is_empty(&self) -> (empty: bool)
        ensures
            empty == self@.is_empty(),
    {
        proof {
            use_type_invariant(self);
            if self.entries@.len() > 0 {
                lemma_entry_in_map(self.entries@, 0);
            } else {
                assert(self@.dom() =~= Set::<Seq<char>>::empty());
            }
        }
        self.entries.len() == 0
    }

    /// Whether the column at `path` has a key of its own.
    pub fn contains_key(&self, path: &str) -> (found: bool)
        ensures
            found == self@.contains_key(path@),
    {
        find(&self.entries, &path.to_owned()).is_some()
    }

    /// The key of the column at `path`, if it has one of its own.
    pub fn get(&self, path: &str) -> (key: Option<&EncryptionKey>)
        ensures
            match key {
                Some(found) => self@.contains_key(path@) && found@ == self@[path@],
                None => !self@.contains_key(path@),
            },
    {
        proof {
            use_type_invariant(self);
        }
        match find(&self.entries, &path.to_owned()) {
            Some(i) => {
                proof {
                    lemma_entry_in_map(self.entries@, i as int);
                }
                Some(&self.entries[i].1)
            },
            None => None,
        }
    }

    /// Files `key` under `path`, in place of any key that was filed there.
    pub fn insert(self, path: String, key: EncryptionKey) -> (keys: Self)
        ensures
            keys@ == self@.insert(path@, key@),
    {
        proof {
            use_type_invariant(&self);
        }
        let ghost before = self.entries@;
        let mut entries = self.entries;
        match find(&entries, &path) {
            Some(i) => {
                entries[i] = (path, key);
                proof {
                    let after = entries@;
                    assert(distinct_paths(after));
                    assert forall|p: Seq<char>| has_path(after, p) == (has_path(before, p) || p
                        == path@) by {
                        if has_path(before, p) {
                            let j = place_of(before, p);
                            assert(after[j].0@ == p);
                        }
                        if p == path@ {
                            assert(after[i as int].0@ == p);
                        }
                        if has_path(after, p) {
                            let j = place_of(after, p);
                            assert(before[j].0@ == p);
                        }
                    }
                    assert forall|p: Seq<char>| has_path(after, p) implies #[trigger] entries_map(
                        after,
                    )[p] == entries_map(before).insert(path@, key@)[p] by {
                        let j = place_of(after, p);
                        lemma_entry_in_map(after, j);
                        if j != i {
                            lemma_entry_in_map(before, j);
                        }
                    }
                    assert(entries_map(after) =~= entries_map(before).insert(path@, key@));
                }
            },
            None => {
                entries.push((path, key));
                proof {
                    let after = entries@;
                    let last = before.len() as int;
                    assert(distinct_paths(after)) by {
                        assert forall|a: int, b: int|
                            0 <= a < after.len() && 0 <= b < after.len() && a != b implies (
                        #[trigger] after[a]).0@ != (#[trigger] after[b]).0@ by {
                            if a < last && b < last {
                                assert(before[a].0@ != before[b].0@);
                            } else if a < last {
                                assert(before[a].0@ != path@);
                            } else {
                                assert(before[b].0@ != path@);
                            }
                        }
                    }
                    assert forall|p: Seq<char>| has_path(after, p) == (has_path(before, p) || p
                        == path@) by {
                        if has_path(before, p) {
                            let j = place_of(before, p);
                            assert(after[j].0@ == p);
                        }
                        if p == path@ {
                            assert(after[last].0@ == p);
                        }
                        if has_path(after, p) {
                            let j = place_of(after, p);
                            if j < last {
                                assert(before[j].0@ == p);
                            }
                        }
                    }
                    assert forall|p: Seq<char>| has_path(after, p) implies #[trigger] entries_map(
                        after,
                    )[p] == entries_map(before).insert(path@, key@)[p] by {
                        let j = place_of(after, p);
                        lemma_entry_in_map(after, j);
                        if j < last {
                            lemma_entry_in_map(before, j);
                        }
                    }
                    assert(entries_map(after) =~= entries_map(before).insert(path@, key@));
                }
            },
        }
        ColumnKeys { entries }
    }

    /// Whether every key of this map is filed under the same path in `other`.
    fn within(&self, other: &ColumnKeys) -> (within: bool)
        ensures
            within == (forall|path: Seq<char>| #[trigger]
                self@.contains_key(path) ==> other@.contains_key(path) && other@[path]
                    == self@[path]),
    {
        proof {
            use_type_invariant(self);
        }
        let mut i: usize = 0;
        while i < self.entries.len()
            invariant
                i <= self.entries@.len(),
                distinct_paths(self.entries@),
                forall|j: int|
                    0 <= j < i ==> other@.contains_key((#[trigger] self.entries@[j]).0@)
                        && other@[self.entries@[j].0@] == self.entries@[j].1@,
            decreases self.entries@.len() - i,
        {
            proof {
                lemma_entry_in_map(self.entries@, i as int);
            }
            match other.get(self.entries[i].0.as_str()) {
                Some(found) => {
                    if !found.same_as(&self.entries[i].1) {
                        proof {
                            let path = self.entries@[i as int].0@;
                            assert(self@.contains_key(path) && other@[path] != self@[path]);
                        }
                        return false;
                    }
                },
                None => {
                    proof {
                        let path = self.entries@[i as int].0@;
                        assert(self@.contains_key(path) && !other@.contains_key(path));
                    }
                    return false;
                },
            }
            i = i + 1;
        }
        proof {
            assert forall|path: Seq<char>| #[trigger]
                self@.contains_key(path) implies other@.contains_key(path) && other@[path]
                == self@[path] by {
                let j = place_of(self.entries@, path);
                lemma_entry_in_map(self.entries@, j);
            }
        }
        true
    }

    /// Whether two maps hold the same keys under the same paths.
    pub fn same_as(&self, other: &ColumnKeys) -> (same: bool)
        ensures
            same == (self@ == other@),
    {
        let same = self.within(other) && other.within(self);
        proof {
            if same {
                assert(self@ =~= other@);
            }
        }
        same
    }

    /// Whether every key is `len` bytes long.
    pub fn all_keys_have_len(&self, len: usize) -> (all: bool)
        ensures
            all == (forall|path: Seq<char>| #[trigger]
                self@.contains_key(path) ==> self@[path].key.len() == len),
    {
        proof {
            use_type_invariant(self);
        }
        let mut i: usize = 0;
        while i < self.entries.len()
            invariant
                i <= self.entries@.len(),
                distinct_paths(self.entries@),
                forall|j: int| 0 <= j < i ==> (#[trigger] self.entries@[j]).1@.key.len() == len,
            decreases self.entries@.len() - i,
        {
            if self.entries[i].1.key().len() != len {
                proof {
                    lemma_entry_in_map(self.entries@, i as int);
                }
                return false;
            }
            i = i + 1;
        }
        proof {
            assert forall|path: Seq<char>| #[trigger]
                self@.contains_key(path) implies self@[path].key.len() == len by {
                let j = place_of(self.entries@, path);
                lemma_entry_in_map(self.entries@, j);
            }
        }
        true
    }
}

} // verus!
