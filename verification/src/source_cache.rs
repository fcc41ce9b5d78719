//! The source cache: an in-memory mapping from file path to the latest known
//! text, together with the set of paths the most recent compile actually read
//! (its dependency set).

use vstd::prelude::*;

verus! {

/// The mathematical content of an association list, read left to right: a
/// later entry for a key overrides an earlier one.
pub open spec fn entries_map(s: Seq<(String, String)>) -> Map<Seq<char>, Seq<char>>
    decreases s.len(),
{
    if s.len() == 0 {
        Map::empty()
    } else {
        entries_map(s.drop_last()).insert(s.last().0@, s.last().1@)
    }
}

/// The set of path views a list of paths holds.
pub open spec fn path_set(s: Seq<String>) -> Set<Seq<char>>
    decreases s.len(),
{
    if s.len() == 0 {
        Set::empty()
    } else {
        path_set(s.drop_last()).insert(s.last()@)
    }
}

/// What `put` reports back to its caller: whether the stored path is a
/// dependency of the current compile, and whether the text differs from the
/// previously cached text (a missing prior value counts as a change).
#[derive(Clone, Copy, PartialEq, Eq, Structural, Debug)]
pub struct PutOutcome {
    pub is_dependency: bool,
    pub changed: bool,
}

/// Maps each file path to its latest known text and records the dependency
/// set of the current compile.
pub struct SourceCache {
    entries: Vec<(String, String)>,
    deps: Vec<String>,
}

proof fn lemma_path_set_membership(s: Seq<String>, k: Seq<char>)
    ensures
        path_set(s).contains(k) <==> exists|i: int| 0 <= i < s.len() && s[i]@ == k,
    decreases s.len(),
{
    if s.len() > 0 {
        lemma_path_set_membership(s.drop_last(), k);
        if exists|i: int| 0 <= i < s.drop_last().len() && s.drop_last()[i]@ == k {
            let i = choose|i: int| 0 <= i < s.drop_last().len() && s.drop_last()[i]@ == k;
            assert(s[i]@ == k);
        }
        if path_set(s).contains(k) && s.last()@ != k {
            assert(path_set(s.drop_last()).contains(k));
        }
        if exists|i: int| 0 <= i < s.len() && s[i]@ == k {
            let i = choose|i: int| 0 <= i < s.len() && s[i]@ == k;
            if i < s.len() - 1 {
                assert(s.drop_last()[i]@ == k);
            }
        }
    }
}

proof fn lemma_path_set_push(s: Seq<String>, p: String)
    ensures
        path_set(s.push(p)) == path_set(s).insert(p@),
{
    assert(s.push(p).drop_last() =~= s);
}

proof fn lemma_entries_map_key_membership(s: Seq<(String, String)>, k: Seq<char>)
    ensures
        entries_map(s).contains_key(k) <==> exists|i: int| 0 <= i < s.len() && s[i].0@ == k,
    decreases s.len(),
{
    if s.len() > 0 {
        lemma_entries_map_key_membership(s.drop_last(), k);
        if exists|i: int| 0 <= i < s.drop_last().len() && s.drop_last()[i].0@ == k {
            let i = choose|i: int| 0 <= i < s.drop_last().len() && s.drop_last()[i].0@ == k;
            assert(s[i].0@ == k);
        }
        if exists|i: int| 0 <= i < s.len() && s[i].0@ == k {
            let i = choose|i: int| 0 <= i < s.len() && s[i].0@ == k;
            if i < s.len() - 1 {
                assert(s.drop_last()[i].0@ == k);
            }
        }
    }
}

/// With unique keys, the entry at any index gives the map's value for its key.
proof fn lemma_entries_map_index(s: Seq<(String, String)>, i: int)
    requires
        unique_keys(s),
        0 <= i < s.len(),
    ensures
        entries_map(s).contains_key(s[i].0@),
        entries_map(s)[s[i].0@] == s[i].1@,
    decreases s.len(),
{
    if i < s.len() - 1 {
        assert(unique_keys(s.drop_last())) by {
            assert(forall|a: int, b: int|
                0 <= a < b < s.drop_last().len() ==> s.drop_last()[a] == s[a] && s.drop_last()[b]
                    == s[b]);
        }
        lemma_entries_map_index(s.drop_last(), i);
        assert(s.drop_last()[i] == s[i]);
        assert(s[i].0@ != s.last().0@);
    }
}

/// Pairwise distinct key views.
pub open spec fn unique_keys(s: Seq<(String, String)>) -> bool {
    forall|i: int, j: int| 0 <= i < j < s.len() ==> s[i].0@ != s[j].0@
}

proof fn lemma_entries_map_push(s: Seq<(String, String)>, e: (String, String))
    ensures
        entries_map(s.push(e)) == entries_map(s).insert(e.0@, e.1@),
{
    assert(s.push(e).drop_last() =~= s);
}

/// Replacing the text stored at index `i` updates the map at that entry's key.
proof fn lemma_entries_map_update(s: Seq<(String, String)>, i: int, e: (String, String))
    requires
        unique_keys(s),
        0 <= i < s.len(),
        e.0@ == s[i].0@,
    ensures
        entries_map(s.update(i, e)) == entries_map(s).insert(e.0@, e.1@),
    decreases s.len(),
{
    let t = s.update(i, e);
    if i == s.len() - 1 {
        assert(t.drop_last() =~= s.drop_last());
        assert(entries_map(t) == entries_map(s.drop_last()).insert(e.0@, e.1@));
        assert(entries_map(s).insert(e.0@, e.1@) =~= entries_map(s.drop_last()).insert(
            e.0@,
            e.1@,
        ));
    } else {
        assert(unique_keys(s.drop_last())) by {
            assert(forall|a: int, b: int|
                0 <= a < b < s.drop_last().len() ==> s.drop_last()[a] == s[a] && s.drop_last()[b]
                    == s[b]);
        }
        assert(t.drop_last() =~= s.drop_last().update(i, e));
        lemma_entries_map_update(s.drop_last(), i, e);
        assert(t.last() == s.last());
        assert(entries_map(t) == entries_map(s.drop_last()).insert(e.0@, e.1@).insert(
            s.last().0@,
            s.last().1@,
        ));
        assert(s[i].0@ != s.last().0@);
        assert(entries_map(s.drop_last()).insert(e.0@, e.1@).insert(s.last().0@, s.last().1@)
            =~= entries_map(s.drop_last()).insert(s.last().0@, s.last().1@).insert(e.0@, e.1@));
    }
}

impl SourceCache {
    /// The cached texts, as a map from path to text.
    pub closed spec fn source(&self) -> Map<Seq<char>, Seq<char>> {
        entries_map(self.entries@)
    }

    /// The dependency set of the current compile.
    pub closed spec fn dependencies(&self) -> Set<Seq<char>> {
        path_set(self.deps@)
    }

    /// Internal invariant: each path is cached at most once.
    pub closed spec fn wf(&self) -> bool {
        unique_keys(self.entries@)
    }

    /// An empty cache with an empty dependency set.
    pub fn new() -> (r: Self)
        ensures
            r.wf(),
            r.source() == Map::<Seq<char>, Seq<char>>::empty(),
            r.dependencies() == Set::<Seq<char>>::empty(),
    {
        SourceCache { entries: Vec::new(), deps: Vec::new() }
    }

    fn find_entry(&self, path: &String) -> (r: Option<usize>)
        ensures
            match r {
                Some(i) => i < self.entries@.len() && self.entries@[i as int].0@ == path@,
                None => forall|i: int| 0 <= i < self.entries@.len() ==> self.entries@[i].0@ != path@,
            },
    {
        let mut i: usize = 0;
        while i < self.entries.len()
            invariant
                i <= self.entries@.len(),
                forall|j: int| 0 <= j < i ==> self.entries@[j].0@ != path@,
            decreases self.entries@.len() - i,
        {
            if self.entries[i].0 == *path {
                return Some(i);
            }
            i = i + 1;
        }
        None
    }

    /// Is `path` in the dependency set of the current compile?
    pub fn is_dependency(&self, path: &String) -> (r: bool)
        ensures
            r == self.dependencies().contains(path@),
    {
        proof {
            lemma_path_set_membership(self.deps@, path@);
        }
        let mut i: usize = 0;
        while i < self.deps.len()
            invariant
                i <= self.deps@.len(),
                forall|j: int| 0 <= j < i ==> self.deps@[j]@ != path@,
            decreases self.deps@.len() - i,
        {
            if self.deps[i] == *path {
                proof {
                    lemma_path_set_membership(self.deps@, path@);
                    assert(exists|j: int|
                        0 <= j < self.deps@.len() && self.deps@[j]@ == path@) by {
                        assert(self.deps@[i as int]@ == path@);
                    }
                }
                return true;
            }
            i = i + 1;
        }
        false
    }

    /// Stores `text` for `path` unconditionally and reports whether the path
    /// is a tracked dependency and whether the text actually changed versus
    /// the prior value.
    pub fn put(&mut self, path: &String, text: String) -> (r: PutOutcome)
        requires
            old(self).wf(),
        ensures
            final(self).wf(),
            final(self).source() == old(self).source().insert(path@, text@),
            final(self).dependencies() == old(self).dependencies(),
            r.is_dependency == old(self).dependencies().contains(path@),
            r.changed == !(old(self).source().contains_key(path@) && old(self).source()[path@]
                == text@),
    {
        let is_dependency = self.is_dependency(path);
        proof {
            lemma_entries_map_key_membership(self.entries@, path@);
        }
        match self.find_entry(path) {
            Some(i) => {
                proof {
                    lemma_entries_map_index(self.entries@, i as int);
                }
                let changed = !(self.entries[i].1 == text);
                let ghost before = self.entries@;
                self.entries[i] = (path.clone(), text);
                proof {
                    lemma_entries_map_update(before, i as int, self.entries@[i as int]);
                    assert(unique_keys(self.entries@));
                }
                PutOutcome { is_dependency, changed }
            },
            None => {
                let ghost before = self.entries@;
                self.entries.push((path.clone(), text));
                proof {
                    lemma_entries_map_push(before, self.entries@.last());
                }
                PutOutcome { is_dependency, changed: true }
            },
        }
    }

    /// Returns the cached text for `path` if it is present and, either way,
    /// records the path in the dependency set: even a miss during a compile
    /// must be tracked, so that a later edit of that path still invalidates
    /// the preview.
    pub fn get_and_track(&mut self, path: String) -> (r: Option<String>)
        requires
            old(self).wf(),
        ensures
            final(self).wf(),
            final(self).source() == old(self).source(),
            final(self).dependencies() == old(self).dependencies().insert(path@),
            match r {
                Some(t) => old(self).source().contains_key(path@) && t@ == old(self).source()[path@],
                None => !old(self).source().contains_key(path@),
            },
    {
        proof {
            lemma_entries_map_key_membership(self.entries@, path@);
        }
        let r = match self.find_entry(&path) {
            Some(i) => {
                proof {
                    lemma_entries_map_index(self.entries@, i as int);
                }
                Some(self.entries[i].1.clone())
            },
            None => None,
        };
        let tracked_already = self.is_dependency(&path);
        let ghost before = self.deps@;
        if tracked_already {
            proof {
                assert(path_set(before).insert(path@) =~= path_set(before));
            }
        } else {
            self.deps.push(path);
            proof {
                lemma_path_set_push(before, self.deps@.last());
            }
        }
        r
    }

    /// Empties the dependency set; called once per compile attempt, before
    /// any file is read, so stale entries from a previous compile do not
    /// linger and cause spurious reloads.
    pub fn reset_dependencies(&mut self)
        requires
            old(self).wf(),
        ensures
            final(self).wf(),
            final(self).source() == old(self).source(),
            final(self).dependencies() == Set::<Seq<char>>::empty(),
    {
        self.deps.clear();
    }
}

} // verus!
