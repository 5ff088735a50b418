//! A small in-memory model of the filesystem, and the crash-tolerant
//! relocation algorithm ("safe move") verified over it: rename when the
//! filesystem allows it, otherwise copy, flush, and only then delete the
//! source. The contract proves that no step — and no injected failure —
//! ever leaves fewer than one complete copy of the data. The process
//! around this crate performs the same steps against the real
//! filesystem.

use vstd::prelude::*;
use crate::organizer::OrganizerError;

verus! {

/// One file: its path and its content.
#[derive(Clone, Debug)]
pub struct FsEntry {
    pub path: String,
    pub data: Vec<u8>,
}

/// An in-memory filesystem: a collection of files with distinct paths,
/// viewed as a map from path to content.
#[derive(Debug)]
pub struct MemFs {
    pub entries: Vec<FsEntry>,
}

/// The map a sequence of entries spells, later entries winning.
pub open spec fn map_of(s: Seq<FsEntry>) -> Map<Seq<char>, Seq<u8>>
    decreases s.len(),
{
    if s.len() == 0 {
        Map::empty()
    } else {
        map_of(s.drop_last()).insert(s.last().path@, s.last().data@)
    }
}

proof fn lemma_map_of_contains(s: Seq<FsEntry>, p: Seq<char>)
    ensures
        map_of(s).contains_key(p) <==> exists|i: int| 0 <= i < s.len() && s[i].path@ == p,
    decreases s.len(),
{
    if s.len() > 0 {
        lemma_map_of_contains(s.drop_last(), p);
        assert(forall|i: int| 0 <= i < s.len() - 1 ==> s.drop_last()[i] == s[i]);
        if s.last().path@ == p {
            assert(s[s.len() - 1].path@ == p);
        } else {
            assert(map_of(s).contains_key(p) <==> map_of(s.drop_last()).contains_key(p));
            if exists|i: int| 0 <= i < s.len() && s[i].path@ == p {
                let i = choose|i: int| 0 <= i < s.len() && s[i].path@ == p;
                assert(s.drop_last()[i].path@ == p);
            }
        }
    }
}

proof fn lemma_map_of_lookup(s: Seq<FsEntry>, i: int)
    requires
        0 <= i < s.len(),
        forall|a: int, b: int|
            0 <= a < b < s.len() ==> s[a].path@ != s[b].path@,
    ensures
        map_of(s).contains_key(s[i].path@),
        map_of(s)[s[i].path@] == s[i].data@,
    decreases s.len(),
{
    if i == s.len() - 1 {
        assert(map_of(s) == map_of(s.drop_last()).insert(s.last().path@, s.last().data@));
    } else {
        lemma_map_of_lookup(s.drop_last(), i);
        assert(s.drop_last()[i] == s[i]);
        assert(s.last().path@ != s[i].path@);
    }
}

proof fn lemma_map_of_remove(s: Seq<FsEntry>, i: int)
    requires
        0 <= i < s.len(),
        forall|a: int, b: int|
            0 <= a < b < s.len() ==> s[a].path@ != s[b].path@,
    ensures
        map_of(s.remove(i)) =~= map_of(s).remove(s[i].path@),
    decreases s.len(),
{
    lemma_map_of_contains(s.drop_last(), s[i].path@);
    if i == s.len() - 1 {
        assert(s.remove(i) =~= s.drop_last());
        assert(!map_of(s.drop_last()).contains_key(s[i].path@));
        assert(map_of(s.drop_last()) =~= map_of(s.drop_last()).insert(
            s.last().path@,
            s.last().data@,
        ).remove(s.last().path@));
    } else {
        lemma_map_of_remove(s.drop_last(), i);
        assert(s.remove(i).drop_last() =~= s.drop_last().remove(i));
        assert(s.remove(i).last() == s.last());
    }
}

/// Where an injected failure strikes during a relocation: nowhere, at
/// the initial rename attempt, at the copy, at the flush of the copied
/// data to stable storage, or at the final deletion of the source.
#[derive(Clone, Copy, Debug, PartialEq, Eq, Structural)]
pub enum FailPoint {
    NoFailure,
    AtRename,
    AtCopy,
    AtSync,
    AtRemove,
}

impl MemFs {
    /// Paths are pairwise distinct.
    pub open spec fn wf(self) -> bool {
        forall|a: int, b: int|
            0 <= a < b < self.entries@.len() ==> self.entries@[a].path@ != self.entries@[b].path@
    }

    /// What the filesystem holds: path -> content.
    pub open spec fn contents(self) -> Map<Seq<char>, Seq<u8>> {
        map_of(self.entries@)
    }

    pub fn new() -> (r: MemFs)
        ensures
            r.wf(),
            r.contents() =~= Map::<Seq<char>, Seq<u8>>::empty(),
    {
        MemFs { entries: Vec::new() }
    }

    fn find(&self, path: &str) -> (r: Option<usize>)
        ensures
            match r {
                Some(i) => i < self.entries@.len() && self.entries@[i as int].path@ == path@,
                None => forall|i: int|
                    0 <= i < self.entries@.len() ==> self.entries@[i].path@ != path@,
            },
    {
        let n: usize = self.entries.len();
        let mut i: usize = 0;
        while i < n
            invariant
                n == self.entries@.len(),
                i <= n,
                forall|j: int| 0 <= j < i ==> self.entries@[j].path@ != path@,
            decreases n - i,
        {
            if crate::strutil::str_eq(self.entries[i].path.as_str(), path) {
                return Some(i);
            }
            i = i + 1;
        }
        None
    }

    /// Whether a file exists at `path`.
    pub fn has(&self, path: &str) -> (r: bool)
        ensures
            r == self.contents().contains_key(path@),
    {
        proof {
            lemma_map_of_contains(self.entries@, path@);
        }
        self.find(path).is_some()
    }

    /// The content of the file at `path`, if one exists.
    pub fn read(&self, path: &str) -> (r: Option<&Vec<u8>>)
        requires
            self.wf(),
        ensures
            match r {
                Some(d) => self.contents().contains_key(path@) && d@ == self.contents()[path@],
                None => !self.contents().contains_key(path@),
            },
    {
        proof {
            lemma_map_of_contains(self.entries@, path@);
        }
        match self.find(path) {
            Some(i) => {
                proof {
                    lemma_map_of_lookup(self.entries@, i as int);
                }
                Some(&self.entries[i].data)
            },
            None => None,
        }
    }

    /// Create or overwrite the file at `path` with `data`.
    pub fn write(&mut self, path: &str, data: Vec<u8>)
        requires
            old(self).wf(),
        ensures
            final(self).wf(),
            final(self).contents() =~= old(self).contents().insert(path@, data@),
    {
        let ghost data_view = data@;
        match self.find(path) {
            Some(i) => {
                proof {
                    lemma_map_of_remove(self.entries@, i as int);
                }
                self.entries.remove(i);
                proof {
                    assert(self.entries@ =~= old(self).entries@.remove(i as int));
                }
                self.entries.push(FsEntry { path: path.to_owned(), data });
                proof {
                    assert(self.entries@.drop_last() =~= old(self).entries@.remove(i as int));
                    assert(self.entries@.last().path@ == path@);
                    assert(self.entries@.last().data@ == data_view);
                    assert(final(self).contents() =~= old(self).contents().insert(
                        path@,
                        data_view,
                    ));
                }
            },
            None => {
                self.entries.push(FsEntry { path: path.to_owned(), data });
                proof {
                    assert(self.entries@.drop_last() =~= old(self).entries@);
                    assert(self.entries@.last().path@ == path@);
                    assert(self.entries@.last().data@ == data_view);
                }
            },
        }
    }

    /// Delete the file at `path`, handing its entry back.
    pub fn take(&mut self, path: &str) -> (r: Option<FsEntry>)
        requires
            old(self).wf(),
        ensures
            final(self).wf(),
            final(self).contents() =~= old(self).contents().remove(path@),
            match r {
                Some(e) => old(self).contents().contains_key(path@) && e.path@ == path@ && e.data@
                    == old(self).contents()[path@],
                None => !old(self).contents().contains_key(path@) && *final(self) == *old(self),
            },
    {
        proof {
            lemma_map_of_contains(self.entries@, path@);
        }
        match self.find(path) {
            Some(i) => {
                proof {
                    lemma_map_of_lookup(self.entries@, i as int);
                    lemma_map_of_remove(self.entries@, i as int);
                }
                Some(self.entries.remove(i))
            },
            None => {
                proof {
                    assert(old(self).contents() =~= old(self).contents().remove(path@));
                }
                None
            },
        }
    }
}

} // verus!
