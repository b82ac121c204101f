//! The index: for each path, the hash, size and modification time seen at
//! the last scan. A file whose size and time are unchanged is not read
//! again.

use vstd::prelude::*;
use vstd::hash_map::StringHashMap;

verus! {

/// A modification time: seconds and nanoseconds since the Unix epoch.
#[derive(Debug, Clone, Copy, PartialEq, Eq, Structural)]
pub struct Mtime {
    pub secs: u64,
    pub nanos: u32,
}

/// What the last scan saw of one file.
#[derive(Debug, Clone, PartialEq, Eq)]
pub struct IndexEntry {
    pub path: String,
    pub hash: String,
    pub size: u64,
    pub mtime: Mtime,
}

/// The entries, one for each path, in the order in which their paths were
/// first inserted.
pub struct Index {
    entries: Vec<IndexEntry>,
    positions: StringHashMap<usize>,
}

impl View for Index {
    type V = Map<Seq<char>, IndexEntry>;

    closed spec fn view(&self) -> Map<Seq<char>, IndexEntry> {
        Map::new(
            |path: Seq<char>| self.positions@.contains_key(path),
            |path: Seq<char>| self.entries@[self.positions@[path] as int],
        )
    }
}

impl Index {
    #[verifier::type_invariant]
    spec fn well_formed(self) -> bool {
        &&& forall|path: Seq<char>| #[trigger]
            self.positions@.contains_key(path) ==> self.positions@[path] < self.entries@.len()
                && self.entries@[self.positions@[path] as int].path@ == path
        &&& forall|i: int|
            0 <= i < self.entries@.len() ==> self.positions@.contains_key(
                (#[trigger] self.entries@[i]).path@,
            ) && self.positions@[self.entries@[i].path@] == i
    }

    /// The entries in the order in which their paths were first inserted.
    pub closed spec fn listing(self) -> Seq<IndexEntry> {
        self.entries@
    }

    /// The entry that a look-up with this path, time and size gives: the
    /// one stored for the path, where both its time and its size agree.
    pub open spec fn hit(self, path: Seq<char>, mtime: Mtime, size: u64) -> Option<IndexEntry> {
        if self@.contains_key(path) && self@[path].mtime == mtime && self@[path].size == size {
            Some(self@[path])
        } else {
            None
        }
    }

    /// The empty index.
    pub fn new() -> (index: Self)
        ensures
            index@ == Map::<Seq<char>, IndexEntry>::empty(),
            index.listing() == Seq::<IndexEntry>::empty(),
    {
        let index = Index { entries: Vec::new(), positions: StringHashMap::new() };
        assert(index@ =~= Map::<Seq<char>, IndexEntry>::empty());
        index
    }

    /// The number of entries.
    pub fn len(&self) -> (n: usize)
        ensures
            n == self.listing().len(),
    {
        self.entries.len()
    }

    /// The entries, each path once.
    pub fn entries(&self) -> (entries: &Vec<IndexEntry>)
        ensures
            entries@ == self.listing(),
            forall|i: int|
                0 <= i < entries@.len() ==> self@.contains_key((#[trigger] entries@[i]).path@)
                    && self@[entries@[i].path@] == entries@[i],
            forall|path: Seq<char>|
                self@.contains_key(path) ==> exists|i: int|
                    0 <= i < entries@.len() && (#[trigger] entries@[i]).path@ == path,
            forall|i: int, j: int|
                0 <= i < j < entries@.len() ==> (#[trigger] entries@[i]).path@ != (
                #[trigger] entries@[j]).path@,
    {
        proof {
            use_type_invariant(self);
            assert forall|path: Seq<char>| self@.contains_key(path) implies exists|i: int|
                0 <= i < self.entries@.len() && (#[trigger] self.entries@[i]).path@ == path by {
                let i = self.positions@[path] as int;
                assert(self.entries@[i].path@ == path);
            }
        }
        &self.entries
    }

    /// Stores `entry` under its path, in place of an entry that the path
    /// had before.
    pub fn insert(&mut self, entry: IndexEntry)
        ensures
            final(self)@ == old(self)@.insert(entry.path@, entry),
    {
        proof {
            use_type_invariant(&*self);
        }
        let ghost before = self@;
        let mut taken = Index::new();
        std::mem::swap(self, &mut taken);
        let Index { mut entries, mut positions } = taken;
        let found = match positions.get(entry.path.as_str()) {
            Some(at) => Some(*at),
            None => None,
        };
        match found {
            Some(at) => {
                entries[at] = entry;
            },
            None => {
                let at = entries.len();
                let key = entry.path.clone();
                entries.push(entry);
                positions.insert(key, at);
            },
        }
        *self = Index { entries, positions };
        assert(self@ =~= before.insert(entry.path@, entry));
    }

    /// The entry of `path`, where the index has one and both its time and
    /// its size are the ones given: the file then counts as unchanged.
    pub fn is_unchanged(&self, path: &str, mtime: Mtime, size: u64) -> (found: Option<&IndexEntry>)
        ensures
            match self.hit(path@, mtime, size) {
                Some(entry) => found == Some(&entry),
                None => found is None,
            },
    {
        proof {
            use_type_invariant(self);
        }
        match self.positions.get(path) {
            Some(at) => {
                let entry = &self.entries[*at];
                if entry.mtime.secs == mtime.secs && entry.mtime.nanos == mtime.nanos && entry.size
                    == size {
                    Some(entry)
                } else {
                    None
                }
            },
            None => None,
        }
    }

    /// The index that holds `entries`, a later entry taking the place of an
    /// earlier one of the same path.
    pub fn from_entries(entries: Vec<IndexEntry>) -> (index: Self)
        ensures
            index@ == map_of(entries@),
    {
        let mut index = Index::new();
        let mut entries = entries;
        let ghost all = entries@;
        let mut i: usize = 0;
        assert(all.take(0) =~= Seq::<IndexEntry>::empty());
        while i < entries.len()
            invariant
                i <= entries.len(),
                entries@.len() == all.len(),
                forall|j: int| i <= j < all.len() ==> entries@[j] == all[j],
                index@ == map_of(all.take(i as int)),
            decreases entries.len() - i,
        {
            let entry = copy_entry(&entries[i]);
            index.insert(entry);
            i += 1;
            proof {
                assert(all.take(i as int).drop_last() =~= all.take(i - 1));
                assert(all.take(i as int).last() == all[i - 1]);
            }
        }
        assert(all.take(all.len() as int) =~= all);
        index
    }
}

impl Default for Index {
    /// The empty index.
    fn default() -> (index: Self)
        ensures
            index@ == Map::<Seq<char>, IndexEntry>::empty(),
    {
        Index::new()
    }
}

/// The map that holds `entries`, a later entry taking the place of an
/// earlier one of the same path.
pub open spec fn map_of(entries: Seq<IndexEntry>) -> Map<Seq<char>, IndexEntry>
    decreases entries.len(),
{
    if entries.len() == 0 {
        Map::empty()
    } else {
        map_of(entries.drop_last()).insert(entries.last().path@, entries.last())
    }
}

fn copy_entry(entry: &IndexEntry) -> (out: IndexEntry)
    ensures
        out == *entry,
{
    IndexEntry {
        path: entry.path.clone(),
        hash: entry.hash.clone(),
        size: entry.size,
        mtime: entry.mtime,
    }
}

} // verus!
