//! The scan: from what the walk of the tree found, the files of a snapshot
//! in the order of the walk, and the index brought up to date.

use vstd::prelude::*;
use crate::ignore::IgnoreFilter;
use crate::path_resolver::{is_tree_path, tree_path};
use crate::storage::index::{Index, IndexEntry, Mtime};
use crate::storage::snapshots::FileEntry;
use crate::text::str_eq;

verus! {

/// What the file system says of a walked path, links not followed.
#[derive(Debug, Clone, Copy, PartialEq, Eq)]
pub struct FileMeta {
    pub is_symlink: bool,
    /// The modification time, where it can be had.
    pub mtime: Option<Mtime>,
    pub size: u64,
}

/// What storing a file's content gave.
#[derive(Debug, Clone, PartialEq, Eq)]
pub struct StoredFile {
    pub hash: String,
    pub size: u64,
}

/// One regular file that the walk came to.
#[derive(Debug, Clone, PartialEq, Eq)]
pub struct Walked {
    /// The path relative to the root of the tree, with `/` between the
    /// components.
    pub path: String,
    /// What the file system says of it; nothing where that failed.
    pub metadata: Option<FileMeta>,
    /// What storing its content gave, where the scan asked for that and it
    /// succeeded.
    pub stored: Option<StoredFile>,
}

/// What the scan does with a walked file.
#[derive(Debug, Clone, PartialEq, Eq)]
pub enum ScanStep {
    /// It is passed over.
    Skip,
    /// The index knows it unchanged: this entry is emitted, the file is not
    /// read.
    Cached(FileEntry),
    /// Its content is to be stored.
    Store,
}

/// The entry emitted for a file whose content was stored.
pub open spec fn fresh_entry(path: String, stored: StoredFile) -> FileEntry {
    FileEntry { path, hash: stored.hash, size: stored.size, mode: None }
}

/// The entry emitted for a file that the index knows unchanged.
pub open spec fn cached_entry(path: String, entry: IndexEntry) -> FileEntry {
    FileEntry { path, hash: entry.hash, size: entry.size, mode: None }
}

/// What the index remembers of a file whose content was stored.
pub open spec fn remembered(path: String, stored: StoredFile, mtime: Mtime) -> IndexEntry {
    IndexEntry { path, hash: stored.hash, size: stored.size, mtime }
}

/// The time and size by which the index is asked about a file: none for a
/// file whose path is no path inside the tree, that is passed over, whose
/// metadata or time cannot be had, or that is a symbolic link.
pub open spec fn asked(filter: IgnoreFilter, file: Walked) -> Option<(Mtime, u64)> {
    if !is_tree_path(file.path@) || filter.passes_over(file.path@, false) {
        None
    } else {
        match file.metadata {
            None => None,
            Some(meta) => if meta.is_symlink {
                None
            } else {
                match meta.mtime {
                    None => None,
                    Some(mtime) => Some((mtime, meta.size)),
                }
            },
        }
    }
}

/// The time by which the index is asked about a file.
pub open spec fn asked_time(filter: IgnoreFilter, file: Walked) -> Mtime {
    match asked(filter, file) {
        Some((mtime, _)) => mtime,
        None => Mtime { secs: 0, nanos: 0 },
    }
}

/// What the scan does with `file`, given the index as it stands.
pub open spec fn step_of(
    filter: IgnoreFilter,
    index: Map<Seq<char>, IndexEntry>,
    file: Walked,
) -> ScanStep {
    match asked(filter, file) {
        None => ScanStep::Skip,
        Some((mtime, size)) => if index.contains_key(file.path@) && index[file.path@].mtime
            == mtime && index[file.path@].size == size {
            ScanStep::Cached(cached_entry(file.path, index[file.path@]))
        } else {
            ScanStep::Store
        },
    }
}

/// The entry that the scan emits for `file`, if it emits one: the cached
/// one, or a fresh one where the content was stored.
pub open spec fn emitted(
    filter: IgnoreFilter,
    index: Map<Seq<char>, IndexEntry>,
    file: Walked,
) -> Option<FileEntry> {
    match step_of(filter, index, file) {
        ScanStep::Skip => None,
        ScanStep::Cached(entry) => Some(entry),
        ScanStep::Store => match file.stored {
            Some(stored) => Some(fresh_entry(file.path, stored)),
            None => None,
        },
    }
}

/// The index after the scan has dealt with `file`: a file whose content
/// was stored is remembered.
pub open spec fn index_after(
    filter: IgnoreFilter,
    index: Map<Seq<char>, IndexEntry>,
    file: Walked,
) -> Map<Seq<char>, IndexEntry> {
    match step_of(filter, index, file) {
        ScanStep::Store => match file.stored {
            Some(stored) => index.insert(
                file.path@,
                remembered(file.path, stored, asked_time(filter, file)),
            ),
            None => index,
        },
        _ => index,
    }
}

/// The index after the scan has dealt with all of `files`, in order.
pub open spec fn index_after_all(
    filter: IgnoreFilter,
    index: Map<Seq<char>, IndexEntry>,
    files: Seq<Walked>,
) -> Map<Seq<char>, IndexEntry>
    decreases files.len(),
{
    if files.len() == 0 {
        index
    } else {
        index_after(filter, index_after_all(filter, index, files.drop_last()), files.last())
    }
}

/// The entries that the scan emits for `files`, in the order of the walk.
pub open spec fn collected(
    filter: IgnoreFilter,
    index: Map<Seq<char>, IndexEntry>,
    files: Seq<Walked>,
) -> Seq<FileEntry>
    decreases files.len(),
{
    if files.len() == 0 {
        Seq::empty()
    } else {
        let before = collected(filter, index, files.drop_last());
        match emitted(filter, index_after_all(filter, index, files.drop_last()), files.last()) {
            Some(entry) => before.push(entry),
            None => before,
        }
    }
}

fn copy_opt(s: &Option<String>) -> (out: Option<String>)
    ensures
        out == *s,
{
    match s {
        Some(text) => Some(text.clone()),
        None => None,
    }
}

/// What the scan does with `file`: whether it is passed over, known
/// unchanged to the index, or to be stored.
pub fn scan_step(filter: &IgnoreFilter, index: &Index, file: &Walked) -> (step: ScanStep)
    ensures
        step == step_of(*filter, index@, *file),
{
    if !tree_path(file.path.as_str()) || !filter.walk_files(file.path.as_str(), false) {
        return ScanStep::Skip;
    }
    let meta = match &file.metadata {
        Some(meta) => meta,
        None => {
            return ScanStep::Skip;
        },
    };
    if meta.is_symlink {
        return ScanStep::Skip;
    }
    let mtime = match meta.mtime {
        Some(mtime) => mtime,
        None => {
            return ScanStep::Skip;
        },
    };
    match index.is_unchanged(file.path.as_str(), mtime, meta.size) {
        Some(entry) => ScanStep::Cached(
            FileEntry {
                path: file.path.clone(),
                hash: entry.hash.clone(),
                size: entry.size,
                mode: None,
            },
        ),
        None => ScanStep::Store,
    }
}

/// Deals with one walked file: emits its entry, if it has one, and
/// remembers in the index a file whose content was stored.
pub fn scan_file(filter: &IgnoreFilter, index: &mut Index, file: &Walked) -> (entry: Option<
    FileEntry,
>)
    ensures
        entry == emitted(*filter, old(index)@, *file),
        final(index)@ == index_after(*filter, old(index)@, *file),
{
    match scan_step(filter, index, file) {
        ScanStep::Skip => None,
        ScanStep::Cached(entry) => Some(entry),
        ScanStep::Store => match &file.stored {
            None => None,
            Some(stored) => {
                let mtime = match &file.metadata {
                    Some(meta) => match meta.mtime {
                        Some(mtime) => mtime,
                        None => Mtime { secs: 0, nanos: 0 },
                    },
                    None => Mtime { secs: 0, nanos: 0 },
                };
                index.insert(
                    IndexEntry {
                        path: file.path.clone(),
                        hash: stored.hash.clone(),
                        size: stored.size,
                        mtime,
                    },
                );
                Some(
                    FileEntry {
                        path: file.path.clone(),
                        hash: stored.hash.clone(),
                        size: stored.size,
                        mode: None,
                    },
                )
            },
        },
    }
}

/// The scan: the entries of the walked files in the order of the walk, and
/// the index brought up to date. A file is passed over when its path is
/// absolute or steps back to a parent, when it lies in a directory that no
/// scan enters, when the ignore file matches it, when it is a symbolic
/// link, or when its metadata or content could not be had.
pub fn collect_files(filter: &IgnoreFilter, index: &mut Index, walked: &Vec<Walked>) -> (files: Vec<
    FileEntry,
>)
    ensures
        files@ == collected(*filter, old(index)@, walked@),
        final(index)@ == index_after_all(*filter, old(index)@, walked@),
{
    let mut files: Vec<FileEntry> = Vec::new();
    let ghost start = index@;
    let mut i: usize = 0;
    assert(walked@.take(0) =~= Seq::<Walked>::empty());
    while i < walked.len()
        invariant
            i <= walked.len(),
            files@ == collected(*filter, start, walked@.take(i as int)),
            index@ == index_after_all(*filter, start, walked@.take(i as int)),
        decreases walked.len() - i,
    {
        let entry = scan_file(filter, index, &walked[i]);
        proof {
            let upto = walked@.take(i + 1);
            assert(upto.drop_last() =~= walked@.take(i as int));
            assert(upto.last() == walked@[i as int]);
        }
        match entry {
            Some(entry) => {
                files.push(entry);
            },
            None => {},
        }
        i += 1;
    }
    assert(walked@.take(walked@.len() as int) =~= walked@);
    files
}

/// The hash under which `files` holds `path`: that of the last entry of
/// the path.
pub open spec fn hash_by_path(files: Seq<FileEntry>) -> Map<Seq<char>, Seq<char>>
    decreases files.len(),
{
    if files.len() == 0 {
        Map::empty()
    } else {
        hash_by_path(files.drop_last()).insert(files.last().path@, files.last().hash@)
    }
}

/// Whether `positions` holds, for each path of `files`, the place of the
/// entry that counts for it: the last of the path.
pub closed spec fn is_lookup_of(positions: Map<Seq<char>, usize>, files: Seq<FileEntry>) -> bool {
    &&& forall|path: Seq<char>|
        positions.contains_key(path) == hash_by_path(files).contains_key(path)
    &&& forall|path: Seq<char>| #[trigger]
        positions.contains_key(path) ==> {
            &&& positions[path] < files.len()
            &&& files[positions[path] as int].path@ == path
            &&& files[positions[path] as int].hash@ == hash_by_path(files)[path]
            &&& forall|j: int|
                positions[path] < j < files.len() ==> (#[trigger] files[j]).path@ != path
        }
}

fn path_positions(files: &Vec<FileEntry>) -> (positions: vstd::hash_map::StringHashMap<usize>)
    ensures
        is_lookup_of(positions@, files@),
{
    let mut positions = vstd::hash_map::StringHashMap::<usize>::new();
    let mut i: usize = 0;
    assert(files@.take(0) =~= Seq::<FileEntry>::empty());
    while i < files.len()
        invariant
            i <= files.len(),
            is_lookup_of(positions@, files@.take(i as int)),
        decreases files.len() - i,
    {
        let ghost was = positions@;
        let ghost before = files@.take(i as int);
        positions.insert(files[i].path.clone(), i);
        i += 1;
        proof {
            let now = files@.take(i as int);
            let added = files@[i - 1];
            assert(now.drop_last() =~= before);
            assert(now.last() == added);
            assert(hash_by_path(now) == hash_by_path(before).insert(added.path@, added.hash@));
            assert forall|path: Seq<char>| #[trigger]
                positions@.contains_key(path) implies {
                &&& positions@[path] < now.len()
                &&& now[positions@[path] as int].path@ == path
                &&& now[positions@[path] as int].hash@ == hash_by_path(now)[path]
                &&& forall|j: int|
                    positions@[path] < j < now.len() ==> (#[trigger] now[j]).path@ != path
            } by {
                if path == added.path@ {
                } else {
                    assert(was.contains_key(path));
                    let at = was[path] as int;
                    assert(now[at] == before[at]);
                    assert forall|j: int| at < j < now.len() implies (#[trigger] now[j]).path@
                        != path by {
                        if j < before.len() {
                            assert(now[j] == before[j]);
                        }
                    }
                }
            }
        }
    }
    assert(files@.take(files@.len() as int) =~= files@);
    positions
}

/// Whether the entry at `at` is the last of its path in `files`: the one
/// that counts for the path.
pub open spec fn counts(files: Seq<FileEntry>, at: int) -> bool {
    forall|j: int| at < j < files.len() ==> (#[trigger] files[j]).path@ != files[at].path@
}

/// The files of a manifest, ready to be looked up by path.
pub struct PathTable<'a> {
    files: &'a Vec<FileEntry>,
    positions: vstd::hash_map::StringHashMap<usize>,
}

impl<'a> PathTable<'a> {
    #[verifier::type_invariant]
    spec fn well_formed(self) -> bool {
        is_lookup_of(self.positions@, self.files@)
    }

    /// The files of the table.
    pub closed spec fn entries(self) -> Seq<FileEntry> {
        self.files@
    }

    /// The table of `files`.
    pub fn new(files: &'a Vec<FileEntry>) -> (table: Self)
        ensures
            table.entries() == files@,
    {
        PathTable { files, positions: path_positions(files) }
    }

    /// The hash under which the files hold `path`.
    pub fn hash_of(&self, path: &str) -> (found: Option<&'a str>)
        ensures
            match found {
                Some(hash) => hash_by_path(self.entries()).contains_key(path@) && hash_by_path(
                    self.entries(),
                )[path@] == hash@,
                None => !hash_by_path(self.entries()).contains_key(path@),
            },
    {
        proof {
            use_type_invariant(self);
        }
        match self.positions.get(path) {
            Some(at) => Some(self.files[*at].hash.as_str()),
            None => None,
        }
    }

    /// Whether the entry at `at` is the one that counts for its path.
    pub fn counts_at(&self, at: usize) -> (r: bool)
        requires
            at < self.entries().len(),
        ensures
            r == counts(self.entries(), at as int),
    {
        proof {
            use_type_invariant(self);
            lemma_holds_own_path(self.files@, at as int);
        }
        match self.positions.get(self.files[at].path.as_str()) {
            Some(last) => *last == at,
            None => false,
        }
    }
}

proof fn lemma_holds_own_path(files: Seq<FileEntry>, at: int)
    requires
        0 <= at < files.len(),
    ensures
        hash_by_path(files).contains_key(files[at].path@),
    decreases files.len(),
{
    if at < files.len() - 1 {
        let front = files.drop_last();
        assert(front[at] == files[at]);
        lemma_holds_own_path(front, at);
    }
}

/// Whether every file of `second` stands in `first` with the same hash.
pub open spec fn all_known(first: Seq<FileEntry>, second: Seq<FileEntry>) -> bool {
    forall|i: int|
        0 <= i < second.len() ==> hash_by_path(first).contains_key((#[trigger] second[i]).path@)
            && hash_by_path(first)[second[i].path@] == second[i].hash@
}

/// Whether two lists of files have as many entries and every path of the
/// second has in the first the same hash.
pub fn have_same_file_hashes(files1: &Vec<FileEntry>, files2: &Vec<FileEntry>) -> (same: bool)
    ensures
        same == (files1@.len() == files2@.len() && all_known(files1@, files2@)),
{
    if files1.len() != files2.len() {
        return false;
    }
    let known = PathTable::new(files1);
    let mut i: usize = 0;
    while i < files2.len()
        invariant
            i <= files2.len(),
            known.entries() == files1@,
            forall|k: int|
                0 <= k < i ==> hash_by_path(files1@).contains_key((#[trigger] files2@[k]).path@)
                    && hash_by_path(files1@)[files2@[k].path@] == files2@[k].hash@,
        decreases files2.len() - i,
    {
        match known.hash_of(files2[i].path.as_str()) {
            Some(hash) => {
                if !str_eq(hash, files2[i].hash.as_str()) {
                    return false;
                }
            },
            None => {
                return false;
            },
        }
        i += 1;
    }
    true
}

/// The hash of the last entry of `path` in `files`.
pub fn last_hash<'a>(files: &'a Vec<FileEntry>, path: &str) -> (found: Option<&'a str>)
    ensures
        match found {
            Some(hash) => hash_by_path(files@).contains_key(path@) && hash_by_path(files@)[path@]
                == hash@,
            None => !hash_by_path(files@).contains_key(path@),
        },
{
    let mut i: usize = files.len();
    while i > 0
        invariant
            i <= files.len(),
            forall|j: int| i <= j < files@.len() ==> files@[j].path@ != path@,
        decreases i,
    {
        i -= 1;
        if str_eq(files[i].path.as_str(), path) {
            proof {
                lemma_hash_by_path_last(files@, i as int, path@);
            }
            return Some(files[i].hash.as_str());
        }
    }
    proof {
        lemma_hash_by_path_none(files@, path@);
    }
    None
}

/// A path that no entry holds has no hash.
pub proof fn lemma_hash_by_path_none(files: Seq<FileEntry>, path: Seq<char>)
    requires
        forall|j: int| 0 <= j < files.len() ==> files[j].path@ != path,
    ensures
        !hash_by_path(files).contains_key(path),
    decreases files.len(),
{
    if files.len() > 0 {
        assert forall|j: int| 0 <= j < files.drop_last().len() implies files.drop_last()[j].path@
            != path by {
            assert(files.drop_last()[j] == files[j]);
        }
        lemma_hash_by_path_none(files.drop_last(), path);
        assert(files.last() == files[files.len() - 1]);
    }
}

/// The hash of a path is that of the last entry of the path.
pub proof fn lemma_hash_by_path_last(files: Seq<FileEntry>, at: int, path: Seq<char>)
    requires
        0 <= at < files.len(),
        files[at].path@ == path,
        forall|j: int| at < j < files.len() ==> files[j].path@ != path,
    ensures
        hash_by_path(files).contains_key(path),
        hash_by_path(files)[path] == files[at].hash@,
    decreases files.len(),
{
    if at < files.len() - 1 {
        let front = files.drop_last();
        assert(front[at] == files[at]);
        assert forall|j: int| at < j < front.len() implies front[j].path@ != path by {
            assert(front[j] == files[j]);
        }
        lemma_hash_by_path_last(front, at, path);
        assert(files.last() == files[files.len() - 1]);
    }
}

/// Ignore precedence: no entry of a scan has a path that the scan passes
/// over, and each was walked.
pub proof fn law_ignored_never_collected(
    filter: IgnoreFilter,
    index: Map<Seq<char>, IndexEntry>,
    files: Seq<Walked>,
)
    ensures
        forall|k: int|
            0 <= k < collected(filter, index, files).len() ==> !filter.passes_over(
                (#[trigger] collected(filter, index, files)[k]).path@,
                false,
            ) && exists|i: int|
                0 <= i < files.len() && (#[trigger] files[i]).path@ == collected(
                    filter,
                    index,
                    files,
                )[k].path@,
    decreases files.len(),
{
    if files.len() > 0 {
        let front = files.drop_last();
        let last = files.last();
        law_ignored_never_collected(filter, index, front);
        let before = collected(filter, index, front);
        let all = collected(filter, index, files);
        assert forall|k: int| 0 <= k < all.len() implies !filter.passes_over(
            (#[trigger] all[k]).path@,
            false,
        ) && exists|i: int| 0 <= i < files.len() && (#[trigger] files[i]).path@ == all[k].path@ by {
            if k < before.len() {
                assert(all[k] == before[k]);
                let i = choose|i: int|
                    0 <= i < front.len() && (#[trigger] front[i]).path@ == before[k].path@;
                assert(files[i] == front[i]);
            } else {
                assert(files[files.len() - 1] == last);
            }
        }
    }
}

/// Every entry of a scan has a path inside the tree, relative and without
/// a step back to a parent, and is that of a walked file that is no
/// symbolic link and whose metadata could be had.
pub proof fn law_collected_paths_in_tree(
    filter: IgnoreFilter,
    index: Map<Seq<char>, IndexEntry>,
    files: Seq<Walked>,
)
    ensures
        forall|k: int|
            0 <= k < collected(filter, index, files).len() ==> is_tree_path(
                (#[trigger] collected(filter, index, files)[k]).path@,
            ) && exists|i: int|
                0 <= i < files.len() && (#[trigger] files[i]).path@ == collected(
                    filter,
                    index,
                    files,
                )[k].path@ && files[i].metadata is Some && !files[i].metadata->0.is_symlink,
    decreases files.len(),
{
    if files.len() > 0 {
        let front = files.drop_last();
        let last = files.last();
        law_collected_paths_in_tree(filter, index, front);
        let before = collected(filter, index, front);
        let all = collected(filter, index, files);
        assert forall|k: int| 0 <= k < all.len() implies is_tree_path((#[trigger] all[k]).path@)
            && exists|i: int|
            0 <= i < files.len() && (#[trigger] files[i]).path@ == all[k].path@
                && files[i].metadata is Some && !files[i].metadata->0.is_symlink by {
            if k < before.len() {
                assert(all[k] == before[k]);
                let i = choose|i: int|
                    0 <= i < front.len() && (#[trigger] front[i]).path@ == before[k].path@
                        && front[i].metadata is Some && !front[i].metadata->0.is_symlink;
                assert(files[i] == front[i]);
            } else {
                assert(files[files.len() - 1] == last);
            }
        }
    }
}

/// Two walks of the same files: the same paths with the same metadata.
pub open spec fn same_walk(a: Seq<Walked>, b: Seq<Walked>) -> bool {
    a.len() == b.len() && forall|i: int|
        0 <= i < a.len() ==> (#[trigger] a[i]).path@ == b[i].path@ && a[i].metadata
            == b[i].metadata
}

/// No path stands twice.
pub open spec fn distinct_paths(files: Seq<Walked>) -> bool {
    forall|i: int, j: int|
        0 <= i < j < files.len() ==> (#[trigger] files[i]).path@ != (#[trigger] files[j]).path@
}

/// Whether storing gave the same in both walks.
pub open spec fn stored_alike(a: Option<StoredFile>, b: Option<StoredFile>) -> bool {
    match a {
        Some(x) => b matches Some(y) && x.hash@ == y.hash@ && x.size == y.size,
        None => b is None,
    }
}

/// Whether the index tells the truth about a file: where it knows the file
/// unchanged, storing the content gives what the index holds; where it
/// does not, storing gives the same with and without the index.
pub open spec fn index_truthful_at(
    filter: IgnoreFilter,
    index: Map<Seq<char>, IndexEntry>,
    with_index: Walked,
    without_index: Walked,
) -> bool {
    match step_of(filter, index, with_index) {
        ScanStep::Skip => true,
        ScanStep::Cached(entry) => without_index.stored matches Some(stored) && stored.hash@
            == entry.hash@ && stored.size == entry.size,
        ScanStep::Store => stored_alike(with_index.stored, without_index.stored),
    }
}

/// Whether two entries say the same.
pub open spec fn entry_alike(a: FileEntry, b: FileEntry) -> bool {
    a.path@ == b.path@ && a.hash@ == b.hash@ && a.size == b.size && a.mode is None && b.mode
        is None
}

/// Whether two manifests say the same, entry by entry.
pub open spec fn entries_alike(a: Seq<FileEntry>, b: Seq<FileEntry>) -> bool {
    a.len() == b.len() && forall|k: int| 0 <= k < a.len() ==> entry_alike(#[trigger] a[k], b[k])
}

proof fn lemma_untouched(
    filter: IgnoreFilter,
    index: Map<Seq<char>, IndexEntry>,
    files: Seq<Walked>,
    path: Seq<char>,
)
    requires
        forall|j: int| 0 <= j < files.len() ==> (#[trigger] files[j]).path@ != path,
    ensures
        index_after_all(filter, index, files).contains_key(path) == index.contains_key(path),
        index.contains_key(path) ==> index_after_all(filter, index, files)[path] == index[path],
    decreases files.len(),
{
    if files.len() > 0 {
        let front = files.drop_last();
        assert forall|j: int| 0 <= j < front.len() implies (#[trigger] front[j]).path@ != path by {
            assert(front[j] == files[j]);
        }
        lemma_untouched(filter, index, front, path);
        assert(files[files.len() - 1].path@ != path);
    }
}

/// Index safety: a scan with the index gives the manifest that a scan
/// without any index gives, as long as the index tells the truth about the
/// files that it knows unchanged.
pub proof fn law_index_safety(
    filter: IgnoreFilter,
    index: Map<Seq<char>, IndexEntry>,
    with_index: Seq<Walked>,
    without_index: Seq<Walked>,
)
    requires
        same_walk(with_index, without_index),
        distinct_paths(with_index),
        forall|i: int|
            0 <= i < with_index.len() ==> index_truthful_at(
                filter,
                index,
                #[trigger] with_index[i],
                without_index[i],
            ),
    ensures
        entries_alike(
            collected(filter, index, with_index),
            collected(filter, Map::empty(), without_index),
        ),
    decreases with_index.len(),
{
    if with_index.len() > 0 {
        let a = with_index.drop_last();
        let b = without_index.drop_last();
        let x = with_index.last();
        let y = without_index.last();
        let n = with_index.len() - 1;
        assert forall|i: int| 0 <= i < a.len() implies (#[trigger] a[i]).path@ == b[i].path@
            && a[i].metadata == b[i].metadata by {
            assert(a[i] == with_index[i] && b[i] == without_index[i]);
        }
        assert forall|i: int, j: int| 0 <= i < j < a.len() implies (#[trigger] a[i]).path@ != (
        #[trigger] a[j]).path@ by {
            assert(a[i] == with_index[i] && a[j] == with_index[j]);
        }
        assert forall|i: int| 0 <= i < a.len() implies index_truthful_at(
            filter,
            index,
            #[trigger] a[i],
            b[i],
        ) by {
            assert(a[i] == with_index[i] && b[i] == without_index[i]);
        }
        law_index_safety(filter, index, a, b);
        assert(x == with_index[n] && y == without_index[n]);
        assert(index_truthful_at(filter, index, x, y));
        assert forall|j: int| 0 <= j < a.len() implies (#[trigger] a[j]).path@ != x.path@ by {
            assert(a[j] == with_index[j]);
        }
        assert forall|j: int| 0 <= j < b.len() implies (#[trigger] b[j]).path@ != y.path@ by {
            assert(b[j] == without_index[j] && a[j] == with_index[j]);
            assert(a[j].path@ != x.path@);
        }
        lemma_untouched(filter, index, a, x.path@);
        lemma_untouched(filter, Map::empty(), b, y.path@);
        let index_a = index_after_all(filter, index, a);
        let index_b = index_after_all(filter, Map::<Seq<char>, IndexEntry>::empty(), b);
        assert(asked(filter, x) == asked(filter, y));
        let left = collected(filter, index, with_index);
        let right = collected(filter, Map::empty(), without_index);
        let left_before = collected(filter, index, a);
        let right_before = collected(filter, Map::empty(), b);
        match asked(filter, x) {
            None => {
                assert(left == left_before && right == right_before);
            },
            Some((mtime, size)) => {
                assert(step_of(filter, index_b, y) == ScanStep::Store);
                if index.contains_key(x.path@) && index[x.path@].mtime == mtime
                    && index[x.path@].size == size {
                    let e = cached_entry(x.path, index[x.path@]);
                    assert(step_of(filter, index, x) == ScanStep::Cached(e));
                    assert(step_of(filter, index_a, x) == ScanStep::Cached(e));
                    assert(left == left_before.push(e));
                    assert(right == right_before.push(fresh_entry(y.path, y.stored->0)));
                } else {
                    assert(step_of(filter, index, x) == ScanStep::Store);
                    assert(step_of(filter, index_a, x) == ScanStep::Store);
                    if x.stored is Some {
                        assert(left == left_before.push(fresh_entry(x.path, x.stored->0)));
                        assert(right == right_before.push(fresh_entry(y.path, y.stored->0)));
                    } else {
                        assert(left == left_before && right == right_before);
                    }
                }
            },
        }
    }
}

} // verus!
