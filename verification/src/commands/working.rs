//! The comparison of a snapshot with the working tree.

use vstd::prelude::*;
use crate::commands::collect::{counts, hash_by_path, PathTable};
use crate::commands::diff::{
    comparison_heading,
    heading,
    name_line,
    name_lines,
    Change,
    ChangeKind,
    ChangeView,
};
use crate::commands::unified::{
    file_diff_text,
    frame_of,
    generate_unified_diff_with_content,
    hash_of,
    side_bytes,
    side_content,
    side_missing,
    utf8_lossy,
    vec_bytes,
    DiffReport,
};
use crate::error::MoteError;
use crate::storage::objects::{retrieve_failure, ObjectStore};
use crate::storage::snapshots::{FileEntry, Snapshot};
use crate::text::str_eq;

verus! {

/// One file of the working tree that the walk came to.
#[derive(Debug, Clone, PartialEq, Eq)]
pub struct WorkingFile {
    /// The path relative to the root of the tree.
    pub path: String,
    /// The bytes of the file, where they were read.
    pub content: Option<Vec<u8>>,
}

/// A change between a snapshot and the working tree, and the walked file
/// that stands on its new side.
#[derive(Debug, Clone, PartialEq, Eq)]
pub struct WorkingChange {
    pub change: Change,
    /// The position of the file in the walk; none for a deleted path.
    pub file: Option<usize>,
}

/// What a `WorkingChange` says.
pub struct WorkingChangeView {
    pub change: ChangeView,
    pub file: Option<int>,
}

impl View for WorkingChange {
    type V = WorkingChangeView;

    open spec fn view(&self) -> WorkingChangeView {
        WorkingChangeView {
            change: self.change@,
            file: match self.file {
                Some(i) => Some(i as int),
                None => None,
            },
        }
    }
}

/// What a sequence of working changes says.
pub open spec fn working_views(changes: Seq<WorkingChange>) -> Seq<WorkingChangeView> {
    changes.map_values(|c: WorkingChange| c@)
}

/// The change that the walked file at `at` stands for, if any. A file that
/// the snapshot holds is `Modified` where its content has another hash;
/// where it could not be read it is passed over. A file that the snapshot
/// does not hold is `Added`; only the list of names shows it without its
/// content.
pub open spec fn change_of_file(
    snapshot: Map<Seq<char>, Seq<char>>,
    file: WorkingFile,
    at: int,
    name_only: bool,
) -> Option<WorkingChangeView> {
    if snapshot.contains_key(file.path@) {
        match file.content {
            None => None,
            Some(content) => if crate::storage::objects::content_hash(content@)
                != snapshot[file.path@] {
                Some(
                    WorkingChangeView {
                        change: ChangeView {
                            kind: ChangeKind::Modified,
                            path: file.path@,
                            old_hash: Some(snapshot[file.path@]),
                            new_hash: Some(crate::storage::objects::content_hash(content@)),
                        },
                        file: Some(at),
                    },
                )
            } else {
                None
            },
        }
    } else {
        match file.content {
            Some(content) => Some(
                WorkingChangeView {
                    change: ChangeView {
                        kind: ChangeKind::Added,
                        path: file.path@,
                        old_hash: None,
                        new_hash: Some(crate::storage::objects::content_hash(content@)),
                    },
                    file: Some(at),
                },
            ),
            None => if name_only {
                Some(
                    WorkingChangeView {
                        change: ChangeView {
                            kind: ChangeKind::Added,
                            path: file.path@,
                            old_hash: None,
                            new_hash: None,
                        },
                        file: Some(at),
                    },
                )
            } else {
                None
            },
        }
    }
}

/// Whether the comparison needs the content of the walked file `path`: a
/// file that the snapshot holds is always read; one that it does not hold
/// only where contents are compared.
pub fn reads_file(snapshot: &PathTable, path: &str, name_only: bool) -> (reads: bool)
    ensures
        reads == (hash_by_path(snapshot.entries()).contains_key(path@) || !name_only),
{
    snapshot.hash_of(path).is_some() || !name_only
}

/// The paths of the walked files.
pub open spec fn walked_paths(current: Seq<WorkingFile>) -> Set<Seq<char>> {
    Set::new(
        |path: Seq<char>| exists|i: int| 0 <= i < current.len() && (#[trigger] current[i]).path@ == path,
    )
}

/// The modified and added paths among the first `n` walked files.
pub open spec fn tree_side(
    snapshot: Seq<FileEntry>,
    current: Seq<WorkingFile>,
    name_only: bool,
    n: int,
) -> Seq<WorkingChangeView>
    decreases n,
{
    if n <= 0 {
        Seq::empty()
    } else {
        let before = tree_side(snapshot, current, name_only, n - 1);
        match change_of_file(hash_by_path(snapshot), current[n - 1], n - 1, name_only) {
            Some(change) => before.push(change),
            None => before,
        }
    }
}

/// The change that an entry of the snapshot stands for, if any: `Deleted`
/// where the walk did not come to its path.
pub open spec fn change_of_entry(walked: Set<Seq<char>>, entry: FileEntry) -> Option<
    WorkingChangeView,
> {
    if walked.contains(entry.path@) {
        None
    } else {
        Some(
            WorkingChangeView {
                change: ChangeView {
                    kind: ChangeKind::Deleted,
                    path: entry.path@,
                    old_hash: Some(entry.hash@),
                    new_hash: None,
                },
                file: None,
            },
        )
    }
}

/// The deleted paths among the first `n` entries of the snapshot, each
/// path once.
pub open spec fn gone_side(snapshot: Seq<FileEntry>, walked: Set<Seq<char>>, n: int) -> Seq<
    WorkingChangeView,
>
    decreases n,
{
    if n <= 0 {
        Seq::empty()
    } else {
        let before = gone_side(snapshot, walked, n - 1);
        if counts(snapshot, n - 1) && change_of_entry(walked, snapshot[n - 1]) is Some {
            before.push(change_of_entry(walked, snapshot[n - 1])->0)
        } else {
            before
        }
    }
}

/// The set diff of a snapshot and the working tree: first what the tree
/// holds differently or alone, in the order of the walk, then what only the
/// snapshot holds.
pub open spec fn tree_changes(
    snapshot: Seq<FileEntry>,
    current: Seq<WorkingFile>,
    name_only: bool,
) -> Seq<WorkingChangeView> {
    tree_side(snapshot, current, name_only, current.len() as int) + gone_side(
        snapshot,
        walked_paths(current),
        snapshot.len() as int,
    )
}

fn path_set(current: &Vec<WorkingFile>) -> (paths: vstd::hash_set::StringHashSet)
    ensures
        paths@ == walked_paths(current@),
{
    let mut paths = vstd::hash_set::StringHashSet::new();
    let mut i: usize = 0;
    assert(paths@ =~= walked_paths(current@.take(0)));
    while i < current.len()
        invariant
            i <= current.len(),
            paths@ == walked_paths(current@.take(i as int)),
        decreases current.len() - i,
    {
        paths.insert(current[i].path.clone());
        i += 1;
        proof {
            let now = current@.take(i as int);
            let was = current@.take(i - 1);
            assert forall|p: Seq<char>|
                walked_paths(now).contains(p) == (walked_paths(was).contains(p) || p == current@[i
                    - 1].path@) by {
                if walked_paths(now).contains(p) {
                    let k = choose|k: int| 0 <= k < now.len() && (#[trigger] now[k]).path@ == p;
                    if k < i - 1 {
                        assert(was[k] == now[k]);
                    }
                }
                if walked_paths(was).contains(p) {
                    let k = choose|k: int| 0 <= k < was.len() && (#[trigger] was[k]).path@ == p;
                    assert(now[k] == was[k]);
                }
                if p == current@[i - 1].path@ {
                    assert(now[i - 1] == current@[i - 1]);
                }
            }
            assert(paths@ =~= walked_paths(now));
        }
    }
    assert(current@.take(current@.len() as int) =~= current@);
    paths
}

/// The set diff of a snapshot and the working tree.
pub fn working_changes(snapshot: &Vec<FileEntry>, current: &Vec<WorkingFile>, name_only: bool) -> (changes:
    Vec<WorkingChange>)
    ensures
        working_views(changes@) == tree_changes(snapshot@, current@, name_only),
{
    let mut changes: Vec<WorkingChange> = Vec::new();
    let in_snapshot = PathTable::new(snapshot);
    let mut i: usize = 0;
    assert(working_views(changes@) =~= tree_side(snapshot@, current@, name_only, 0));
    while i < current.len()
        invariant
            i <= current.len(),
            in_snapshot.entries() == snapshot@,
            working_views(changes@) == tree_side(snapshot@, current@, name_only, i as int),
        decreases current.len() - i,
    {
        let ghost was = changes@;
        let file = &current[i];
        let found: Option<WorkingChange> = match in_snapshot.hash_of(file.path.as_str()) {
            Some(old_hash) => match &file.content {
                None => None,
                Some(content) => {
                    let hash = ObjectStore::compute_hash(content.as_slice());
                    if !str_eq(hash.as_str(), old_hash) {
                        Some(
                            WorkingChange {
                                change: Change {
                                    kind: ChangeKind::Modified,
                                    path: file.path.clone(),
                                    old_hash: Some(String::from_str(old_hash)),
                                    new_hash: Some(hash),
                                },
                                file: Some(i),
                            },
                        )
                    } else {
                        None
                    }
                },
            },
            None => match &file.content {
                Some(content) => Some(
                    WorkingChange {
                        change: Change {
                            kind: ChangeKind::Added,
                            path: file.path.clone(),
                            old_hash: None,
                            new_hash: Some(ObjectStore::compute_hash(content.as_slice())),
                        },
                        file: Some(i),
                    },
                ),
                None => if name_only {
                    Some(
                        WorkingChange {
                            change: Change {
                                kind: ChangeKind::Added,
                                path: file.path.clone(),
                                old_hash: None,
                                new_hash: None,
                            },
                            file: Some(i),
                        },
                    )
                } else {
                    None
                },
            },
        };
        match found {
            Some(change) => {
                changes.push(change);
                assert(working_views(changes@) =~= working_views(was).push(change@));
            },
            None => {},
        }
        i += 1;
    }
    let walked = path_set(current);
    let ghost first = changes@;
    let mut k: usize = 0;
    assert(working_views(changes@) =~= working_views(first) + gone_side(
        snapshot@,
        walked@,
        0,
    ));
    while k < snapshot.len()
        invariant
            k <= snapshot.len(),
            in_snapshot.entries() == snapshot@,
            walked@ == walked_paths(current@),
            working_views(first) == tree_side(snapshot@, current@, name_only, current@.len() as int),
            working_views(changes@) == working_views(first) + gone_side(
                snapshot@,
                walked@,
                k as int,
            ),
        decreases snapshot.len() - k,
    {
        let ghost was = changes@;
        let entry = &snapshot[k];
        if in_snapshot.counts_at(k) && !walked.contains(entry.path.as_str()) {
            let change = WorkingChange {
                change: Change {
                    kind: ChangeKind::Deleted,
                    path: entry.path.clone(),
                    old_hash: Some(entry.hash.clone()),
                    new_hash: None,
                },
                file: None,
            };
            changes.push(change);
            assert(working_views(changes@) =~= working_views(was).push(change@));
            assert(working_views(changes@) =~= working_views(first) + gone_side(
                snapshot@,
                walked@,
                k as int,
            ).push(change@));
        }
        k += 1;
    }
    changes
}

/// The bytes on the new side of a working change: those of its file,
/// where it has one that was read.
pub open spec fn tree_bytes(current: Seq<WorkingFile>, file: Option<int>) -> Seq<u8> {
    match file {
        Some(i) => if 0 <= i < current.len() {
            match current[i].content {
                Some(content) => content@,
                None => Seq::empty(),
            }
        } else {
            Seq::empty()
        },
        None => Seq::empty(),
    }
}

/// The unified diff of one working change, if the object of its old side
/// can be read back.
pub open spec fn working_text(
    change: WorkingChangeView,
    current: Seq<WorkingFile>,
    stored: Option<Vec<u8>>,
    radius: int,
) -> Option<Seq<char>> {
    match side_bytes(change.change.old_hash, vec_bytes(stored)) {
        None => None,
        Some(old) => Some(
            file_diff_text(
                change.change.path,
                utf8_lossy(old),
                utf8_lossy(tree_bytes(current, change.file)),
                radius,
            ),
        ),
    }
}

/// The unified diffs of the first `n` working changes in a row, if all the
/// objects of their old sides can be read back.
pub open spec fn workings_text(
    changes: Seq<WorkingChangeView>,
    current: Seq<WorkingFile>,
    stored: Seq<Option<Vec<u8>>>,
    radius: int,
    n: int,
) -> Option<Seq<char>>
    decreases n,
{
    if n <= 0 {
        Some(Seq::empty())
    } else {
        match workings_text(changes, current, stored, radius, n - 1) {
            None => None,
            Some(before) => match working_text(changes[n - 1], current, stored[n - 1], radius) {
                None => None,
                Some(text) => Some(before + text),
            },
        }
    }
}

/// The hashes of the first `n` working changes whose old objects were not
/// there.
pub open spec fn workings_missing(
    changes: Seq<WorkingChangeView>,
    stored: Seq<Option<Vec<u8>>>,
    n: int,
) -> Seq<Seq<char>>
    decreases n,
{
    if n <= 0 {
        Seq::empty()
    } else {
        let before = workings_missing(changes, stored, n - 1);
        if side_missing(changes[n - 1].change.old_hash, vec_bytes(stored[n - 1])) {
            before.push(changes[n - 1].change.old_hash->0)
        } else {
            before
        }
    }
}

/// The first of the first `n` working changes whose old side cannot be
/// read back.
pub open spec fn first_unreadable_working(
    changes: Seq<WorkingChangeView>,
    current: Seq<WorkingFile>,
    stored: Seq<Option<Vec<u8>>>,
    radius: int,
    n: int,
) -> int
    decreases n,
{
    if n <= 0 {
        0
    } else if workings_text(changes, current, stored, radius, n - 1) is None {
        first_unreadable_working(changes, current, stored, radius, n - 1)
    } else {
        n - 1
    }
}

/// Whether `e` is the failure that stops the comparison of the first `n`
/// working changes: that of the first old side that cannot be read back.
pub open spec fn working_stops_at(
    changes: Seq<WorkingChangeView>,
    current: Seq<WorkingFile>,
    stored: Seq<Option<Vec<u8>>>,
    radius: int,
    n: int,
    e: MoteError,
) -> bool {
    let k = first_unreadable_working(changes, current, stored, radius, n);
    retrieve_failure(changes[k].change.old_hash->0, vec_bytes(stored[k]), e)
}

proof fn lemma_first_unreadable_working(
    changes: Seq<WorkingChangeView>,
    current: Seq<WorkingFile>,
    stored: Seq<Option<Vec<u8>>>,
    radius: int,
    at: int,
    n: int,
)
    requires
        0 <= at < n,
        workings_text(changes, current, stored, radius, at) is Some,
        workings_text(changes, current, stored, radius, at + 1) is None,
    ensures
        first_unreadable_working(changes, current, stored, radius, n) == at,
    decreases n - at,
{
    if n > at + 1 {
        lemma_working_stays_none(changes, current, stored, radius, at + 1, n - 1);
        lemma_first_unreadable_working(changes, current, stored, radius, at, n - 1);
    }
}

proof fn lemma_working_stays_none(
    changes: Seq<WorkingChangeView>,
    current: Seq<WorkingFile>,
    stored: Seq<Option<Vec<u8>>>,
    radius: int,
    from: int,
    to: int,
)
    requires
        0 <= from <= to,
        workings_text(changes, current, stored, radius, from) is None,
    ensures
        workings_text(changes, current, stored, radius, to) is None,
    decreases to - from,
{
    if from < to {
        lemma_working_stays_none(changes, current, stored, radius, from, to - 1);
    }
}

/// The names of working changes, one line each.
pub open spec fn change_parts(changes: Seq<WorkingChangeView>) -> Seq<ChangeView> {
    changes.map_values(|c: WorkingChangeView| c.change)
}

/// The text of a comparison of a snapshot with the working tree, if all
/// objects that it needs can be read back.
pub open spec fn working_diff_text(
    snapshot: Snapshot,
    current: Seq<WorkingFile>,
    name_only: bool,
    radius: int,
    stored: Seq<Option<Vec<u8>>>,
) -> Option<Seq<char>> {
    let changes = tree_changes(snapshot.files@, current, name_only);
    let head = comparison_heading(
        crate::storage::snapshots::id_prefix(snapshot.id@, 7),
        "working directory"@,
    );
    if name_only {
        Some(head + name_lines(change_parts(changes)))
    } else {
        match workings_text(changes, current, stored, radius, changes.len() as int) {
            Some(text) => Some(head + text),
            None => None,
        }
    }
}

fn working_names(changes: &Vec<WorkingChange>) -> (out: String)
    ensures
        out@ == name_lines(change_parts(working_views(changes@))),
{
    let mut out = String::new();
    let ghost parts = change_parts(working_views(changes@));
    let mut i: usize = 0;
    assert(parts.take(0) =~= Seq::<ChangeView>::empty());
    while i < changes.len()
        invariant
            i <= changes.len(),
            parts == change_parts(working_views(changes@)),
            out@ == name_lines(parts.take(i as int)),
        decreases changes.len() - i,
    {
        let ghost was = out@;
        let letter = match changes[i].change.kind {
            ChangeKind::Modified => 'M',
            ChangeKind::Added => 'A',
            ChangeKind::Deleted => 'D',
        };
        out.push(letter);
        out.push('\t');
        out.append(changes[i].change.path.as_str());
        out.push('\n');
        i += 1;
        proof {
            assert(parts.take(i as int).drop_last() =~= parts.take(i - 1));
            assert(parts.take(i as int).last() == changes@[i - 1].change@);
            assert(out@ =~= was + name_line(changes@[i - 1].change@));
        }
    }
    assert(parts.take(parts.len() as int) =~= parts);
    out
}

/// Compares a snapshot with the working tree. For the unified form
/// `stored` holds, for each change of `working_changes` in order, what lies
/// at the object path of its old side.
pub fn diff_with_working_dir(
    snapshot: &Snapshot,
    current: &Vec<WorkingFile>,
    name_only: bool,
    radius: usize,
    stored: &Vec<Option<Vec<u8>>>,
) -> (r: Result<DiffReport, MoteError>)
    requires
        !name_only ==> radius <= usize::MAX / 2,
        !name_only ==> stored@.len() == tree_changes(snapshot.files@, current@, name_only).len(),
    ensures
        match working_diff_text(*snapshot, current@, name_only, radius as int, stored@) {
            Some(text) => r matches Ok(report) && report.text@ == text,
            None => r matches Err(e) && working_stops_at(
                tree_changes(snapshot.files@, current@, name_only),
                current@,
                stored@,
                radius as int,
                tree_changes(snapshot.files@, current@, name_only).len() as int,
                e,
            ),
        },
        name_only ==> (r matches Ok(report) && report.missing@.len() == 0),
        !name_only ==> (r matches Ok(report) ==> crate::text::texts(report.missing@)
            == workings_missing(
            tree_changes(snapshot.files@, current@, name_only),
            stored@,
            tree_changes(snapshot.files@, current@, name_only).len() as int,
        )),
{
    let changes = working_changes(&snapshot.files, current, name_only);
    let mut text = heading(snapshot.short_id(), "working directory");
    if name_only {
        let names = working_names(&changes);
        text.append(names.as_str());
        return Ok(DiffReport { text, missing: Vec::new() });
    }
    let ghost head = text@;
    let ghost views = working_views(changes@);
    let mut missing: Vec<String> = Vec::new();
    let empty: Vec<u8> = Vec::new();
    let mut k: usize = 0;
    assert(views.len() == changes@.len());
    assert(text@ =~= head + Seq::<char>::empty());
    while k < changes.len()
        invariant
            k <= changes.len(),
            stored@.len() == changes@.len(),
            radius <= usize::MAX / 2,
            empty@.len() == 0,
            !name_only,
            views == working_views(changes@),
            views == tree_changes(snapshot.files@, current@, name_only),
            workings_text(views, current@, stored@, radius as int, k as int) is Some,
            text@ == head + workings_text(views, current@, stored@, radius as int, k as int)->0,
            crate::text::texts(missing@) == workings_missing(views, stored@, k as int),
        decreases changes.len() - k,
    {
        let item = &changes[k];
        let ghost was_missing = missing@;
        let ghost was = text@;
        assert(views[k as int] == item@);
        let old = match side_content(hash_of(&item.change.old_hash), frame_of(&stored[k])) {
            Ok(side) => side,
            Err(e) => {
                proof {
                    lemma_working_stays_none(
                        views,
                        current@,
                        stored@,
                        radius as int,
                        k + 1,
                        changes@.len() as int,
                    );
                    lemma_first_unreadable_working(
                        views,
                        current@,
                        stored@,
                        radius as int,
                        k as int,
                        changes@.len() as int,
                    );
                }
                return Err(e);
            },
        };
        if old.missing {
            match &item.change.old_hash {
                Some(h) => {
                    missing.push(h.clone());
                    assert(crate::text::texts(missing@) =~= crate::text::texts(
                        was_missing,
                    ).push(h@));
                },
                None => {},
            }
        }
        let new_bytes: &[u8] = match item.file {
            Some(i) => if i < current.len() {
                match &current[i].content {
                    Some(content) => content.as_slice(),
                    None => empty.as_slice(),
                }
            } else {
                empty.as_slice()
            },
            None => empty.as_slice(),
        };
        assert(new_bytes@ =~= tree_bytes(current@, item@.file));
        let shown = generate_unified_diff_with_content(
            item.change.path.as_str(),
            old.bytes.as_slice(),
            new_bytes,
            radius,
        );
        text.append(shown.as_str());
        k += 1;
        proof {
            let done = workings_text(views, current@, stored@, radius as int, k as int);
            assert(done is Some);
            assert(text@ =~= head + done->0);
        }
    }
    Ok(DiffReport { text, missing })
}

} // verus!
