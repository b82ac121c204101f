//! The differ: which paths two manifests hold differently, and the text
//! that shows it.

use vstd::prelude::*;
use crate::commands::collect::{counts, hash_by_path, lemma_hash_by_path_last, PathTable};
use crate::commands::unified::{
    changes_missing,
    changes_text,
    render_unified,
    stops_at,
    DiffReport,
    Fetched,
};
use crate::error::MoteError;
use crate::storage::snapshots::{FileEntry, Snapshot};
use crate::text::str_eq;

verus! {


/// How a path differs between two manifests.
#[derive(Debug, Clone, Copy, PartialEq, Eq, Structural)]
pub enum ChangeKind {
    /// Both hold it, with different hashes.
    Modified,
    /// Only the second holds it.
    Added,
    /// Only the first holds it.
    Deleted,
}

/// One path that differs, with its hash on each side that holds it.
#[derive(Debug, Clone, PartialEq, Eq)]
pub struct Change {
    pub kind: ChangeKind,
    pub path: String,
    pub old_hash: Option<String>,
    pub new_hash: Option<String>,
}

/// What a `Change` says.
pub struct ChangeView {
    pub kind: ChangeKind,
    pub path: Seq<char>,
    pub old_hash: Option<Seq<char>>,
    pub new_hash: Option<Seq<char>>,
}

impl View for Change {
    type V = ChangeView;

    open spec fn view(&self) -> ChangeView {
        ChangeView {
            kind: self.kind,
            path: self.path@,
            old_hash: match self.old_hash {
                Some(h) => Some(h@),
                None => None,
            },
            new_hash: match self.new_hash {
                Some(h) => Some(h@),
                None => None,
            },
        }
    }
}

/// What a sequence of changes says.
pub open spec fn change_views(changes: Seq<Change>) -> Seq<ChangeView> {
    changes.map_values(|c: Change| c@)
}

/// The change that an entry of the second manifest stands for, if any:
/// `Modified` where the first holds the path with another hash, `Added`
/// where the first does not hold it.
pub open spec fn change_of_new(old: Map<Seq<char>, Seq<char>>, entry: FileEntry) -> Option<
    ChangeView,
> {
    if old.contains_key(entry.path@) {
        if old[entry.path@] != entry.hash@ {
            Some(
                ChangeView {
                    kind: ChangeKind::Modified,
                    path: entry.path@,
                    old_hash: Some(old[entry.path@]),
                    new_hash: Some(entry.hash@),
                },
            )
        } else {
            None
        }
    } else {
        Some(
            ChangeView {
                kind: ChangeKind::Added,
                path: entry.path@,
                old_hash: None,
                new_hash: Some(entry.hash@),
            },
        )
    }
}

/// The change that an entry of the first manifest stands for, if any:
/// `Deleted` where the second does not hold the path.
pub open spec fn change_of_old(new: Map<Seq<char>, Seq<char>>, entry: FileEntry) -> Option<
    ChangeView,
> {
    if new.contains_key(entry.path@) {
        None
    } else {
        Some(
            ChangeView {
                kind: ChangeKind::Deleted,
                path: entry.path@,
                old_hash: Some(entry.hash@),
                new_hash: None,
            },
        )
    }
}

/// The modified and added paths among the first `n` entries of `new`, in
/// the order of `new`, each path once.
pub open spec fn new_side(old: Seq<FileEntry>, new: Seq<FileEntry>, n: int) -> Seq<ChangeView>
    decreases n,
{
    if n <= 0 {
        Seq::empty()
    } else {
        let before = new_side(old, new, n - 1);
        if counts(new, n - 1) && change_of_new(hash_by_path(old), new[n - 1]) is Some {
            before.push(change_of_new(hash_by_path(old), new[n - 1])->0)
        } else {
            before
        }
    }
}

/// The deleted paths among the first `n` entries of `old`, in the order of
/// `old`, each path once.
pub open spec fn old_side(old: Seq<FileEntry>, new: Seq<FileEntry>, n: int) -> Seq<ChangeView>
    decreases n,
{
    if n <= 0 {
        Seq::empty()
    } else {
        let before = old_side(old, new, n - 1);
        if counts(old, n - 1) && change_of_old(hash_by_path(new), old[n - 1]) is Some {
            before.push(change_of_old(hash_by_path(new), old[n - 1])->0)
        } else {
            before
        }
    }
}

/// The set diff of two manifests: first what the second holds differently
/// or alone, then what only the first holds.
pub open spec fn changes_between(old: Seq<FileEntry>, new: Seq<FileEntry>) -> Seq<ChangeView> {
    new_side(old, new, new.len() as int) + old_side(old, new, old.len() as int)
}

/// The set diff of two manifests.
pub fn diff_files(old: &Vec<FileEntry>, new: &Vec<FileEntry>) -> (changes: Vec<Change>)
    ensures
        change_views(changes@) == changes_between(old@, new@),
{
    let mut changes: Vec<Change> = Vec::new();
    let in_old = PathTable::new(old);
    let in_new = PathTable::new(new);
    let mut i: usize = 0;
    assert(change_views(changes@) =~= new_side(old@, new@, 0));
    while i < new.len()
        invariant
            i <= new.len(),
            in_old.entries() == old@,
            in_new.entries() == new@,
            change_views(changes@) == new_side(old@, new@, i as int),
        decreases new.len() - i,
    {
        let ghost was = changes@;
        let entry = &new[i];
        if in_new.counts_at(i) {
            match in_old.hash_of(entry.path.as_str()) {
                Some(old_hash) => {
                    if !str_eq(old_hash, entry.hash.as_str()) {
                        let change = Change {
                            kind: ChangeKind::Modified,
                            path: entry.path.clone(),
                            old_hash: Some(String::from_str(old_hash)),
                            new_hash: Some(entry.hash.clone()),
                        };
                        changes.push(change);
                        assert(change_views(changes@) =~= change_views(was).push(change@));
                    }
                },
                None => {
                    let change = Change {
                        kind: ChangeKind::Added,
                        path: entry.path.clone(),
                        old_hash: None,
                        new_hash: Some(entry.hash.clone()),
                    };
                    changes.push(change);
                    assert(change_views(changes@) =~= change_views(was).push(change@));
                },
            }
        }
        i += 1;
    }
    let ghost first = changes@;
    let mut k: usize = 0;
    assert(change_views(changes@) =~= change_views(first) + old_side(old@, new@, 0));
    while k < old.len()
        invariant
            k <= old.len(),
            in_old.entries() == old@,
            in_new.entries() == new@,
            change_views(first) == new_side(old@, new@, new@.len() as int),
            change_views(changes@) == change_views(first) + old_side(old@, new@, k as int),
        decreases old.len() - k,
    {
        let ghost was = changes@;
        let entry = &old[k];
        if in_old.counts_at(k) {
            match in_new.hash_of(entry.path.as_str()) {
                Some(_) => {},
                None => {
                    let change = Change {
                        kind: ChangeKind::Deleted,
                        path: entry.path.clone(),
                        old_hash: Some(entry.hash.clone()),
                        new_hash: None,
                    };
                    changes.push(change);
                    assert(change_views(changes@) =~= change_views(was).push(change@));
                    assert(change_views(changes@) =~= change_views(first) + old_side(
                        old@,
                        new@,
                        k as int,
                    ).push(change@));
                },
            }
        }
        k += 1;
    }
    changes
}

/// Whether a record says rightly how its path differs between two
/// manifests, given the hash that each holds for each path.
pub open spec fn classifies(
    old: Map<Seq<char>, Seq<char>>,
    new: Map<Seq<char>, Seq<char>>,
    change: ChangeView,
) -> bool {
    match change.kind {
        ChangeKind::Modified => old.contains_key(change.path) && new.contains_key(change.path)
            && old[change.path] != new[change.path] && change.old_hash == Some(old[change.path])
            && change.new_hash == Some(new[change.path]),
        ChangeKind::Added => !old.contains_key(change.path) && new.contains_key(change.path)
            && change.old_hash is None && change.new_hash == Some(new[change.path]),
        ChangeKind::Deleted => old.contains_key(change.path) && !new.contains_key(change.path)
            && change.old_hash == Some(old[change.path]) && change.new_hash is None,
    }
}

/// Whether two manifests hold `path` differently: only one holds it, or
/// both with different hashes.
pub open spec fn differs(
    old: Map<Seq<char>, Seq<char>>,
    new: Map<Seq<char>, Seq<char>>,
    path: Seq<char>,
) -> bool {
    (old.contains_key(path) != new.contains_key(path)) || (old.contains_key(path)
        && new.contains_key(path) && old[path] != new[path])
}

/// Whether a record of the new side comes from the entry at `at`.
pub open spec fn from_new(old: Seq<FileEntry>, new: Seq<FileEntry>, change: ChangeView, at: int) -> bool {
    0 <= at < new.len() && counts(new, at) && change_of_new(hash_by_path(old), new[at]) == Some(
        change,
    )
}

/// Whether a record of the old side comes from the entry at `at`.
pub open spec fn from_old(old: Seq<FileEntry>, new: Seq<FileEntry>, change: ChangeView, at: int) -> bool {
    0 <= at < old.len() && counts(old, at) && change_of_old(hash_by_path(new), old[at]) == Some(
        change,
    )
}

/// Whether a record of the new side comes from one of the first `n`
/// entries.
pub open spec fn has_new_source(old: Seq<FileEntry>, new: Seq<FileEntry>, n: int, change: ChangeView) -> bool {
    exists|i: int| i < n && #[trigger] from_new(old, new, change, i)
}

/// Whether a record of the old side comes from one of the first `n`
/// entries.
pub open spec fn has_old_source(old: Seq<FileEntry>, new: Seq<FileEntry>, n: int, change: ChangeView) -> bool {
    exists|i: int| i < n && #[trigger] from_old(old, new, change, i)
}

proof fn lemma_new_side(old: Seq<FileEntry>, new: Seq<FileEntry>, n: int)
    requires
        0 <= n <= new.len(),
    ensures
        forall|k: int|
            0 <= k < new_side(old, new, n).len() ==> has_new_source(
                old,
                new,
                n,
                #[trigger] new_side(old, new, n)[k],
            ),
        forall|i: int|
            0 <= i < n && counts(new, i) && change_of_new(hash_by_path(old), new[i]) is Some
                ==> exists|k: int|
                0 <= k < new_side(old, new, n).len() && #[trigger] new_side(old, new, n)[k]
                    == change_of_new(hash_by_path(old), new[i])->0,
        forall|k: int, l: int|
            0 <= k < l < new_side(old, new, n).len() ==> (#[trigger] new_side(old, new, n)[k]).path
                != (#[trigger] new_side(old, new, n)[l]).path,
    decreases n,
{
    if n > 0 {
        lemma_new_side(old, new, n - 1);
        let before = new_side(old, new, n - 1);
        let now = new_side(old, new, n);
        let a = hash_by_path(old);
        let added = counts(new, n - 1) && change_of_new(a, new[n - 1]) is Some;
        assert forall|k: int| 0 <= k < now.len() implies has_new_source(
            old,
            new,
            n,
            #[trigger] now[k],
        ) by {
            if k < before.len() {
                assert(has_new_source(old, new, n - 1, before[k]));
                let i = choose|i: int| i < n - 1 && #[trigger] from_new(old, new, before[k], i);
                assert(now[k] == before[k]);
                assert(from_new(old, new, now[k], i));
            } else {
                assert(from_new(old, new, now[k], n - 1));
            }
        }
        assert forall|i: int|
            0 <= i < n && counts(new, i) && change_of_new(a, new[i]) is Some implies exists|k: int|
            0 <= k < now.len() && #[trigger] now[k] == change_of_new(a, new[i])->0 by {
            if i < n - 1 {
                let k = choose|k: int|
                    0 <= k < before.len() && #[trigger] before[k] == change_of_new(a, new[i])->0;
                assert(now[k] == before[k]);
            } else {
                assert(now[now.len() - 1] == change_of_new(a, new[i])->0);
            }
        }
        assert forall|k: int, l: int| 0 <= k < l < now.len() implies (#[trigger] now[k]).path != (
        #[trigger] now[l]).path by {
            if l < before.len() {
                assert(now[k] == before[k] && now[l] == before[l]);
            } else {
                assert(has_new_source(old, new, n - 1, before[k]));
                let i = choose|i: int| i < n - 1 && #[trigger] from_new(old, new, before[k], i);
                assert(now[k] == before[k]);
                assert(now[k].path == new[i].path@);
                assert(now[l].path == new[n - 1].path@);
                assert(new[n - 1].path@ != new[i].path@);
            }
        }
    }
}

proof fn lemma_old_side(old: Seq<FileEntry>, new: Seq<FileEntry>, n: int)
    requires
        0 <= n <= old.len(),
    ensures
        forall|k: int|
            0 <= k < old_side(old, new, n).len() ==> has_old_source(
                old,
                new,
                n,
                #[trigger] old_side(old, new, n)[k],
            ),
        forall|i: int|
            0 <= i < n && counts(old, i) && change_of_old(hash_by_path(new), old[i]) is Some
                ==> exists|k: int|
                0 <= k < old_side(old, new, n).len() && #[trigger] old_side(old, new, n)[k]
                    == change_of_old(hash_by_path(new), old[i])->0,
        forall|k: int, l: int|
            0 <= k < l < old_side(old, new, n).len() ==> (#[trigger] old_side(old, new, n)[k]).path
                != (#[trigger] old_side(old, new, n)[l]).path,
    decreases n,
{
    if n > 0 {
        lemma_old_side(old, new, n - 1);
        let before = old_side(old, new, n - 1);
        let now = old_side(old, new, n);
        let b = hash_by_path(new);
        assert forall|k: int| 0 <= k < now.len() implies has_old_source(
            old,
            new,
            n,
            #[trigger] now[k],
        ) by {
            if k < before.len() {
                assert(has_old_source(old, new, n - 1, before[k]));
                let i = choose|i: int| i < n - 1 && #[trigger] from_old(old, new, before[k], i);
                assert(now[k] == before[k]);
                assert(from_old(old, new, now[k], i));
            } else {
                assert(from_old(old, new, now[k], n - 1));
            }
        }
        assert forall|i: int|
            0 <= i < n && counts(old, i) && change_of_old(b, old[i]) is Some implies exists|k: int|
            0 <= k < now.len() && #[trigger] now[k] == change_of_old(b, old[i])->0 by {
            if i < n - 1 {
                let k = choose|k: int|
                    0 <= k < before.len() && #[trigger] before[k] == change_of_old(b, old[i])->0;
                assert(now[k] == before[k]);
            } else {
                assert(now[now.len() - 1] == change_of_old(b, old[i])->0);
            }
        }
        assert forall|k: int, l: int| 0 <= k < l < now.len() implies (#[trigger] now[k]).path != (
        #[trigger] now[l]).path by {
            if l < before.len() {
                assert(now[k] == before[k] && now[l] == before[l]);
            } else {
                assert(has_old_source(old, new, n - 1, before[k]));
                let i = choose|i: int| i < n - 1 && #[trigger] from_old(old, new, before[k], i);
                assert(now[k] == before[k]);
                assert(now[k].path == old[i].path@);
                assert(now[l].path == old[n - 1].path@);
                assert(old[n - 1].path@ != old[i].path@);
            }
        }
    }
}

/// The entry that counts for a path that a manifest holds.
proof fn lemma_counting_entry(files: Seq<FileEntry>, path: Seq<char>) -> (at: int)
    requires
        hash_by_path(files).contains_key(path),
    ensures
        0 <= at < files.len(),
        files[at].path@ == path,
        counts(files, at),
        hash_by_path(files)[path] == files[at].hash@,
    decreases files.len(),
{
    if files.last().path@ == path {
        files.len() - 1
    } else {
        let front = files.drop_last();
        let at = lemma_counting_entry(front, path);
        assert(front[at] == files[at]);
        assert forall|j: int| at < j < files.len() implies (#[trigger] files[j]).path@
            != files[at].path@ by {
            if j < front.len() {
                assert(front[j] == files[j]);
            }
        }
        at
    }
}

/// The set diff holds one record for each path that the two manifests hold
/// differently, and none besides; each record says rightly how its path
/// differs.
pub proof fn law_set_diff(old: Seq<FileEntry>, new: Seq<FileEntry>)
    ensures
        forall|k: int|
            0 <= k < changes_between(old, new).len() ==> classifies(
                hash_by_path(old),
                hash_by_path(new),
                #[trigger] changes_between(old, new)[k],
            ),
        forall|path: Seq<char>| #[trigger]
            differs(hash_by_path(old), hash_by_path(new), path) ==> exists|k: int|
                0 <= k < changes_between(old, new).len() && (#[trigger] changes_between(
                    old,
                    new,
                )[k]).path == path,
        forall|k: int, l: int|
            0 <= k < l < changes_between(old, new).len() ==> (#[trigger] changes_between(
                old,
                new,
            )[k]).path != (#[trigger] changes_between(old, new)[l]).path,
{
    let a = hash_by_path(old);
    let b = hash_by_path(new);
    let first = new_side(old, new, new.len() as int);
    let second = old_side(old, new, old.len() as int);
    let all = changes_between(old, new);
    lemma_new_side(old, new, new.len() as int);
    lemma_old_side(old, new, old.len() as int);
    assert forall|k: int| 0 <= k < first.len() implies classifies(a, b, #[trigger] first[k])
        && b.contains_key(first[k].path) by {
        assert(has_new_source(old, new, new.len() as int, first[k]));
        let i = choose|i: int| i < new.len() && #[trigger] from_new(old, new, first[k], i);
        lemma_hash_by_path_last(new, i, new[i].path@);
    }
    assert forall|k: int| 0 <= k < second.len() implies classifies(a, b, #[trigger] second[k])
        && !b.contains_key(second[k].path) by {
        assert(has_old_source(old, new, old.len() as int, second[k]));
        let i = choose|i: int| i < old.len() && #[trigger] from_old(old, new, second[k], i);
        lemma_hash_by_path_last(old, i, old[i].path@);
    }
    assert forall|k: int| 0 <= k < all.len() implies classifies(a, b, #[trigger] all[k]) by {
        if k < first.len() {
            assert(all[k] == first[k]);
        } else {
            assert(all[k] == second[k - first.len()]);
        }
    }
    assert forall|path: Seq<char>| #[trigger] differs(a, b, path) implies exists|k: int|
        0 <= k < all.len() && (#[trigger] all[k]).path == path by {
        if b.contains_key(path) {
            let i = lemma_counting_entry(new, path);
            assert(change_of_new(a, new[i]) is Some);
            let k = choose|k: int|
                0 <= k < first.len() && #[trigger] first[k] == change_of_new(a, new[i])->0;
            assert(all[k] == first[k]);
        } else {
            let i = lemma_counting_entry(old, path);
            assert(change_of_old(b, old[i]) is Some);
            let k = choose|k: int|
                0 <= k < second.len() && #[trigger] second[k] == change_of_old(b, old[i])->0;
            assert(all[first.len() + k] == second[k]);
        }
    }
    assert forall|k: int, l: int| 0 <= k < l < all.len() implies (#[trigger] all[k]).path != (
    #[trigger] all[l]).path by {
        if l < first.len() {
            assert(all[k] == first[k] && all[l] == first[l]);
        } else if k >= first.len() {
            assert(all[k] == second[k - first.len()] && all[l] == second[l - first.len()]);
        } else {
            assert(all[k] == first[k] && all[l] == second[l - first.len()]);
        }
    }
}

/// The letter of a kind of change.
pub open spec fn kind_letter(kind: ChangeKind) -> char {
    match kind {
        ChangeKind::Modified => 'M',
        ChangeKind::Added => 'A',
        ChangeKind::Deleted => 'D',
    }
}

/// One line for a change: the letter of its kind, a tab, the path.
pub open spec fn name_line(change: ChangeView) -> Seq<char> {
    seq![kind_letter(change.kind), '\t'] + change.path + seq!['\n']
}

/// One line for each change, in order.
pub open spec fn name_lines(changes: Seq<ChangeView>) -> Seq<char>
    decreases changes.len(),
{
    if changes.len() == 0 {
        Seq::empty()
    } else {
        name_lines(changes.drop_last()) + name_line(changes.last())
    }
}

/// The name-only output: one line for each change, `M`, `A` or `D`, a tab
/// and the path.
pub fn render_name_only(changes: &Vec<Change>) -> (out: String)
    ensures
        out@ == name_lines(change_views(changes@)),
{
    let mut out = String::new();
    let mut i: usize = 0;
    assert(change_views(changes@).take(0) =~= Seq::<ChangeView>::empty());
    while i < changes.len()
        invariant
            i <= changes.len(),
            out@ == name_lines(change_views(changes@).take(i as int)),
        decreases changes.len() - i,
    {
        let ghost was = out@;
        let letter = match changes[i].kind {
            ChangeKind::Modified => 'M',
            ChangeKind::Added => 'A',
            ChangeKind::Deleted => 'D',
        };
        out.push(letter);
        out.push('\t');
        out.append(changes[i].path.as_str());
        out.push('\n');
        i += 1;
        proof {
            let views = change_views(changes@);
            assert(views.take(i as int).drop_last() =~= views.take(i - 1));
            assert(views.take(i as int).last() == changes@[i - 1]@);
            assert(out@ =~= was + name_line(changes@[i - 1]@));
        }
    }
    assert(change_views(changes@).take(changes@.len() as int) =~= change_views(changes@));
    out
}

/// The first lines of a comparison of two snapshots.
pub open spec fn comparison_heading(from: Seq<char>, to: Seq<char>) -> Seq<char> {
    "Comparing "@ + from + " -> "@ + to + "\n\n"@
}

/// The first lines of a comparison: `Comparing <from> -> <to>` and an
/// empty line.
pub fn heading(from: &str, to: &str) -> (out: String)
    ensures
        out@ == comparison_heading(from@, to@),
{
    let mut out = String::from_str("Comparing ");
    out.append(from);
    out.append(" -> ");
    out.append(to);
    out.append("\n\n");
    out
}

/// The text of a comparison of two snapshots, if all objects that it
/// needs can be read back: the heading, then one line for each change or
/// the unified diffs.
pub open spec fn snapshot_diff_text(
    first: Snapshot,
    second: Snapshot,
    name_only: bool,
    radius: int,
    fetched: Seq<Fetched>,
) -> Option<Seq<char>> {
    let changes = changes_between(first.files@, second.files@);
    let head = comparison_heading(
        crate::storage::snapshots::id_prefix(first.id@, 7),
        crate::storage::snapshots::id_prefix(second.id@, 7),
    );
    if name_only {
        Some(head + name_lines(changes))
    } else {
        match changes_text(changes, fetched, radius, changes.len() as int) {
            Some(text) => Some(head + text),
            None => None,
        }
    }
}

/// Compares two snapshots. For the unified form `fetched` holds, for each
/// change of `diff_files` in order, what lies at the object paths of its
/// two sides.
pub fn diff_snapshots(
    first: &Snapshot,
    second: &Snapshot,
    name_only: bool,
    radius: usize,
    fetched: &Vec<Fetched>,
) -> (r: Result<DiffReport, MoteError>)
    requires
        !name_only ==> radius <= usize::MAX / 2,
        !name_only ==> fetched@.len() == changes_between(first.files@, second.files@).len(),
    ensures
        match snapshot_diff_text(*first, *second, name_only, radius as int, fetched@) {
            Some(text) => r matches Ok(report) && report.text@ == text,
            None => r matches Err(e) && stops_at(
                changes_between(first.files@, second.files@),
                fetched@,
                radius as int,
                changes_between(first.files@, second.files@).len() as int,
                e,
            ),
        },
        name_only ==> (r matches Ok(report) && report.missing@.len() == 0),
        !name_only ==> (r matches Ok(report) ==> crate::text::texts(report.missing@)
            == changes_missing(
            changes_between(first.files@, second.files@),
            fetched@,
            changes_between(first.files@, second.files@).len() as int,
        )),
{
    let changes = diff_files(&first.files, &second.files);
    let mut text = heading(first.short_id(), second.short_id());
    if name_only {
        let names = render_name_only(&changes);
        text.append(names.as_str());
        Ok(DiffReport { text, missing: Vec::new() })
    } else {
        assert(change_views(changes@).len() == changes@.len());
        match render_unified(&changes, fetched, radius) {
            Ok(report) => {
                text.append(report.text.as_str());
                Ok(DiffReport { text, missing: report.missing })
            },
            Err(e) => Err(e),
        }
    }
}

/// The snapshot that a comparison starts from: the one whose id begins
/// with `snapshot_id`, or the newest of the listing where no id is given.
pub fn diff_base(listed: Vec<Snapshot>, snapshot_id: Option<&str>) -> (r: Result<
    Snapshot,
    MoteError,
>)
    ensures
        match snapshot_id {
            Some(id) => match r {
                Ok(found) => crate::storage::snapshots::with_prefix(listed@, id@) == seq![found],
                Err(MoteError::SnapshotNotFound(said)) => crate::storage::snapshots::with_prefix(
                    listed@,
                    id@,
                ).len() == 0 && said@ == id@,
                Err(MoteError::AmbiguousSnapshotId(said)) => crate::storage::snapshots::with_prefix(
                    listed@,
                    id@,
                ).len() > 1 && said@ == id@,
                Err(_) => false,
            },
            None => if listed@.len() == 0 {
                r matches Err(MoteError::ConfigRead(said)) && said@ == "No snapshots found"@
            } else {
                r == Ok::<Snapshot, MoteError>(listed@[0])
            },
        },
{
    match snapshot_id {
        Some(id) => crate::storage::snapshots::SnapshotStore::find_by_id(listed, id),
        None => match crate::storage::snapshots::SnapshotStore::latest(listed) {
            Some(snapshot) => Ok(snapshot),
            None => Err(MoteError::ConfigRead(String::from_str("No snapshots found"))),
        },
    }
}

} // verus!
