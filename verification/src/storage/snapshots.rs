//! Snapshots: manifests that name, in order, the files of a tree by path
//! and content hash; and the rules of the snapshot store.

use vstd::prelude::*;
use vstd::seq_lib::{to_multiset_insert, to_multiset_build};
use vstd::utf8::encode_utf8;
use crate::error::MoteError;
use crate::path_resolver::{join, join_spec};
use crate::storage::objects::{content_hash, is_content_hash, ObjectStore};
use crate::text::{chars_of, contains_chars, has_substring, str_eq, string_of_range};
use crate::timestamp::Timestamp;

verus! {

/// One file of a snapshot: its path in the tree, with `/` between the
/// components, and the hash and size of its content.
#[derive(Debug, Clone, PartialEq, Eq)]
pub struct FileEntry {
    pub path: String,
    pub hash: String,
    pub size: u64,
    pub mode: Option<String>,
}

impl FileEntry {
    /// A copy of this entry.
    pub fn copy(&self) -> (out: FileEntry)
        ensures
            out == *self,
    {
        let mode = match &self.mode {
            Some(m) => Some(m.clone()),
            None => None,
        };
        FileEntry { path: self.path.clone(), hash: self.hash.clone(), size: self.size, mode }
    }
}

/// A manifest: when it was taken, why, and the files in the order in which
/// the scan gave them.
#[derive(Debug, Clone, PartialEq, Eq)]
pub struct Snapshot {
    pub id: String,
    pub timestamp: Timestamp,
    pub message: Option<String>,
    pub files: Vec<FileEntry>,
    pub trigger: Option<String>,
}

/// The bytes that a snapshot's id is the hash of: the RFC 3339 text of the
/// time, then for each file in order its path and its hash.
pub open spec fn id_preimage(stamp: Seq<char>, files: Seq<FileEntry>) -> Seq<u8>
    decreases files.len(),
{
    if files.len() == 0 {
        encode_utf8(stamp)
    } else {
        id_preimage(stamp, files.drop_last()) + encode_utf8(files.last().path@) + encode_utf8(
            files.last().hash@,
        )
    }
}

/// The id of the snapshot taken at `timestamp` of `files`.
pub open spec fn snapshot_id(timestamp: Timestamp, files: Seq<FileEntry>) -> Seq<char> {
    content_hash(id_preimage(timestamp.rfc3339(), files))
}

/// The first `n` characters of `id`, or all of it where it has fewer.
pub open spec fn id_prefix(id: Seq<char>, n: int) -> Seq<char> {
    if id.len() <= n {
        id
    } else {
        id.take(n)
    }
}

/// The position of the first file with this path.
pub open spec fn position_of(files: Seq<FileEntry>, path: Seq<char>) -> Option<int>
    decreases files.len(),
{
    if files.len() == 0 {
        None
    } else if files[0].path@ == path {
        Some(0)
    } else {
        match position_of(files.drop_first(), path) {
            Some(i) => Some(i + 1),
            None => None,
        }
    }
}

/// `position_of` gives the first position that holds the path, and none
/// only where no position holds it.
pub proof fn lemma_position_of(files: Seq<FileEntry>, path: Seq<char>)
    ensures
        match position_of(files, path) {
            Some(i) => 0 <= i < files.len() && files[i].path@ == path && forall|j: int|
                0 <= j < i ==> files[j].path@ != path,
            None => forall|j: int| 0 <= j < files.len() ==> files[j].path@ != path,
        },
    decreases files.len(),
{
    if files.len() == 0 {
    } else if files[0].path@ == path {
    } else {
        let rest = files.drop_first();
        lemma_position_of(rest, path);
        match position_of(rest, path) {
            Some(i) => {
                assert forall|j: int| 0 <= j < i + 1 implies files[j].path@ != path by {
                    if j > 0 {
                        assert(rest[j - 1] == files[j]);
                    }
                }
            },
            None => {
                assert forall|j: int| 0 <= j < files.len() implies files[j].path@ != path by {
                    if j > 0 {
                        assert(rest[j - 1] == files[j]);
                    }
                }
            },
        }
    }
}

fn append_text(buffer: &mut Vec<u8>, text: &str)
    ensures
        final(buffer)@ == old(buffer)@ + encode_utf8(text@),
{
    let bytes = text.as_bytes();
    let ghost before = buffer@;
    let mut i: usize = 0;
    while i < bytes.len()
        invariant
            i <= bytes.len(),
            bytes@ == encode_utf8(text@),
            buffer@ == before + bytes@.take(i as int),
        decreases bytes.len() - i,
    {
        buffer.push(bytes[i]);
        i += 1;
        assert(buffer@ =~= before + bytes@.take(i as int));
    }
    assert(bytes@.take(bytes@.len() as int) =~= bytes@);
}

impl Snapshot {
    /// The snapshot of `files` taken at `timestamp`. Its id is the hash of
    /// the time and of the files in their order.
    pub fn new(
        files: Vec<FileEntry>,
        message: Option<String>,
        trigger: Option<String>,
        timestamp: Timestamp,
    ) -> (snapshot: Snapshot)
        ensures
            snapshot.id@ == snapshot_id(timestamp, files@),
            is_content_hash(snapshot.id@),
            snapshot.timestamp == timestamp,
            snapshot.message == message,
            snapshot.files == files,
            snapshot.trigger == trigger,
    {
        let id = Self::generate_id(&timestamp, &files);
        Snapshot { id, timestamp, message, files, trigger }
    }

    /// The id of the snapshot taken at `timestamp` of `files`.
    pub fn generate_id(timestamp: &Timestamp, files: &Vec<FileEntry>) -> (id: String)
        ensures
            id@ == snapshot_id(*timestamp, files@),
            is_content_hash(id@),
    {
        let stamp = timestamp.to_rfc3339();
        let mut buffer: Vec<u8> = Vec::new();
        append_text(&mut buffer, stamp.as_str());
        assert(buffer@ =~= encode_utf8(stamp@));
        assert(files@.take(0) =~= Seq::<FileEntry>::empty());
        let mut i: usize = 0;
        while i < files.len()
            invariant
                i <= files.len(),
                buffer@ == id_preimage(stamp@, files@.take(i as int)),
            decreases files.len() - i,
        {
            append_text(&mut buffer, files[i].path.as_str());
            append_text(&mut buffer, files[i].hash.as_str());
            i += 1;
            proof {
                let upto = files@.take(i as int);
                assert(upto.drop_last() =~= files@.take(i - 1));
                assert(upto.last() == files@[i - 1]);
            }
        }
        assert(files@.take(files@.len() as int) =~= files@);
        ObjectStore::compute_hash(buffer.as_slice())
    }

    /// The first seven characters of the id.
    pub fn short_id(&self) -> (short: &str)
        ensures
            short@ == id_prefix(self.id@, 7),
    {
        let len = self.id.as_str().unicode_len();
        if len <= 7 {
            self.id.as_str()
        } else {
            self.id.as_str().substring_char(0, 7)
        }
    }

    /// The number of files.
    pub fn file_count(&self) -> (n: usize)
        ensures
            n == self.files@.len(),
    {
        self.files.len()
    }

    /// The first file with this path, if the snapshot has one.
    pub fn find_file(&self, path: &str) -> (found: Option<&FileEntry>)
        ensures
            match position_of(self.files@, path@) {
                Some(i) => found == Some(&self.files@[i]),
                None => found is None,
            },
    {
        let mut i: usize = 0;
        while i < self.files.len()
            invariant
                i <= self.files.len(),
                forall|j: int| 0 <= j < i ==> self.files@[j].path@ != path@,
            decreases self.files.len() - i,
        {
            if str_eq(self.files[i].path.as_str(), path) {
                proof {
                    lemma_position_of(self.files@, path@);
                }
                return Some(&self.files[i]);
            }
            i += 1;
        }
        proof {
            lemma_position_of(self.files@, path@);
        }
        None
    }
}

/// The name of a snapshot's manifest: the time as `YYYYMMDD_HHMMSS`, the
/// first eight characters of the id, and `.json`.
pub open spec fn manifest_name(snapshot: Snapshot) -> Seq<char> {
    snapshot.timestamp.stamp() + "_"@ + id_prefix(snapshot.id@, 8) + ".json"@
}

/// A name with something before a final `.json`.
pub open spec fn is_manifest(name: Seq<char>) -> bool {
    name.len() > 5 && name.subrange(name.len() - 5, name.len() as int) == ".json"@
}

/// Newest first: no snapshot is later than one that stands before it.
pub open spec fn newest_first(snapshots: Seq<Snapshot>) -> bool {
    forall|i: int, j: int|
        0 <= i < j < snapshots.len() ==> !(#[trigger] snapshots[j]).timestamp.later_than(
            (#[trigger] snapshots[i]).timestamp,
        )
}

/// Where `next` goes into a listing: before the first snapshot that is not
/// later than it.
pub open spec fn place_of(listed: Seq<Snapshot>, next: Snapshot) -> int
    decreases listed.len(),
{
    if listed.len() == 0 || !listed[0].timestamp.later_than(next.timestamp) {
        0
    } else {
        1 + place_of(listed.drop_first(), next)
    }
}

/// The listing of `snapshots`: newest first, and of two snapshots of one
/// time the one first that stands first in `snapshots`.
pub open spec fn listing_of(snapshots: Seq<Snapshot>) -> Seq<Snapshot>
    decreases snapshots.len(),
{
    if snapshots.len() == 0 {
        Seq::empty()
    } else {
        let rest = listing_of(snapshots.drop_first());
        rest.insert(place_of(rest, snapshots[0]), snapshots[0])
    }
}

proof fn lemma_place_of(listed: Seq<Snapshot>, next: Snapshot, at: int)
    requires
        0 <= at <= listed.len(),
        forall|k: int| 0 <= k < at ==> (#[trigger] listed[k]).timestamp.later_than(next.timestamp),
        at < listed.len() ==> !listed[at].timestamp.later_than(next.timestamp),
    ensures
        place_of(listed, next) == at,
    decreases listed.len(),
{
    if listed.len() == 0 || at == 0 {
    } else {
        let rest = listed.drop_first();
        assert(listed[0].timestamp.later_than(next.timestamp));
        assert forall|k: int| 0 <= k < at - 1 implies (#[trigger] rest[k]).timestamp.later_than(
            next.timestamp,
        ) by {
            assert(rest[k] == listed[k + 1]);
        }
        if at - 1 < rest.len() {
            assert(rest[at - 1] == listed[at]);
        }
        lemma_place_of(rest, next, at - 1);
    }
}

/// Whether the id of `snapshot` begins with `partial`.
pub open spec fn id_begins(snapshot: Snapshot, partial: Seq<char>) -> bool {
    partial.is_prefix_of(snapshot.id@)
}

/// The snapshots whose id begins with `partial`, in their order.
pub open spec fn with_prefix(snapshots: Seq<Snapshot>, partial: Seq<char>) -> Seq<Snapshot> {
    snapshots.filter(|s: Snapshot| id_begins(s, partial))
}

/// Whether retention removes the snapshot at position `index` of the
/// listing: it stands beyond the first `max_snapshots`, or it is more than
/// `max_age_days` whole days old at `now`.
pub open spec fn is_expired(
    index: int,
    snapshot: Snapshot,
    now: Timestamp,
    max_snapshots: u32,
    max_age_days: u32,
) -> bool {
    index >= max_snapshots || snapshot.timestamp.days_to(now) > max_age_days
}

/// Whether retention removes the snapshot at position `index` whose age in
/// whole days is `age`.
pub open spec fn expires(index: int, age: i64, max_snapshots: u32, max_age_days: u32) -> bool {
    index >= max_snapshots || age > max_age_days
}

/// Whether `marked` holds, in rising order, exactly the positions that
/// retention removes, `ages` holding the age of the snapshot at each
/// position.
pub open spec fn is_marking(
    marked: Seq<usize>,
    ages: Seq<i64>,
    max_snapshots: u32,
    max_age_days: u32,
) -> bool {
    &&& forall|k: int|
        0 <= k < marked.len() ==> (#[trigger] marked[k]) < ages.len() && expires(
            marked[k] as int,
            ages[marked[k] as int],
            max_snapshots,
            max_age_days,
        )
    &&& forall|k: int, l: int| 0 <= k < l < marked.len() ==> marked[k] < marked[l]
    &&& forall|i: int|
        0 <= i < ages.len() && expires(i, #[trigger] ages[i], max_snapshots, max_age_days)
            ==> marked.contains(i as usize)
}

/// Where the manifests lie.
#[derive(Debug, Clone, PartialEq, Eq)]
pub struct SnapshotStore {
    snapshots_dir: String,
}

impl SnapshotStore {
    /// The directory that holds the manifests.
    pub closed spec fn dir(self) -> Seq<char> {
        self.snapshots_dir@
    }

    /// The store of the manifests in `snapshots_dir`.
    pub fn new(snapshots_dir: String) -> (store: Self)
        ensures
            store.dir() == snapshots_dir@,
    {
        SnapshotStore { snapshots_dir }
    }

    /// The directory that holds the manifests.
    pub fn snapshots_dir(&self) -> (dir: &str)
        ensures
            dir@ == self.dir(),
    {
        self.snapshots_dir.as_str()
    }

    /// The name of the manifest of `snapshot`.
    pub fn file_name(snapshot: &Snapshot) -> (name: String)
        ensures
            name@ == manifest_name(*snapshot),
    {
        let mut name = snapshot.timestamp.to_stamp();
        name.append("_");
        let len = snapshot.id.as_str().unicode_len();
        if len <= 8 {
            name.append(snapshot.id.as_str());
        } else {
            name.append(snapshot.id.as_str().substring_char(0, 8));
        }
        name.append(".json");
        name
    }

    /// The file to write the manifest of `snapshot` to.
    pub fn save(&self, snapshot: &Snapshot) -> (path: String)
        ensures
            path@ == join_spec(self.dir(), manifest_name(*snapshot)),
    {
        let name = Self::file_name(snapshot);
        join(self.snapshots_dir.as_str(), name.as_str())
    }

    /// Whether a file of the snapshots directory is read as a manifest.
    pub fn is_manifest_name(name: &str) -> (r: bool)
        ensures
            r == is_manifest(name@),
    {
        let chars = chars_of(name);
        let suffix = chars_of(".json");
        proof {
            reveal_strlit(".json");
        }
        if chars.len() <= 5 {
            return false;
        }
        crate::text::matches_at(&chars, &suffix, chars.len() - 5)
    }

    /// The listing: the snapshots that were read, newest first; snapshots of
    /// one time keep the order in which they were read.
    pub fn list(snapshots: Vec<Snapshot>) -> (listed: Vec<Snapshot>)
        ensures
            listed@ == listing_of(snapshots@),
            newest_first(listed@),
            listed@.to_multiset() == snapshots@.to_multiset(),
    {
        let mut rest = snapshots;
        let mut listed: Vec<Snapshot> = Vec::new();
        let ghost all = rest@;
        proof {
            broadcast use vstd::multiset::group_multiset_axioms;

            vstd::seq_lib::lemma_multiset_commutative(listed@, rest@);
            assert(listed@ + rest@ =~= all);
        }
        assert(all.skip(rest@.len() as int) =~= Seq::<Snapshot>::empty());
        while rest.len() > 0
            invariant
                rest@ == all.take(rest@.len() as int),
                rest@.len() <= all.len(),
                listed@ == listing_of(all.skip(rest@.len() as int)),
                newest_first(listed@),
                listed@.to_multiset().add(rest@.to_multiset()) == all.to_multiset(),
            decreases rest.len(),
        {
            let ghost before_rest = rest@;
            let ghost before_listed = listed@;
            let next = rest.pop().unwrap();
            let mut at: usize = 0;
            while at < listed.len() && listed[at].timestamp.is_after(&next.timestamp)
                invariant
                    at <= listed.len(),
                    forall|k: int|
                        0 <= k < at ==> (#[trigger] listed@[k]).timestamp.later_than(
                            next.timestamp,
                        ),
                decreases listed.len() - at,
            {
                at += 1;
            }
            listed.insert(at, next);
            proof {
                broadcast use vstd::multiset::group_multiset_axioms;

                lemma_place_of(before_listed, next, at as int);
                let suffix = all.skip(rest@.len() as int);
                assert(suffix[0] == next);
                assert(suffix.drop_first() =~= all.skip(before_rest.len() as int));
                assert(rest@ =~= all.take(rest@.len() as int));

                to_multiset_insert(before_listed, at as int, next);
                assert(before_rest =~= rest@.push(next));
                to_multiset_build(rest@, next);
                assert(listed@.to_multiset().add(rest@.to_multiset()) =~= all.to_multiset());
                assert forall|i: int, j: int| 0 <= i < j < listed@.len() implies !(
                #[trigger] listed@[j]).timestamp.later_than((#[trigger] listed@[i]).timestamp) by {
                    if j < at {
                        assert(listed@[i] == before_listed[i] && listed@[j] == before_listed[j]);
                    } else if j == at {
                        assert(listed@[i] == before_listed[i]);
                    } else if i < at {
                        assert(listed@[i] == before_listed[i] && listed@[j] == before_listed[j
                            - 1]);
                    } else if i == at {
                        assert(listed@[j] == before_listed[j - 1]);
                        assert(!before_listed[at as int].timestamp.later_than(next.timestamp));
                    } else {
                        assert(listed@[i] == before_listed[i - 1] && listed@[j] == before_listed[j
                            - 1]);
                    }
                }
            }
        }
        proof {
            broadcast use vstd::multiset::group_multiset_axioms;

            vstd::seq_lib::lemma_multiset_commutative(listed@, rest@);
            assert(listed@ + rest@ =~= listed@);
            assert(all.skip(0) =~= all);
        }
        listed
    }

    /// The one snapshot whose id begins with `partial`.
    pub fn find_by_id(snapshots: Vec<Snapshot>, partial: &str) -> (r: Result<Snapshot, MoteError>)
        ensures
            match r {
                Ok(found) => with_prefix(snapshots@, partial@) == seq![found],
                Err(MoteError::SnapshotNotFound(id)) => with_prefix(snapshots@, partial@).len()
                    == 0 && id@ == partial@,
                Err(MoteError::AmbiguousSnapshotId(id)) => with_prefix(snapshots@, partial@).len()
                    > 1 && id@ == partial@,
                Err(_) => false,
            },
    {
        let mut snapshots = snapshots;
        let ghost all = snapshots@;
        let ghost pred = |s: Snapshot| id_begins(s, partial@);
        let mut first: usize = 0;
        let mut count: usize = 0;
        let mut i: usize = 0;
        assert(all.take(0) =~= Seq::<Snapshot>::empty());
        assert(all.take(0).filter(pred) =~= Seq::<Snapshot>::empty()) by {
            reveal(Seq::filter);
        }
        while i < snapshots.len()
            invariant
                i <= snapshots.len(),
                snapshots@ == all,
                pred == |s: Snapshot| id_begins(s, partial@),
                count <= i,
                all.take(i as int).filter(pred).len() == count,
                count > 0 ==> first < i && all.take(i as int).filter(pred)[0] == all[first as int],
            decreases snapshots.len() - i,
        {
            let hit = crate::text::starts_with(snapshots[i].id.as_str(), partial);
            proof {
                let upto = all.take(i as int);
                assert(all.take(i + 1) =~= upto.push(all[i as int]));
                upto.lemma_filter_push(all[i as int], pred);
                assert(pred(all[i as int]) == hit);
            }
            if hit {
                if count == 0 {
                    first = i;
                }
                count += 1;
            }
            i += 1;
        }
        assert(all.take(all.len() as int) =~= all);
        if count == 0 {
            Err(MoteError::SnapshotNotFound(String::from_str(partial)))
        } else if count == 1 {
            let found = snapshots.swap_remove(first);
            assert(with_prefix(all, partial@) =~= seq![found]);
            Ok(found)
        } else {
            Err(MoteError::AmbiguousSnapshotId(String::from_str(partial)))
        }
    }

    /// The head of the listing.
    pub fn latest(listed: Vec<Snapshot>) -> (r: Option<Snapshot>)
        ensures
            listed@.len() == 0 ==> r is None,
            listed@.len() > 0 ==> r == Some(listed@[0]),
    {
        let mut listed = listed;
        if listed.len() == 0 {
            None
        } else {
            Some(listed.swap_remove(0))
        }
    }

    /// The ages in whole days at `now` of the snapshots of the listing, in
    /// their order.
    pub fn ages(listed: &Vec<Snapshot>, now: &Timestamp) -> (ages: Vec<i64>)
        ensures
            ages@.len() == listed@.len(),
            forall|i: int|
                0 <= i < listed@.len() ==> #[trigger] ages@[i] == listed@[i].timestamp.days_to(
                    *now,
                ),
    {
        let mut ages: Vec<i64> = Vec::new();
        let mut i: usize = 0;
        while i < listed.len()
            invariant
                i <= listed.len(),
                ages@.len() == i,
                forall|j: int|
                    0 <= j < i ==> #[trigger] ages@[j] == listed@[j].timestamp.days_to(*now),
            decreases listed.len() - i,
        {
            ages.push(listed[i].timestamp.days_until(now));
            i += 1;
        }
        ages
    }

    /// Retention by position and age: the positions to remove, in rising
    /// order. The snapshot at a position is removed when the position is
    /// not among the first `max_snapshots`, or when its age, `ages` holding
    /// the ages in whole days, is more than `max_age_days`.
    pub fn mark_expired(ages: &Vec<i64>, max_snapshots: u32, max_age_days: u32) -> (marked: Vec<
        usize,
    >)
        ensures
            is_marking(marked@, ages@, max_snapshots, max_age_days),
    {
        let mut marked: Vec<usize> = Vec::new();
        let mut i: usize = 0;
        while i < ages.len()
            invariant
                i <= ages.len(),
                is_marking(marked@, ages@.take(i as int), max_snapshots, max_age_days),
            decreases ages.len() - i,
        {
            let ghost before = marked@;
            let ghost upto = ages@.take(i as int);
            let ghost next = ages@.take(i + 1);
            proof {
                assert forall|j: int| 0 <= j < i implies next[j] == upto[j] by {}
                assert(next[i as int] == ages@[i as int]);
            }
            if i >= max_snapshots as usize || ages[i] > max_age_days as i64 {
                marked.push(i);
                proof {
                    assert(marked@[marked@.len() - 1] == i);
                    assert forall|j: int|
                        0 <= j < next.len() && expires(
                            j,
                            next[j],
                            max_snapshots,
                            max_age_days,
                        ) implies marked@.contains(j as usize) by {
                        if j < i {
                            assert(expires(j, upto[j], max_snapshots, max_age_days));
                            let k = choose|k: int| 0 <= k < before.len() && before[k] == j as usize;
                            assert(marked@[k] == j as usize);
                        } else {
                            assert(marked@[marked@.len() - 1] == j as usize);
                        }
                    }
                    assert forall|k: int| 0 <= k < marked@.len() implies (#[trigger] marked@[k])
                        < next.len() && expires(
                        marked@[k] as int,
                        next[marked@[k] as int],
                        max_snapshots,
                        max_age_days,
                    ) by {
                        if k < before.len() {
                            assert(marked@[k] == before[k]);
                        }
                    }
                }
            } else {
                proof {
                    assert forall|j: int|
                        0 <= j < next.len() && expires(
                            j,
                            next[j],
                            max_snapshots,
                            max_age_days,
                        ) implies marked@.contains(j as usize) by {
                        assert(j < i);
                        assert(expires(j, upto[j], max_snapshots, max_age_days));
                    }
                }
            }
            i += 1;
        }
        assert(ages@.take(ages@.len() as int) =~= ages@);
        marked
    }

    /// Retention: the positions in the listing of the snapshots to remove,
    /// in rising order.
    pub fn cleanup(
        listed: &Vec<Snapshot>,
        now: &Timestamp,
        max_snapshots: u32,
        max_age_days: u32,
    ) -> (marked: Vec<usize>)
        ensures
            forall|k: int|
                0 <= k < marked@.len() ==> (#[trigger] marked@[k]) < listed@.len() && is_expired(
                    marked@[k] as int,
                    listed@[marked@[k] as int],
                    *now,
                    max_snapshots,
                    max_age_days,
                ),
            forall|k: int, l: int| 0 <= k < l < marked@.len() ==> marked@[k] < marked@[l],
            forall|i: int|
                0 <= i < listed@.len() && is_expired(
                    i,
                    #[trigger] listed@[i],
                    *now,
                    max_snapshots,
                    max_age_days,
                ) ==> marked@.contains(i as usize),
    {
        let ages = Self::ages(listed, now);
        let marked = Self::mark_expired(&ages, max_snapshots, max_age_days);
        proof {
            assert forall|i: int|
                0 <= i < listed@.len() && is_expired(
                    i,
                    #[trigger] listed@[i],
                    *now,
                    max_snapshots,
                    max_age_days,
                ) implies marked@.contains(i as usize) by {
                assert(expires(i, ages@[i], max_snapshots, max_age_days));
            }
        }
        marked
    }

    /// The manifest to delete for the snapshot `id`: as `remove` finds it.
    pub fn delete(names: &Vec<String>, id: &str) -> (found: Option<usize>)
        ensures
            match found {
                Some(i) => i < names@.len() && has_substring(names@[i as int]@, id_prefix(id@, 8))
                    && forall|j: int|
                    0 <= j < i ==> !has_substring((#[trigger] names@[j])@, id_prefix(id@, 8)),
                None => forall|j: int|
                    0 <= j < names@.len() ==> !has_substring(
                        (#[trigger] names@[j])@,
                        id_prefix(id@, 8),
                    ),
            },
    {
        Self::remove(names, id)
    }

    /// The manifest to delete for the snapshot `id`: the first of `names`
    /// that holds the first eight characters of the id.
    pub fn remove(names: &Vec<String>, id: &str) -> (found: Option<usize>)
        ensures
            match found {
                Some(i) => i < names@.len() && has_substring(names@[i as int]@, id_prefix(id@, 8))
                    && forall|j: int|
                    0 <= j < i ==> !has_substring((#[trigger] names@[j])@, id_prefix(id@, 8)),
                None => forall|j: int|
                    0 <= j < names@.len() ==> !has_substring(
                        (#[trigger] names@[j])@,
                        id_prefix(id@, 8),
                    ),
            },
    {
        let id_chars = chars_of(id);
        let short = if id_chars.len() <= 8 {
            string_of_range(&id_chars, 0, id_chars.len())
        } else {
            string_of_range(&id_chars, 0, 8)
        };
        assert(short@ =~= id_prefix(id@, 8));
        let needle = chars_of(short.as_str());
        let mut i: usize = 0;
        while i < names.len()
            invariant
                i <= names.len(),
                needle@ == id_prefix(id@, 8),
                forall|j: int|
                    0 <= j < i ==> !has_substring((#[trigger] names@[j])@, id_prefix(id@, 8)),
            decreases names.len() - i,
        {
            let name = chars_of(names[i].as_str());
            if contains_chars(&name, &needle) {
                return Some(i);
            }
            i += 1;
        }
        None
    }
}

/// Files that agree in path and hash, position by position.
pub open spec fn same_paths_and_hashes(a: Seq<FileEntry>, b: Seq<FileEntry>) -> bool {
    a.len() == b.len() && forall|i: int|
        0 <= i < a.len() ==> (#[trigger] a[i]).path@ == b[i].path@ && a[i].hash@ == b[i].hash@
}

/// Snapshot determinism: the same time and the same files in the same
/// order give the same id.
pub proof fn law_snapshot_determinism(
    first_time: Timestamp,
    first_files: Seq<FileEntry>,
    second_time: Timestamp,
    second_files: Seq<FileEntry>,
)
    requires
        first_time.seconds() == second_time.seconds(),
        first_time.subsec() == second_time.subsec(),
        same_paths_and_hashes(first_files, second_files),
    ensures
        snapshot_id(first_time, first_files) == snapshot_id(second_time, second_files),
{
    lemma_preimage_by_paths_and_hashes(first_time.rfc3339(), first_files, second_files);
}

proof fn lemma_preimage_by_paths_and_hashes(stamp: Seq<char>, a: Seq<FileEntry>, b: Seq<FileEntry>)
    requires
        same_paths_and_hashes(a, b),
    ensures
        id_preimage(stamp, a) == id_preimage(stamp, b),
    decreases a.len(),
{
    if a.len() > 0 {
        assert(a.last() == a[a.len() - 1]);
        assert(b.last() == b[b.len() - 1]);
        assert forall|i: int| 0 <= i < a.drop_last().len() implies (#[trigger] a.drop_last()[i]).path@
            == b.drop_last()[i].path@ && a.drop_last()[i].hash@ == b.drop_last()[i].hash@ by {
            assert(a.drop_last()[i] == a[i]);
            assert(b.drop_last()[i] == b[i]);
        }
        lemma_preimage_by_paths_and_hashes(stamp, a.drop_last(), b.drop_last());
    }
}

/// Oldest first, each snapshot later than all before it.
pub open spec fn taken_in_order(snapshots: Seq<Snapshot>) -> bool {
    forall|i: int, j: int|
        0 <= i < j < snapshots.len() ==> (#[trigger] snapshots[j]).timestamp.later_than(
            (#[trigger] snapshots[i]).timestamp,
        )
}

/// Listing order: snapshots taken one after the other, each at a later
/// time than the one before, are listed in the reverse of that order, in
/// whatever order the directory gave them.
pub proof fn law_listing_order(taken: Seq<Snapshot>, read: Seq<Snapshot>, listed: Seq<Snapshot>)
    requires
        taken_in_order(taken),
        read.to_multiset() == taken.to_multiset(),
        newest_first(listed),
        listed.to_multiset() == read.to_multiset(),
    ensures
        listed == taken.reverse(),
{
    let reversed = taken.reverse();
    taken.lemma_reverse_to_multiset();
    assert forall|i: int, j: int| 0 <= i < j < reversed.len() implies (
    #[trigger] reversed[i]).timestamp.later_than((#[trigger] reversed[j]).timestamp) by {
        assert(reversed[i] == taken[taken.len() - 1 - i]);
        assert(reversed[j] == taken[taken.len() - 1 - j]);
    }
    lemma_one_listing(reversed, listed);
}

/// Among snapshots of which each is later than those behind it, only one
/// order is newest first.
proof fn lemma_one_listing(strict: Seq<Snapshot>, listed: Seq<Snapshot>)
    requires
        forall|i: int, j: int|
            0 <= i < j < strict.len() ==> (#[trigger] strict[i]).timestamp.later_than(
                (#[trigger] strict[j]).timestamp,
            ),
        newest_first(listed),
        listed.to_multiset() == strict.to_multiset(),
    ensures
        listed == strict,
    decreases strict.len(),
{
    broadcast use vstd::seq_lib::to_multiset_len, vstd::seq_lib::to_multiset_contains;

    assert(listed.len() == strict.len()) by {
        vstd::seq_lib::to_multiset_len(listed);
        vstd::seq_lib::to_multiset_len(strict);
    }
    if strict.len() == 0 {
        assert(listed =~= strict);
    } else {
        // the head of each stands somewhere in the other
        vstd::seq_lib::to_multiset_contains(listed, strict[0]);
        vstd::seq_lib::to_multiset_contains(strict, strict[0]);
        vstd::seq_lib::to_multiset_contains(strict, listed[0]);
        vstd::seq_lib::to_multiset_contains(listed, listed[0]);
        assert(strict.contains(strict[0]));
        assert(listed.contains(listed[0]));
        let k = choose|k: int| 0 <= k < listed.len() && listed[k] == strict[0];
        let m = choose|m: int| 0 <= m < strict.len() && strict[m] == listed[0];
        if m > 0 {
            assert(strict[0].timestamp.later_than(strict[m].timestamp));
            if k > 0 {
                assert(!listed[k].timestamp.later_than(listed[0].timestamp));
            }
            assert(false);
        }
        assert(listed[0] == strict[0]);
        vstd::seq_lib::to_multiset_remove(strict, 0);
        vstd::seq_lib::to_multiset_remove(listed, 0);
        assert(strict.remove(0) =~= strict.drop_first());
        assert(listed.remove(0) =~= listed.drop_first());
        let strict_rest = strict.drop_first();
        let listed_rest = listed.drop_first();
        assert forall|i: int, j: int| 0 <= i < j < strict_rest.len() implies (
        #[trigger] strict_rest[i]).timestamp.later_than((#[trigger] strict_rest[j]).timestamp) by {
            assert(strict_rest[i] == strict[i + 1]);
            assert(strict_rest[j] == strict[j + 1]);
        }
        assert forall|i: int, j: int| 0 <= i < j < listed_rest.len() implies !(
        #[trigger] listed_rest[j]).timestamp.later_than((#[trigger] listed_rest[i]).timestamp) by {
            assert(listed_rest[i] == listed[i + 1]);
            assert(listed_rest[j] == listed[j + 1]);
        }
        lemma_one_listing(strict_rest, listed_rest);
        assert(listed =~= strict) by {
            assert forall|i: int| 0 <= i < listed.len() implies listed[i] == strict[i] by {
                if i > 0 {
                    assert(listed_rest[i - 1] == listed[i]);
                    assert(strict_rest[i - 1] == strict[i]);
                }
            }
        }
    }
}

} // verus!
