//! Garbage collection: mark the hashes that snapshots name, sweep the
//! objects that no snapshot names.

use vstd::prelude::*;
use vstd::hash_set::StringHashSet;
use crate::storage::objects::{fanout_dir_of, is_content_hash, object_path_of, ObjectStore};
use crate::storage::snapshots::{FileEntry, Snapshot};
use crate::text::{concat, texts};

verus! {

/// The hashes that `files` name.
pub open spec fn hashes_of(files: Seq<FileEntry>) -> Set<Seq<char>> {
    Set::new(|hash: Seq<char>| exists|i: int| 0 <= i < files.len() && (#[trigger] files[i]).hash@ == hash)
}

/// The hashes that the files of `snapshots` name.
pub open spec fn referenced_by(snapshots: Seq<Snapshot>) -> Set<Seq<char>> {
    Set::new(
        |hash: Seq<char>|
            exists|k: int|
                0 <= k < snapshots.len() && hashes_of((#[trigger] snapshots[k]).files@).contains(
                    hash,
                ),
    )
}

/// Those of `all` that `marked` does not hold, in their order.
pub open spec fn unmarked(all: Seq<Seq<char>>, marked: Set<Seq<char>>) -> Seq<Seq<char>> {
    all.filter(|hash: Seq<char>| !marked.contains(hash))
}

/// Those of `hashes` that have the shape of a content hash, in their order.
pub open spec fn well_shaped(hashes: Seq<Seq<char>>) -> Seq<Seq<char>> {
    hashes.filter(|hash: Seq<char>| is_content_hash(hash))
}

/// The set of hashes that snapshots refer to.
pub struct ObjectReferences {
    refs: StringHashSet,
}

impl View for ObjectReferences {
    type V = Set<Seq<char>>;

    closed spec fn view(&self) -> Set<Seq<char>> {
        self.refs@
    }
}

impl ObjectReferences {
    /// No reference yet.
    pub fn new() -> (refs: Self)
        ensures
            refs@ == Set::<Seq<char>>::empty(),
    {
        ObjectReferences { refs: StringHashSet::new() }
    }

    /// Marks every hash that a file of `snapshot` names.
    pub fn mark_from_snapshot(&mut self, snapshot: &Snapshot)
        ensures
            final(self)@ == old(self)@.union(hashes_of(snapshot.files@)),
    {
        let ghost before = self@;
        let mut i: usize = 0;
        assert(snapshot.files@.take(0) =~= Seq::<FileEntry>::empty());
        assert(self@ =~= before.union(hashes_of(snapshot.files@.take(0))));
        while i < snapshot.files.len()
            invariant
                i <= snapshot.files.len(),
                self@ == before.union(hashes_of(snapshot.files@.take(i as int))),
            decreases snapshot.files.len() - i,
        {
            self.refs.insert(snapshot.files[i].hash.clone());
            i += 1;
            proof {
                let files = snapshot.files@;
                let now = files.take(i as int);
                let was = files.take(i - 1);
                assert forall|h: Seq<char>|
                    hashes_of(now).contains(h) == (hashes_of(was).contains(h) || h == files[i
                        - 1].hash@) by {
                    if hashes_of(now).contains(h) {
                        let k = choose|k: int| 0 <= k < now.len() && (#[trigger] now[k]).hash@ == h;
                        if k < i - 1 {
                            assert(was[k] == now[k]);
                        }
                    }
                    if hashes_of(was).contains(h) {
                        let k = choose|k: int| 0 <= k < was.len() && (#[trigger] was[k]).hash@ == h;
                        assert(now[k] == was[k]);
                    }
                    if h == files[i - 1].hash@ {
                        assert(now[i - 1] == files[i - 1]);
                    }
                }
                assert(self@ =~= before.union(hashes_of(now)));
            }
        }
        assert(snapshot.files@.take(snapshot.files@.len() as int) =~= snapshot.files@);
    }

    /// Whether some marked snapshot names `hash`.
    pub fn is_referenced(&self, hash: &str) -> (r: bool)
        ensures
            r == self@.contains(hash@),
    {
        self.refs.contains(hash)
    }

    /// The number of distinct hashes marked.
    pub fn referenced_count(&self) -> (n: usize)
        ensures
            n == self@.len(),
    {
        self.refs.len()
    }

    /// Marks the hashes of all of `snapshots`.
    pub fn mark_all(snapshots: &Vec<Snapshot>) -> (refs: Self)
        ensures
            refs@ == referenced_by(snapshots@),
    {
        let mut refs = ObjectReferences::new();
        let mut k: usize = 0;
        assert(refs@ =~= referenced_by(snapshots@.take(0)));
        while k < snapshots.len()
            invariant
                k <= snapshots.len(),
                refs@ == referenced_by(snapshots@.take(k as int)),
            decreases snapshots.len() - k,
        {
            refs.mark_from_snapshot(&snapshots[k]);
            k += 1;
            proof {
                let all = snapshots@;
                let now = all.take(k as int);
                let was = all.take(k - 1);
                assert forall|h: Seq<char>|
                    referenced_by(now).contains(h) == (referenced_by(was).contains(h) || hashes_of(
                        all[k - 1].files@,
                    ).contains(h)) by {
                    if referenced_by(now).contains(h) {
                        let j = choose|j: int|
                            0 <= j < now.len() && hashes_of((#[trigger] now[j]).files@).contains(h);
                        if j < k - 1 {
                            assert(was[j] == now[j]);
                        }
                    }
                    if referenced_by(was).contains(h) {
                        let j = choose|j: int|
                            0 <= j < was.len() && hashes_of((#[trigger] was[j]).files@).contains(h);
                        assert(now[j] == was[j]);
                    }
                    if hashes_of(all[k - 1].files@).contains(h) {
                        assert(now[k - 1] == all[k - 1]);
                    }
                }
                assert(refs@ =~= referenced_by(now));
            }
        }
        assert(snapshots@.take(snapshots@.len() as int) =~= snapshots@);
        refs
    }
}

/// What a collection removed.
#[derive(Debug, Clone, Copy, PartialEq, Eq)]
pub struct GcStats {
    pub deleted_objects: usize,
    pub deleted_bytes: u64,
}

impl GcStats {
    /// Nothing removed yet.
    pub fn new() -> (stats: Self)
        ensures
            stats.deleted_objects == 0,
            stats.deleted_bytes == 0,
    {
        GcStats { deleted_objects: 0, deleted_bytes: 0 }
    }

    /// Counts one removed object of `size` bytes.
    pub fn record(&mut self, size: u64)
        requires
            old(self).deleted_objects < usize::MAX,
            old(self).deleted_bytes + size <= u64::MAX,
        ensures
            final(self).deleted_objects == old(self).deleted_objects + 1,
            final(self).deleted_bytes == old(self).deleted_bytes + size,
    {
        self.deleted_objects = self.deleted_objects + 1;
        self.deleted_bytes = self.deleted_bytes + size;
    }
}

/// One fan-out directory of the object store as it was read: its name and
/// the names of the files in it.
#[derive(Debug, Clone, PartialEq, Eq)]
pub struct FanoutListing {
    pub prefix: String,
    pub names: Vec<String>,
}

/// The hashes that a fan-out directory holds: its name before each file's.
pub open spec fn hashes_in(dir: FanoutListing) -> Seq<Seq<char>> {
    Seq::new(dir.names@.len(), |i: int| dir.prefix@ + dir.names@[i]@)
}

/// The hashes that the directories hold, directory by directory.
pub open spec fn hashes_under(dirs: Seq<FanoutListing>) -> Seq<Seq<char>>
    decreases dirs.len(),
{
    if dirs.len() == 0 {
        Seq::empty()
    } else {
        hashes_under(dirs.drop_last()) + hashes_in(dirs.last())
    }
}

/// The hashes of all objects on disk, put together again from the
/// directory names and the file names.
pub fn list_all_objects(dirs: &Vec<FanoutListing>) -> (objects: Vec<String>)
    ensures
        texts(objects@) == hashes_under(dirs@),
{
    let mut objects: Vec<String> = Vec::new();
    let mut d: usize = 0;
    assert(dirs@.take(0) =~= Seq::<FanoutListing>::empty());
    assert(texts(objects@) =~= hashes_under(dirs@.take(0)));
    while d < dirs.len()
        invariant
            d <= dirs.len(),
            texts(objects@) == hashes_under(dirs@.take(d as int)),
        decreases dirs.len() - d,
    {
        let dir = &dirs[d];
        let ghost start = texts(objects@);
        let mut i: usize = 0;
        while i < dir.names.len()
            invariant
                i <= dir.names.len(),
                texts(objects@) == start + hashes_in(*dir).take(i as int),
            decreases dir.names.len() - i,
        {
            let ghost was = objects@;
            let hash = concat(dir.prefix.as_str(), dir.names[i].as_str());
            objects.push(hash);
            i += 1;
            assert(texts(objects@) =~= start + hashes_in(*dir).take(i as int)) by {
                assert(texts(was) == start + hashes_in(*dir).take(i - 1));
                assert forall|k: int| 0 <= k < objects@.len() implies texts(objects@)[k] == (start
                    + hashes_in(*dir).take(i as int))[k] by {
                    if k < was.len() {
                        assert(texts(objects@)[k] == texts(was)[k]);
                    }
                }
            }
        }
        d += 1;
        proof {
            assert(hashes_in(*dir).take(dir.names@.len() as int) =~= hashes_in(*dir));
            assert(dirs@.take(d as int).drop_last() =~= dirs@.take(d - 1));
            assert(dirs@.take(d as int).last() == *dir);
        }
    }
    assert(dirs@.take(dirs@.len() as int) =~= dirs@);
    objects
}

/// The sweep: those of `all_objects` that no snapshot refers to, in their
/// order.
pub fn unreferenced(all_objects: &Vec<String>, refs: &ObjectReferences) -> (garbage: Vec<String>)
    ensures
        texts(garbage@) == unmarked(texts(all_objects@), refs@),
{
    let mut garbage: Vec<String> = Vec::new();
    let ghost all = texts(all_objects@);
    let ghost pred = |hash: Seq<char>| !refs@.contains(hash);
    let mut i: usize = 0;
    assert(all.take(0) =~= Seq::<Seq<char>>::empty());
    assert(all.take(0).filter(pred) =~= Seq::<Seq<char>>::empty()) by {
        reveal(Seq::filter);
    }
    assert(texts(garbage@) =~= all.take(0).filter(pred));
    while i < all_objects.len()
        invariant
            i <= all_objects.len(),
            all == texts(all_objects@),
            pred == |hash: Seq<char>| !refs@.contains(hash),
            texts(garbage@) == all.take(i as int).filter(pred),
        decreases all_objects.len() - i,
    {
        let ghost was = garbage@;
        proof {
            assert(all.take(i + 1) =~= all.take(i as int).push(all[i as int]));
            all.take(i as int).lemma_filter_push(all[i as int], pred);
            assert(all[i as int] == all_objects@[i as int]@);
        }
        if !refs.is_referenced(all_objects[i].as_str()) {
            garbage.push(all_objects[i].clone());
            assert(texts(garbage@) =~= texts(was).push(all[i as int]));
        }
        i += 1;
    }
    assert(all.take(all.len() as int) =~= all);
    garbage
}

/// One object to remove: its file, and the fan-out directory to remove
/// after it if that is left empty.
#[derive(Debug, Clone, PartialEq, Eq)]
pub struct ObjectRemoval {
    pub hash: String,
    pub dir: String,
    pub path: String,
}

/// The removals that `delete_objects` plans for `hashes`.
pub open spec fn removals_meet(
    store: ObjectStore,
    hashes: Seq<Seq<char>>,
    removals: Seq<ObjectRemoval>,
) -> bool {
    &&& removals.map_values(|r: ObjectRemoval| r.hash@) == well_shaped(hashes)
    &&& forall|k: int|
        0 <= k < removals.len() ==> (#[trigger] removals[k]).dir@ == fanout_dir_of(
            store.dir(),
            removals[k].hash@,
        ) && removals[k].path@ == object_path_of(store.dir(), removals[k].hash@)
}

/// The files to remove for `hashes_to_delete`, in their order. A hash that
/// has not the shape of a content hash is passed over.
pub fn delete_objects(store: &ObjectStore, hashes_to_delete: &Vec<String>) -> (removals: Vec<
    ObjectRemoval,
>)
    ensures
        removals_meet(*store, texts(hashes_to_delete@), removals@),
{
    let mut removals: Vec<ObjectRemoval> = Vec::new();
    let ghost all = texts(hashes_to_delete@);
    let ghost pred = |hash: Seq<char>| is_content_hash(hash);
    let ghost name = |r: ObjectRemoval| r.hash@;
    let mut i: usize = 0;
    assert(all.take(0) =~= Seq::<Seq<char>>::empty());
    assert(all.take(0).filter(pred) =~= Seq::<Seq<char>>::empty()) by {
        reveal(Seq::filter);
    }
    assert(removals@.map_values(name) =~= all.take(0).filter(pred));
    while i < hashes_to_delete.len()
        invariant
            i <= hashes_to_delete.len(),
            all == texts(hashes_to_delete@),
            pred == |hash: Seq<char>| is_content_hash(hash),
            name == |r: ObjectRemoval| r.hash@,
            removals@.map_values(name) == all.take(i as int).filter(pred),
            forall|k: int|
                0 <= k < removals@.len() ==> (#[trigger] removals@[k]).dir@ == fanout_dir_of(
                    store.dir(),
                    removals@[k].hash@,
                ) && removals@[k].path@ == object_path_of(store.dir(), removals@[k].hash@),
        decreases hashes_to_delete.len() - i,
    {
        let ghost was = removals@;
        let hash = &hashes_to_delete[i];
        proof {
            assert(all.take(i + 1) =~= all.take(i as int).push(all[i as int]));
            all.take(i as int).lemma_filter_push(all[i as int], pred);
            assert(all[i as int] == hash@);
        }
        if ObjectStore::is_valid_hash(hash.as_str()) {
            let dir = store.fanout_dir(hash.as_str());
            let path = store.object_path(hash.as_str());
            removals.push(ObjectRemoval { hash: hash.clone(), dir, path });
            assert(removals@.map_values(name) =~= was.map_values(name).push(hash@));
        }
        i += 1;
    }
    assert(all.take(all.len() as int) =~= all);
    removals
}

/// What a collection is to do.
#[derive(Debug, Clone, PartialEq, Eq)]
pub struct GcPlan {
    /// The number of distinct hashes that snapshots name.
    pub referenced: usize,
    /// The number of objects on disk.
    pub total: usize,
    /// The objects that no snapshot names.
    pub garbage: Vec<String>,
}

/// Mark and sweep: from the snapshots of the listing and the objects on
/// disk, the objects to remove.
pub fn plan_gc(snapshots: &Vec<Snapshot>, all_objects: &Vec<String>) -> (plan: GcPlan)
    ensures
        plan.referenced == referenced_by(snapshots@).len(),
        plan.total == all_objects@.len(),
        texts(plan.garbage@) == unmarked(texts(all_objects@), referenced_by(snapshots@)),
{
    let refs = ObjectReferences::mark_all(snapshots);
    let garbage = unreferenced(all_objects, &refs);
    GcPlan { referenced: refs.referenced_count(), total: all_objects.len(), garbage }
}

/// The objects on disk once the removals for `garbage` have been made.
pub open spec fn after_removals(
    objects: Map<Seq<char>, Seq<u8>>,
    garbage: Seq<Seq<char>>,
) -> Map<Seq<char>, Seq<u8>> {
    objects.remove_keys(well_shaped(garbage).to_set())
}

/// Conservation: a collection removes no object that a snapshot of the
/// listing names, and leaves what it keeps as it was; of the objects whose
/// name has the shape of a content hash, it leaves only those that a
/// snapshot names.
pub proof fn law_gc_conservation(
    snapshots: Seq<Snapshot>,
    objects: Map<Seq<char>, Seq<u8>>,
    all_objects: Seq<Seq<char>>,
)
    requires
        all_objects.to_set() == objects.dom(),
    ensures
        ({
            let kept = after_removals(objects, unmarked(all_objects, referenced_by(snapshots)));
            &&& forall|hash: Seq<char>|
                referenced_by(snapshots).contains(hash) && objects.contains_key(hash)
                    ==> #[trigger] kept.contains_key(hash) && kept[hash] == objects[hash]
            &&& forall|hash: Seq<char>| #[trigger]
                kept.contains_key(hash) ==> objects.contains_key(hash) && kept[hash]
                    == objects[hash]
            &&& forall|hash: Seq<char>| #[trigger]
                kept.contains_key(hash) && is_content_hash(hash) ==> referenced_by(
                    snapshots,
                ).contains(hash)
        }),
{
    let marked = referenced_by(snapshots);
    let unmarked_pred = |hash: Seq<char>| !marked.contains(hash);
    let shape_pred = |hash: Seq<char>| is_content_hash(hash);
    let garbage = unmarked(all_objects, marked);
    let removed = well_shaped(garbage);
    let kept = after_removals(objects, garbage);
    assert forall|hash: Seq<char>| removed.contains(hash) implies !marked.contains(hash) by {
        removed.to_set();
        garbage.lemma_filter_contains_rev(shape_pred, hash);
        all_objects.lemma_filter_contains_rev(unmarked_pred, hash);
    }
    assert forall|hash: Seq<char>| #[trigger]
        kept.contains_key(hash) && is_content_hash(hash) implies marked.contains(hash) by {
        if !marked.contains(hash) {
            assert(all_objects.to_set().contains(hash));
            assert(all_objects.contains(hash));
            let i = choose|i: int| 0 <= i < all_objects.len() && all_objects[i] == hash;
            all_objects.lemma_filter_contains(unmarked_pred, i);
            assert(garbage.contains(hash));
            let j = choose|j: int| 0 <= j < garbage.len() && garbage[j] == hash;
            garbage.lemma_filter_contains(shape_pred, j);
            assert(removed.contains(hash));
            assert(removed.to_set().contains(hash));
        }
    }
}

} // verus!
