use std::collections::BTreeMap;
use std::collections::HashMap;

use mote::commands::collect::{
    collect_files, scan_step, FileMeta, ScanStep, StoredFile, Walked,
};
use mote::commands::diff::diff_snapshots;
use mote::commands::restore::{
    create_backup_snapshot, next_phase, restore_all_files, restore_files, RestorePhase,
    RestoreStep,
};
use mote::commands::snapshot::{cmd_snapshot, notice, SnapshotDecision};
use mote::config::Config;
use mote::ignore::IgnoreFilter;
use mote::storage::gc::{delete_objects, list_all_objects, plan_gc, FanoutListing};
use mote::storage::index::{Index, Mtime};
use mote::storage::location::{LocationProbe, StorageLocation};
use mote::storage::objects::ObjectStore;
use mote::storage::snapshots::{Snapshot, SnapshotStore};
use mote::timestamp::Timestamp;

/// A working tree in memory: path -> (content, modification time).
struct Tree {
    files: BTreeMap<String, (Vec<u8>, u64)>,
}

impl Tree {
    fn new() -> Tree {
        Tree { files: BTreeMap::new() }
    }

    fn write(&mut self, path: &str, content: &[u8], mtime: u64) {
        self.files.insert(path.to_string(), (content.to_vec(), mtime));
    }
}

/// A repository in memory: what a disk would hold.
struct Repo {
    store: ObjectStore,
    snapshots: SnapshotStore,
    /// object path -> frame
    objects: HashMap<String, Vec<u8>>,
    /// manifest path -> snapshot
    manifests: BTreeMap<String, Snapshot>,
    index: Index,
    clock: i64,
    /// how often the content of a file was stored
    store_calls: Vec<String>,
}

impl Repo {
    fn init(root: &str) -> Repo {
        let probe = LocationProbe {
            custom_exists: false,
            mote_exists: false,
            git_mote_exists: false,
            jj_mote_exists: false,
            git_is_dir: false,
            jj_is_dir: false,
        };
        let location = StorageLocation::init(root, &Config::default(), None, &probe).unwrap();
        Repo {
            store: ObjectStore::new(location.objects_dir(), 3),
            snapshots: SnapshotStore::new(location.snapshots_dir()),
            objects: HashMap::new(),
            manifests: BTreeMap::new(),
            index: Index::new(),
            clock: 1_700_000_000,
            store_calls: Vec::new(),
        }
    }

    fn list(&self) -> Vec<Snapshot> {
        let read: Vec<Snapshot> = self
            .manifests
            .iter()
            .filter(|(path, _)| SnapshotStore::is_manifest_name(path.rsplit('/').next().unwrap()))
            .map(|(_, s)| s.clone())
            .collect();
        SnapshotStore::list(read)
    }

    fn scan(&mut self, tree: &Tree, filter: &IgnoreFilter) -> Vec<mote::storage::snapshots::FileEntry> {
        let mut walked = Vec::new();
        for (path, (content, mtime)) in &tree.files {
            let mut file = Walked {
                path: path.clone(),
                metadata: Some(FileMeta {
                    is_symlink: false,
                    mtime: Some(Mtime { secs: *mtime, nanos: 0 }),
                    size: content.len() as u64,
                }),
                stored: None,
            };
            if scan_step(filter, &self.index, &file) == ScanStep::Store {
                self.store_calls.push(path.clone());
                let hash = ObjectStore::compute_hash(content);
                let present = self.objects.contains_key(&self.store.object_path(&hash));
                let (stored, size) = self.store.store_file(content, present).unwrap();
                if let Some(write) = stored.write {
                    self.objects.insert(write.path, write.data);
                }
                file.stored = Some(StoredFile { hash: stored.hash, size });
            }
            walked.push(file);
        }
        collect_files(filter, &mut self.index, &walked)
    }

    fn snapshot(&mut self, tree: &Tree, message: Option<&str>, auto: bool) -> (SnapshotDecision, Option<Snapshot>) {
        let filter = IgnoreFilter::new("/tree", None);
        let files = self.scan(tree, &filter);
        let listed = self.list();
        let decision = cmd_snapshot(&files, listed.first(), auto);
        if decision != SnapshotDecision::Create {
            return (decision, None);
        }
        self.clock += 1;
        let snapshot = Snapshot::new(
            files,
            message.map(|m| m.to_string()),
            None,
            Timestamp::new(self.clock, 0).unwrap(),
        );
        self.manifests.insert(self.snapshots.save(&snapshot), snapshot.clone());
        (decision, Some(snapshot))
    }

    fn delete(&mut self, id: &str) {
        let names: Vec<String> = self.manifests.keys().cloned().collect();
        if let Some(at) = SnapshotStore::remove(&names, id) {
            self.manifests.remove(&names[at]);
        }
    }

    fn object_hashes(&self) -> Vec<String> {
        let mut dirs: BTreeMap<String, Vec<String>> = BTreeMap::new();
        for path in self.objects.keys() {
            let rest = &path[self.store.objects_dir().len() + 1..];
            let (prefix, name) = rest.split_once('/').unwrap();
            dirs.entry(prefix.to_string()).or_default().push(name.to_string());
        }
        let listing: Vec<FanoutListing> = dirs
            .into_iter()
            .map(|(prefix, names)| FanoutListing { prefix, names })
            .collect();
        list_all_objects(&listing)
    }

    fn gc(&mut self) -> usize {
        let plan = plan_gc(&self.list(), &self.object_hashes());
        let removals = delete_objects(&self.store, &plan.garbage);
        for removal in &removals {
            self.objects.remove(&removal.path);
        }
        removals.len()
    }

    fn retrieve(&self, hash: &str) -> Vec<u8> {
        let frame = self.objects.get(&self.store.object_path(hash)).map(|f| f.as_slice());
        ObjectStore::retrieve(hash, frame).unwrap()
    }
}

#[test]
fn scenario_first_snapshot() {
    let mut repo = Repo::init("/tree");
    let mut tree = Tree::new();
    tree.write("a.txt", b"Hello\n", 1);
    let (decision, taken) = repo.snapshot(&tree, Some("first"), false);
    assert_eq!(decision, SnapshotDecision::Create);
    let log = repo.list();
    assert_eq!(log.len(), 1);
    assert_eq!(log[0], taken.unwrap());
    assert_eq!(log[0].file_count(), 1);
    assert!(log[0].files[0].hash.starts_with("66a045b"));
    assert_eq!(
        log[0].files[0].hash,
        "66a045b452102c59d840ec097d59d9467e13a3f34f6494e539ffd32c1bb35f18"
    );
    assert_eq!(log[0].files[0].path, "a.txt");
    assert_eq!(log[0].files[0].size, 6);
    assert_eq!(repo.retrieve(&log[0].files[0].hash), b"Hello\n");
}

#[test]
fn scenario_diff_of_two_versions() {
    let mut repo = Repo::init("/tree");
    let mut tree = Tree::new();
    tree.write("a.txt", b"v1", 1);
    let s1 = repo.snapshot(&tree, None, false).1.unwrap();
    tree.write("a.txt", b"v2", 2);
    let s2 = repo.snapshot(&tree, None, false).1.unwrap();
    let report = diff_snapshots(&s1, &s2, true, 3, &Vec::new()).unwrap();
    let body: Vec<&str> = report.text.lines().skip(2).collect();
    assert_eq!(body, vec!["M\ta.txt"]);
}

#[test]
fn scenario_snapshot_of_an_empty_tree() {
    let mut repo = Repo::init("/tree");
    let tree = Tree::new();
    let (decision, taken) = repo.snapshot(&tree, None, false);
    assert_eq!(decision, SnapshotDecision::NoFiles);
    assert_eq!(taken, None);
    assert_eq!(repo.list().len(), 0);
    let said = notice(decision, false).unwrap();
    assert!(said.to_lowercase().contains("no files"));
}

#[test]
fn scenario_second_scan_reads_only_what_changed() {
    let mut repo = Repo::init("/tree");
    let mut tree = Tree::new();
    for i in 0..10 {
        tree.write(&format!("f{}.txt", i), format!("content {}", i).as_bytes(), 100);
    }
    let first = repo.snapshot(&tree, None, false).1.unwrap();
    assert_eq!(repo.store_calls.len(), 10);
    repo.store_calls.clear();

    // a subset changes in size and time
    tree.write("f2.txt", b"changed and longer", 200);
    tree.write("f7.txt", b"x", 201);
    let second = repo.snapshot(&tree, None, false).1.unwrap();
    assert_eq!(repo.store_calls, vec!["f2.txt".to_string(), "f7.txt".to_string()]);
    assert_eq!(second.file_count(), 10);
    for (before, after) in first.files.iter().zip(second.files.iter()) {
        assert_eq!(before.path, after.path);
        if before.path == "f2.txt" || before.path == "f7.txt" {
            assert_ne!(before.hash, after.hash);
        } else {
            assert_eq!(before, after);
        }
    }
}

#[test]
fn scenario_shared_object_survives_collection() {
    let mut repo = Repo::init("/tree");
    let mut one = Tree::new();
    one.write("shared.txt", b"the same bytes", 1);
    one.write("only_one.txt", b"one", 1);
    let mut two = Tree::new();
    two.write("shared.txt", b"the same bytes", 1);
    two.write("only_two.txt", b"two", 1);

    let s1 = repo.snapshot(&one, None, false).1.unwrap();
    // another tree: the index of the first does not speak for it
    repo.index = Index::new();
    let s2 = repo.snapshot(&two, None, false).1.unwrap();

    let shared = ObjectStore::compute_hash(b"the same bytes");
    assert_eq!(repo.objects.len(), 3);
    let holders = repo
        .object_hashes()
        .iter()
        .filter(|h| **h == shared)
        .count();
    assert_eq!(holders, 1);

    repo.delete(&s1.id);
    assert_eq!(repo.list(), vec![s2.clone()]);
    assert_eq!(repo.gc(), 1);
    assert_eq!(repo.objects.len(), 2);
    assert_eq!(repo.retrieve(&shared), b"the same bytes");
    assert_eq!(repo.retrieve(&ObjectStore::compute_hash(b"two")), b"two");
    assert!(!repo
        .object_hashes()
        .contains(&ObjectStore::compute_hash(b"one")));
    // every object left is named by the snapshot that is left
    for hash in repo.object_hashes() {
        assert!(s2.files.iter().any(|f| f.hash == hash));
    }
}

#[test]
fn scenario_restore_with_backup() {
    let mut repo = Repo::init("/tree");
    let mut tree = Tree::new();
    tree.write("a.txt", b"first a", 1);
    tree.write("b.txt", b"first b", 1);
    let target = repo.snapshot(&tree, None, false).1.unwrap();

    // the tree is modified
    tree.write("a.txt", b"modified a!", 5);

    // restore without force
    let mut phase = next_phase(RestorePhase::Start, false, false);
    assert_eq!(phase, RestorePhase::TakeBackup);
    let filter = IgnoreFilter::new("/tree", None);
    let files = repo.scan(&tree, &filter);
    repo.clock += 1;
    let backup =
        create_backup_snapshot(files, &target, Timestamp::new(repo.clock, 0).unwrap()).unwrap();
    repo.manifests.insert(repo.snapshots.save(&backup), backup.clone());
    // (a) the backup exists before anything is written
    assert_eq!(backup.trigger, Some("auto-backup".to_string()));
    assert_eq!(tree.files["a.txt"].0, b"modified a!");
    assert_eq!(repo.list()[0], backup);

    phase = next_phase(phase, false, false);
    assert_eq!(phase, RestorePhase::IterateManifest);
    let on_disk: Vec<Option<Vec<u8>>> = target
        .files
        .iter()
        .map(|f| tree.files.get(&f.path).map(|(c, _)| c.clone()))
        .collect();
    let steps = restore_all_files(&target.files, &on_disk, false);
    assert_eq!(steps, vec![RestoreStep::Restore, RestoreStep::Skip]);
    let mut written = Vec::new();
    for (file, step) in target.files.iter().zip(steps.iter()) {
        if *step == RestoreStep::Restore {
            let frame = repo.objects.get(&repo.store.object_path(&file.hash)).cloned();
            let write = ObjectStore::restore_file(&file.hash, frame.as_deref(), &file.path).unwrap();
            tree.write(&write.path, &write.data, 9);
            written.push(true);
        } else {
            written.push(false);
        }
    }
    assert_eq!(restore_files(&steps, &written), (1, 1));
    assert_eq!(next_phase(phase, false, false), RestorePhase::End);

    // (b) the tree is byte-identical to the snapshot
    for file in &target.files {
        assert_eq!(ObjectStore::compute_hash(&tree.files[&file.path].0), file.hash);
    }
    assert_eq!(tree.files["a.txt"].0, b"first a");
    // (c) the backup can be read back on its own
    let kept = backup.find_file("a.txt").unwrap();
    assert_eq!(repo.retrieve(&kept.hash), b"modified a!");
}

#[test]
fn automatic_snapshots_skip_an_unchanged_tree() {
    let mut repo = Repo::init("/tree");
    let mut tree = Tree::new();
    tree.write("a.txt", b"same", 1);
    assert_eq!(repo.snapshot(&tree, None, true).0, SnapshotDecision::Create);
    assert_eq!(repo.snapshot(&tree, None, true).0, SnapshotDecision::Unchanged);
    assert_eq!(repo.list().len(), 1);
    tree.write("a.txt", b"other", 2);
    assert_eq!(repo.snapshot(&tree, None, true).0, SnapshotDecision::Create);
    assert_eq!(repo.list().len(), 2);
}

#[test]
fn retention_removes_the_oldest() {
    let mut repo = Repo::init("/tree");
    let mut tree = Tree::new();
    for i in 0..5u64 {
        tree.write("a.txt", format!("v{}", i).as_bytes(), i);
        repo.snapshot(&tree, None, false);
    }
    let listed = repo.list();
    assert_eq!(listed.len(), 5);
    let now = Timestamp::new(repo.clock + 10, 0).unwrap();
    let marked = SnapshotStore::cleanup(&listed, &now, 3, 30);
    assert_eq!(marked, vec![3, 4]);
    for at in marked {
        repo.delete(&listed[at].id);
    }
    let left = repo.list();
    assert_eq!(left, listed[..3].to_vec());
}
