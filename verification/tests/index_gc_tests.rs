use mote::storage::gc::{
    delete_objects, list_all_objects, plan_gc, unreferenced, FanoutListing, GcStats,
    ObjectReferences, ObjectRemoval,
};
use mote::storage::index::{Index, IndexEntry, Mtime};
use mote::storage::objects::ObjectStore;
use mote::storage::snapshots::{FileEntry, Snapshot};
use mote::timestamp::Timestamp;

fn index_entry(path: &str, hash: &str, size: u64, secs: u64) -> IndexEntry {
    IndexEntry {
        path: path.to_string(),
        hash: hash.to_string(),
        size,
        mtime: Mtime { secs, nanos: 0 },
    }
}

fn snapshot_of(secs: i64, hashes: &[&str]) -> Snapshot {
    let files = hashes
        .iter()
        .enumerate()
        .map(|(i, h)| FileEntry {
            path: format!("f{}", i),
            hash: h.to_string(),
            size: 1,
            mode: None,
        })
        .collect();
    Snapshot::new(files, None, None, Timestamp::new(secs, 0).unwrap())
}

fn hash_of(content: &[u8]) -> String {
    ObjectStore::compute_hash(content)
}

#[test]
fn index_hit_needs_path_time_and_size() {
    let mut index = Index::new();
    assert_eq!(index.len(), 0);
    index.insert(index_entry("a.txt", "h1", 10, 100));
    let t = Mtime { secs: 100, nanos: 0 };
    assert_eq!(
        index.is_unchanged("a.txt", t, 10),
        Some(&index_entry("a.txt", "h1", 10, 100))
    );
    // another size
    assert_eq!(index.is_unchanged("a.txt", t, 11), None);
    // another time
    assert_eq!(index.is_unchanged("a.txt", Mtime { secs: 101, nanos: 0 }, 10), None);
    assert_eq!(index.is_unchanged("a.txt", Mtime { secs: 100, nanos: 1 }, 10), None);
    // another path
    assert_eq!(index.is_unchanged("b.txt", t, 10), None);
}

#[test]
fn index_insert_overwrites_the_entry_of_the_path() {
    let mut index = Index::new();
    index.insert(index_entry("a", "h1", 1, 1));
    index.insert(index_entry("b", "h2", 2, 2));
    index.insert(index_entry("a", "h3", 3, 3));
    assert_eq!(index.len(), 2);
    assert_eq!(index.is_unchanged("a", Mtime { secs: 1, nanos: 0 }, 1), None);
    assert_eq!(
        index.is_unchanged("a", Mtime { secs: 3, nanos: 0 }, 3),
        Some(&index_entry("a", "h3", 3, 3))
    );
    assert_eq!(
        index.entries(),
        &vec![index_entry("a", "h3", 3, 3), index_entry("b", "h2", 2, 2)]
    );
}

#[test]
fn index_from_entries_lets_the_later_entry_count() {
    let index = Index::from_entries(vec![
        index_entry("a", "h1", 1, 1),
        index_entry("a", "h2", 2, 2),
        index_entry("c", "h3", 3, 3),
    ]);
    assert_eq!(index.len(), 2);
    assert_eq!(
        index.is_unchanged("a", Mtime { secs: 2, nanos: 0 }, 2),
        Some(&index_entry("a", "h2", 2, 2))
    );
    assert_eq!(Index::from_entries(Vec::new()).len(), 0);
}

#[test]
fn references_are_the_hashes_of_the_marked_snapshots() {
    let mut refs = ObjectReferences::new();
    assert_eq!(refs.referenced_count(), 0);
    assert!(!refs.is_referenced("h1"));
    refs.mark_from_snapshot(&snapshot_of(1, &["h1", "h2", "h1"]));
    assert_eq!(refs.referenced_count(), 2);
    refs.mark_from_snapshot(&snapshot_of(2, &["h2", "h3"]));
    assert_eq!(refs.referenced_count(), 3);
    assert!(refs.is_referenced("h1"));
    assert!(refs.is_referenced("h2"));
    assert!(refs.is_referenced("h3"));
    assert!(!refs.is_referenced("h4"));
    let all = ObjectReferences::mark_all(&vec![snapshot_of(1, &["x"]), snapshot_of(2, &["y"])]);
    assert_eq!(all.referenced_count(), 2);
    assert!(all.is_referenced("x") && all.is_referenced("y"));
}

#[test]
fn objects_are_listed_by_prefix_and_name() {
    let dirs = vec![
        FanoutListing { prefix: "ab".to_string(), names: vec!["cdef".to_string(), "0123".to_string()] },
        FanoutListing { prefix: "ff".to_string(), names: Vec::new() },
        FanoutListing { prefix: "00".to_string(), names: vec!["x".to_string()] },
    ];
    assert_eq!(list_all_objects(&dirs), vec!["abcdef", "ab0123", "00x"]);
    assert_eq!(list_all_objects(&Vec::new()), Vec::<String>::new());
}

#[test]
fn sweep_keeps_the_order_of_the_objects() {
    let mut refs = ObjectReferences::new();
    refs.mark_from_snapshot(&snapshot_of(1, &["b", "d"]));
    let all: Vec<String> = ["a", "b", "c", "d", "e"].iter().map(|s| s.to_string()).collect();
    assert_eq!(unreferenced(&all, &refs), vec!["a", "c", "e"]);
    let plan = plan_gc(&vec![snapshot_of(1, &["b", "d"])], &all);
    assert_eq!(plan.referenced, 2);
    assert_eq!(plan.total, 5);
    assert_eq!(plan.garbage, vec!["a", "c", "e"]);
}

#[test]
fn removals_pass_over_names_that_are_no_hashes() {
    let store = ObjectStore::new("/repo/objects".to_string(), 3);
    let good = hash_of(b"garbage");
    let hashes = vec!["x".to_string(), good.clone(), "ab".to_string(), good.to_uppercase()];
    assert_eq!(
        delete_objects(&store, &hashes),
        vec![ObjectRemoval {
            hash: good.clone(),
            dir: format!("/repo/objects/{}", &good[..2]),
            path: format!("/repo/objects/{}/{}", &good[..2], &good[2..]),
        }]
    );
}

#[test]
fn stats_add_up() {
    let mut stats = GcStats::new();
    assert_eq!(stats, GcStats { deleted_objects: 0, deleted_bytes: 0 });
    stats.record(10);
    stats.record(0);
    stats.record(1_000_000_000_000);
    assert_eq!(stats, GcStats { deleted_objects: 3, deleted_bytes: 1_000_000_000_010 });
}

#[test]
fn collection_keeps_what_is_referenced_and_removes_the_rest() {
    let kept_a = hash_of(b"a");
    let kept_b = hash_of(b"b");
    let lost = hash_of(b"c");
    let snapshots = vec![snapshot_of(1, &[&kept_a]), snapshot_of(2, &[&kept_a, &kept_b])];
    let on_disk = vec![lost.clone(), kept_a.clone(), "stray".to_string(), kept_b.clone()];
    let plan = plan_gc(&snapshots, &on_disk);
    let store = ObjectStore::new("/o".to_string(), 3);
    let removed: Vec<String> = delete_objects(&store, &plan.garbage)
        .into_iter()
        .map(|r| r.hash)
        .collect();
    assert_eq!(removed, vec![lost.clone()]);
    let left: Vec<&String> = on_disk.iter().filter(|h| !removed.contains(h)).collect();
    // everything referenced is still there
    assert!(left.contains(&&kept_a) && left.contains(&&kept_b));
    // what is left and has the shape of a hash is referenced
    for h in left {
        if ObjectStore::is_valid_hash(h) {
            assert!(h == &kept_a || h == &kept_b);
        }
    }
}
