use mote::error::MoteError;
use mote::storage::snapshots::{FileEntry, Snapshot, SnapshotStore};
use mote::timestamp::Timestamp;

const HELLO_HASH: &str = "66a045b452102c59d840ec097d59d9467e13a3f34f6494e539ffd32c1bb35f18";

fn entry(path: &str, hash: &str, size: u64) -> FileEntry {
    FileEntry { path: path.to_string(), hash: hash.to_string(), size, mode: None }
}

fn at(secs: i64) -> Timestamp {
    Timestamp::new(secs, 0).unwrap()
}

fn snapshot_at(secs: i64, files: Vec<FileEntry>) -> Snapshot {
    Snapshot::new(files, None, None, at(secs))
}

fn with_id(id: &str, secs: i64) -> Snapshot {
    Snapshot {
        id: id.to_string(),
        timestamp: at(secs),
        message: None,
        files: Vec::new(),
        trigger: None,
    }
}

#[test]
fn timestamps_have_the_texts_of_chrono() {
    let t = at(1_700_000_000);
    assert_eq!(t.to_rfc3339(), "2023-11-14T22:13:20+00:00");
    assert_eq!(t.to_stamp(), "20231114_221320");
    assert_eq!(t.secs(), 1_700_000_000);
    assert_eq!(t.nanos(), 0);
    let half = Timestamp::new(1_700_000_000, 500_000_000).unwrap();
    assert_eq!(half.to_rfc3339(), "2023-11-14T22:13:20.500+00:00");
    assert_eq!(half.to_stamp(), "20231114_221320");
    let before_epoch = Timestamp::new(-1, 0).unwrap();
    assert_eq!(before_epoch.to_rfc3339(), "1969-12-31T23:59:59+00:00");
}

#[test]
fn timestamps_out_of_range_are_refused() {
    assert_eq!(Timestamp::new(i64::MAX, 0), None);
    assert_eq!(Timestamp::new(i64::MIN, 0), None);
    assert_eq!(Timestamp::new(0, 2_000_000_000), None);
    assert!(Timestamp::new(0, 999_999_999).is_some());
}

#[test]
fn timestamps_are_ordered_by_seconds_then_nanoseconds() {
    let a = Timestamp::new(10, 5).unwrap();
    let b = Timestamp::new(10, 6).unwrap();
    let c = Timestamp::new(11, 0).unwrap();
    assert!(b.is_after(&a));
    assert!(c.is_after(&b));
    assert!(!a.is_after(&b));
    assert!(!a.is_after(&a));
}

#[test]
fn days_between_timestamps_are_whole_days() {
    let then = at(1_700_000_000);
    assert_eq!(then.days_until(&at(1_700_000_000)), 0);
    assert_eq!(then.days_until(&at(1_700_000_000 + 86_399)), 0);
    assert_eq!(then.days_until(&at(1_700_000_000 + 86_400)), 1);
    assert_eq!(then.days_until(&at(1_700_000_000 + 31 * 86_400 + 5)), 31);
    assert_eq!(then.days_until(&at(1_700_000_000 - 86_400)), -1);
    assert_eq!(then.days_until(&at(1_700_000_000 - 1)), 0);
}

#[test]
fn snapshot_id_is_the_hash_of_time_paths_and_hashes() {
    let snapshot = snapshot_at(1_700_000_000, vec![entry("a.txt", HELLO_HASH, 6)]);
    // sha256("2023-11-14T22:13:20+00:00" + "a.txt" + hash)
    assert_eq!(
        snapshot.id,
        "af45070d40ce624fd8731237934baa7f2968b6092190804f406af1f0aa4ef09f"
    );
    assert_eq!(
        Snapshot::generate_id(&at(1_700_000_000), &vec![entry("a.txt", HELLO_HASH, 6)]),
        snapshot.id
    );
    assert_eq!(snapshot.short_id(), "af45070");
    assert_eq!(snapshot.file_count(), 1);
    assert_eq!(snapshot.timestamp, at(1_700_000_000));
}

#[test]
fn snapshot_id_is_deterministic() {
    let files = vec![entry("a", "h1", 1), entry("b", "h2", 2)];
    let one = Snapshot::new(files.clone(), Some("m".to_string()), None, at(5));
    let two = Snapshot::new(files.clone(), None, Some("hook".to_string()), at(5));
    assert_eq!(one.id, two.id);
    // size and mode do not enter the id
    let mut resized = files.clone();
    resized[0].size = 99;
    resized[0].mode = Some("644".to_string());
    assert_eq!(Snapshot::new(resized, None, None, at(5)).id, one.id);
}

#[test]
fn snapshot_id_depends_on_time_and_order() {
    let files = vec![entry("a", "h1", 1), entry("b", "h2", 2)];
    let reversed = vec![entry("b", "h2", 2), entry("a", "h1", 1)];
    let base = snapshot_at(5, files.clone());
    assert_ne!(snapshot_at(6, files.clone()).id, base.id);
    assert_ne!(snapshot_at(5, reversed).id, base.id);
    assert_ne!(snapshot_at(5, Vec::new()).id, base.id);
    assert_eq!(base.id.len(), 64);
}

#[test]
fn short_id_of_a_short_id_is_the_id() {
    assert_eq!(with_id("abc", 1).short_id(), "abc");
    assert_eq!(with_id("", 1).short_id(), "");
    assert_eq!(with_id("1234567", 1).short_id(), "1234567");
    assert_eq!(with_id("12345678", 1).short_id(), "1234567");
}

#[test]
fn find_file_gives_the_first_entry_of_the_path() {
    let snapshot = snapshot_at(
        1,
        vec![entry("a", "h1", 1), entry("b", "h2", 2), entry("a", "h3", 3)],
    );
    assert_eq!(snapshot.find_file("a"), Some(&entry("a", "h1", 1)));
    assert_eq!(snapshot.find_file("b"), Some(&entry("b", "h2", 2)));
    assert_eq!(snapshot.find_file("c"), None);
}

#[test]
fn manifest_file_name() {
    let snapshot = snapshot_at(1_700_000_000, vec![entry("a.txt", HELLO_HASH, 6)]);
    assert_eq!(SnapshotStore::file_name(&snapshot), "20231114_221320_af45070d.json");
    let store = SnapshotStore::new("/repo/snapshots".to_string());
    assert_eq!(store.save(&snapshot), "/repo/snapshots/20231114_221320_af45070d.json");
    assert_eq!(store.snapshots_dir(), "/repo/snapshots");
    assert_eq!(SnapshotStore::file_name(&with_id("ab", 0)), "19700101_000000_ab.json");
}

#[test]
fn manifest_names_end_in_json() {
    assert!(SnapshotStore::is_manifest_name("20231114_221320_af45070d.json"));
    assert!(SnapshotStore::is_manifest_name("x.json"));
    assert!(SnapshotStore::is_manifest_name("a.b.json"));
    assert!(!SnapshotStore::is_manifest_name(".json"));
    assert!(!SnapshotStore::is_manifest_name("json"));
    assert!(!SnapshotStore::is_manifest_name("x.json.tmp"));
    assert!(!SnapshotStore::is_manifest_name("x.JSON"));
    assert!(!SnapshotStore::is_manifest_name(""));
}

#[test]
fn manifest_names_agree_with_std_extension() {
    for name in ["x.json", ".json", "..json", "a.b.json", "json", "a.jsonx", "a.json "] {
        let expected = std::path::Path::new(name).extension().map_or(false, |e| e == "json");
        assert_eq!(SnapshotStore::is_manifest_name(name), expected, "{}", name);
    }
}

#[test]
fn list_is_newest_first() {
    let snapshots = vec![with_id("b", 20), with_id("a", 10), with_id("d", 40), with_id("c", 30)];
    let listed = SnapshotStore::list(snapshots);
    let ids: Vec<&str> = listed.iter().map(|s| s.id.as_str()).collect();
    assert_eq!(ids, vec!["d", "c", "b", "a"]);
}

#[test]
fn list_reverses_the_order_of_creation() {
    let created: Vec<Snapshot> = (0..6).map(|i| with_id(&format!("s{}", i), 100 + i)).collect();
    // whatever order the directory gives them in
    let mut read = created.clone();
    read.swap(0, 4);
    read.swap(1, 3);
    read.rotate_left(2);
    let listed = SnapshotStore::list(read);
    let mut expected = created.clone();
    expected.reverse();
    assert_eq!(listed, expected);
}

#[test]
fn list_keeps_every_snapshot() {
    let snapshots = vec![with_id("x", 5), with_id("y", 5), with_id("z", 1)];
    let listed = SnapshotStore::list(snapshots.clone());
    assert_eq!(listed.len(), 3);
    for s in &snapshots {
        assert!(listed.contains(s));
    }
    assert_eq!(listed[2].id, "z");
    assert_eq!(SnapshotStore::list(Vec::new()), Vec::new());
}

#[test]
fn latest_is_the_head_of_the_listing() {
    let listed = SnapshotStore::list(vec![with_id("a", 10), with_id("b", 20)]);
    assert_eq!(SnapshotStore::latest(listed), Some(with_id("b", 20)));
    assert_eq!(SnapshotStore::latest(Vec::new()), None);
}

#[test]
fn find_by_id_wants_exactly_one_match() {
    let snapshots = vec![with_id("abc123", 1), with_id("abd456", 2), with_id("ffff", 3)];
    assert_eq!(
        SnapshotStore::find_by_id(snapshots.clone(), "abc"),
        Ok(with_id("abc123", 1))
    );
    assert_eq!(
        SnapshotStore::find_by_id(snapshots.clone(), "f"),
        Ok(with_id("ffff", 3))
    );
    assert_eq!(
        SnapshotStore::find_by_id(snapshots.clone(), "ab"),
        Err(MoteError::AmbiguousSnapshotId("ab".to_string()))
    );
    assert_eq!(
        SnapshotStore::find_by_id(snapshots.clone(), "zz"),
        Err(MoteError::SnapshotNotFound("zz".to_string()))
    );
    assert_eq!(
        SnapshotStore::find_by_id(snapshots.clone(), "abc1234"),
        Err(MoteError::SnapshotNotFound("abc1234".to_string()))
    );
    assert_eq!(
        SnapshotStore::find_by_id(Vec::new(), "a"),
        Err(MoteError::SnapshotNotFound("a".to_string()))
    );
    // the empty prefix matches every snapshot
    assert_eq!(
        SnapshotStore::find_by_id(snapshots, ""),
        Err(MoteError::AmbiguousSnapshotId("".to_string()))
    );
    assert_eq!(
        SnapshotStore::find_by_id(vec![with_id("only", 1)], ""),
        Ok(with_id("only", 1))
    );
}

#[test]
fn cleanup_marks_by_count_and_by_age() {
    let day = 86_400;
    let now = at(1_700_000_000);
    let listed = vec![
        with_id("new", 1_700_000_000 - 1),
        with_id("week", 1_700_000_000 - 7 * day),
        with_id("month", 1_700_000_000 - 30 * day),
        with_id("older", 1_700_000_000 - 31 * day),
        with_id("oldest", 1_700_000_000 - 400 * day),
    ];
    // by age only: more than 30 whole days
    assert_eq!(SnapshotStore::cleanup(&listed, &now, 1000, 30), vec![3, 4]);
    // by count only
    assert_eq!(SnapshotStore::cleanup(&listed, &now, 2, 1000), vec![2, 3, 4]);
    // both
    assert_eq!(SnapshotStore::cleanup(&listed, &now, 4, 6), vec![1, 2, 3, 4]);
    assert_eq!(SnapshotStore::cleanup(&listed, &now, 0, 1000), vec![0, 1, 2, 3, 4]);
    assert_eq!(SnapshotStore::cleanup(&listed, &now, 1000, 1000), Vec::<usize>::new());
    assert_eq!(SnapshotStore::cleanup(&listed, &now, 5, 0), vec![1, 2, 3, 4]);
}

#[test]
fn retention_marks_by_position_and_age() {
    let ages = vec![0, 7, 30, 31, 400];
    assert_eq!(SnapshotStore::mark_expired(&ages, 1000, 30), vec![3, 4]);
    assert_eq!(SnapshotStore::mark_expired(&ages, 2, 1000), vec![2, 3, 4]);
    assert_eq!(SnapshotStore::mark_expired(&ages, 4, 6), vec![1, 2, 3, 4]);
    assert_eq!(SnapshotStore::mark_expired(&ages, 0, 1000), vec![0, 1, 2, 3, 4]);
    assert_eq!(SnapshotStore::mark_expired(&ages, 5, 400), Vec::<usize>::new());
    // an age is compared strictly; a negative age never expires
    assert_eq!(SnapshotStore::mark_expired(&vec![30, -1, i64::MIN, 31], 10, 30), vec![3]);
    assert_eq!(SnapshotStore::mark_expired(&vec![i64::MAX], 1, u32::MAX), vec![0]);
    assert_eq!(SnapshotStore::mark_expired(&Vec::new(), 0, 0), Vec::<usize>::new());
}

#[test]
fn ages_are_whole_days_at_now() {
    let day = 86_400;
    let now = at(1_700_000_000);
    let listed = vec![
        with_id("a", 1_700_000_000),
        with_id("b", 1_700_000_000 - day + 1),
        with_id("c", 1_700_000_000 - 31 * day),
        with_id("d", 1_700_000_000 + 3 * day),
    ];
    assert_eq!(SnapshotStore::ages(&listed, &now), vec![0, 0, 31, -3]);
}

#[test]
fn cleanup_keeps_snapshots_from_the_future() {
    let now = at(1_700_000_000);
    let listed = vec![with_id("ahead", 1_700_000_000 + 10 * 86_400)];
    assert_eq!(SnapshotStore::cleanup(&listed, &now, 10, 0), Vec::<usize>::new());
}

#[test]
fn remove_picks_the_first_name_that_holds_the_short_id() {
    let names = vec![
        "index".to_string(),
        "20231114_221320_deadbeef.json".to_string(),
        "20231115_000000_af45070d.json".to_string(),
        "copy_of_af45070d.json".to_string(),
    ];
    assert_eq!(
        SnapshotStore::remove(
            &names,
            "af45070d40ce624fd8731237934baa7f2968b6092190804f406af1f0aa4ef09f"
        ),
        Some(2)
    );
    assert_eq!(SnapshotStore::remove(&names, "deadbeef"), Some(1));
    assert_eq!(SnapshotStore::remove(&names, "0000"), Some(2));
    assert_eq!(SnapshotStore::remove(&names, "ffffffffff"), None);
    assert_eq!(SnapshotStore::remove(&Vec::new(), "af45070d"), None);
}

#[test]
fn file_entries_are_copied_whole() {
    let e = FileEntry {
        path: "p".to_string(),
        hash: "h".to_string(),
        size: 7,
        mode: Some("755".to_string()),
    };
    assert_eq!(e.copy(), e);
}
