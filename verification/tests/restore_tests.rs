use mote::commands::restore::{
    create_backup_snapshot, next_phase, restore_all_files, restore_destination, restore_files,
    restore_single_file, restore_step, to_relative, RestorePhase, RestoreStep, SingleRestore,
};
use mote::commands::snapshot::{cmd_snapshot, notice, SnapshotDecision};
use mote::storage::objects::ObjectStore;
use mote::storage::snapshots::{FileEntry, Snapshot};
use mote::timestamp::Timestamp;

fn entry(path: &str, content: &[u8]) -> FileEntry {
    FileEntry {
        path: path.to_string(),
        hash: ObjectStore::compute_hash(content),
        size: content.len() as u64,
        mode: None,
    }
}

fn snapshot(files: Vec<FileEntry>) -> Snapshot {
    Snapshot::new(files, None, None, Timestamp::new(1_700_000_000, 0).unwrap())
}

#[test]
fn paths_given_by_the_user_are_made_relative() {
    assert_eq!(to_relative("/tree", "/tree/src/a.rs"), "src/a.rs");
    assert_eq!(to_relative("/tree/", "/tree/src/a.rs"), "src/a.rs");
    assert_eq!(to_relative("/tree", "src/a.rs"), "src/a.rs");
    assert_eq!(to_relative("/tree", "/elsewhere/a.rs"), "/elsewhere/a.rs");
    assert_eq!(to_relative("/tree", "/treehouse/a.rs"), "/treehouse/a.rs");
    assert_eq!(to_relative("/tree", "/tree"), "");
    assert_eq!(to_relative("/", "/a/b"), "a/b");
    assert_eq!(to_relative("/a/b/c", "/a"), "/a");
    assert_eq!(restore_destination("/tree", "/tree/x/y"), "/tree/x/y");
    assert_eq!(restore_destination("/tree", "x/y"), "/tree/x/y");
}

#[test]
fn relative_form_agrees_with_std_strip_prefix() {
    for (root, path) in [
        ("/tree", "/tree/a"),
        ("/tree/", "/tree/a/b"),
        ("/tree", "/other/a"),
        ("/tree", "/treex/a"),
        ("/", "/a"),
        ("/a/b", "/a/b"),
    ] {
        let p = std::path::Path::new(path);
        let expected = p.strip_prefix(root).unwrap_or(p).to_string_lossy().to_string();
        assert_eq!(to_relative(root, path), expected, "{} {}", root, path);
    }
}

#[test]
fn single_file_restore() {
    let snap = snapshot(vec![entry("a.txt", b"A"), entry("dir/b.txt", b"B")]);
    assert_eq!(
        restore_single_file("/tree", &snap, "dir/b.txt", true, false),
        SingleRestore::Restore {
            entry: entry("dir/b.txt", b"B"),
            dest: "/tree/dir/b.txt".to_string(),
        }
    );
    assert_eq!(
        restore_single_file("/tree", &snap, "/tree/a.txt", false, false),
        SingleRestore::Restore { entry: entry("a.txt", b"A"), dest: "/tree/a.txt".to_string() }
    );
    assert_eq!(
        restore_single_file("/tree", &snap, "a.txt", true, true),
        SingleRestore::WouldRestore { entry: entry("a.txt", b"A") }
    );
}

#[test]
fn single_file_restore_removes_what_the_snapshot_does_not_hold() {
    let snap = snapshot(vec![entry("a.txt", b"A")]);
    assert_eq!(
        restore_single_file("/tree", &snap, "extra.txt", true, false),
        SingleRestore::Delete { dest: "/tree/extra.txt".to_string() }
    );
    assert_eq!(
        restore_single_file("/tree", &snap, "extra.txt", true, true),
        SingleRestore::WouldDelete
    );
    assert_eq!(
        restore_single_file("/tree", &snap, "extra.txt", false, false),
        SingleRestore::Nothing
    );
    assert_eq!(
        restore_single_file("/tree", &snap, "extra.txt", false, true),
        SingleRestore::Nothing
    );
}

#[test]
fn phases_of_a_full_restore() {
    assert_eq!(next_phase(RestorePhase::Start, false, false), RestorePhase::TakeBackup);
    assert_eq!(next_phase(RestorePhase::Start, true, false), RestorePhase::IterateManifest);
    assert_eq!(next_phase(RestorePhase::Start, false, true), RestorePhase::IterateManifest);
    assert_eq!(next_phase(RestorePhase::TakeBackup, false, false), RestorePhase::IterateManifest);
    assert_eq!(next_phase(RestorePhase::IterateManifest, false, false), RestorePhase::End);
    assert_eq!(next_phase(RestorePhase::End, true, true), RestorePhase::End);
}

#[test]
fn backup_before_a_restore() {
    let target = snapshot(vec![entry("a", b"1")]);
    let now = Timestamp::new(1_700_000_100, 0).unwrap();
    let files = vec![entry("a", b"2"), entry("b", b"3")];
    let backup = create_backup_snapshot(files.clone(), &target, now).unwrap();
    assert_eq!(backup.trigger, Some("auto-backup".to_string()));
    assert_eq!(
        backup.message,
        Some(format!("Backup before restore to {}", target.short_id()))
    );
    assert_eq!(backup.files, files);
    assert_eq!(backup.timestamp, now);
    assert_eq!(backup.id, Snapshot::generate_id(&now, &files));
    assert_eq!(create_backup_snapshot(Vec::new(), &target, now), None);
}

#[test]
fn restore_step_skips_what_is_there_already() {
    let file = entry("a", b"content");
    assert_eq!(restore_step(&file, Some(b"content"), false), RestoreStep::Skip);
    assert_eq!(restore_step(&file, Some(b"changed"), false), RestoreStep::Restore);
    assert_eq!(restore_step(&file, None, false), RestoreStep::Restore);
    assert_eq!(restore_step(&file, Some(b"content"), true), RestoreStep::WouldRestore);
    assert_eq!(restore_step(&file, None, true), RestoreStep::WouldRestore);
}

#[test]
fn full_restore_counts() {
    let files = vec![entry("a", b"1"), entry("b", b"2"), entry("c", b"3"), entry("d", b"4")];
    let on_disk = vec![Some(b"1".to_vec()), Some(b"x".to_vec()), None, Some(b"y".to_vec())];
    let steps = restore_all_files(&files, &on_disk, false);
    assert_eq!(
        steps,
        vec![RestoreStep::Skip, RestoreStep::Restore, RestoreStep::Restore, RestoreStep::Restore]
    );
    // the last file could not be written
    assert_eq!(restore_files(&steps, &vec![false, true, true, false]), (2, 1));
    let said = restore_all_files(&files, &on_disk, true);
    assert_eq!(said, vec![RestoreStep::WouldRestore; 4]);
    assert_eq!(restore_files(&said, &vec![false; 4]), (4, 0));
    assert_eq!(restore_files(&Vec::new(), &Vec::new()), (0, 0));
}

#[test]
fn what_becomes_of_a_scan() {
    let files = vec![entry("a", b"1"), entry("b", b"2")];
    let latest = snapshot(files.clone());
    assert_eq!(cmd_snapshot(&Vec::new(), None, false), SnapshotDecision::NoFiles);
    assert_eq!(cmd_snapshot(&Vec::new(), Some(&latest), true), SnapshotDecision::NoFiles);
    assert_eq!(cmd_snapshot(&files, None, false), SnapshotDecision::Create);
    assert_eq!(cmd_snapshot(&files, None, true), SnapshotDecision::Create);
    assert_eq!(cmd_snapshot(&files, Some(&latest), true), SnapshotDecision::Unchanged);
    // without the automatic mode a snapshot is taken even of an unchanged tree
    assert_eq!(cmd_snapshot(&files, Some(&latest), false), SnapshotDecision::Create);
    let changed = vec![entry("a", b"1"), entry("b", b"changed")];
    assert_eq!(cmd_snapshot(&changed, Some(&latest), true), SnapshotDecision::Create);
    let fewer = vec![entry("a", b"1")];
    assert_eq!(cmd_snapshot(&fewer, Some(&latest), true), SnapshotDecision::Create);
}

#[test]
fn the_user_is_told_when_there_are_no_files() {
    assert_eq!(
        notice(SnapshotDecision::NoFiles, false),
        Some("No files to snapshot".to_string())
    );
    assert_eq!(notice(SnapshotDecision::NoFiles, true), None);
    assert_eq!(notice(SnapshotDecision::Create, false), None);
    assert_eq!(notice(SnapshotDecision::Unchanged, false), None);
}
