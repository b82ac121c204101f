use mote::commands::diff::{
    diff_base, diff_files, diff_snapshots, heading, render_name_only, Change, ChangeKind,
};
use mote::commands::unified::{
    generate_unified_diff, generate_unified_diff_with_content, render_hunks, render_unified,
    side_content, unified_text_diff, ChangeDiff, DiffLine, DiffReport, Fetched, Hunk, LineTag,
    SideContent,
};
use mote::commands::collect::PathTable;
use mote::commands::working::{
    diff_with_working_dir, reads_file, working_changes, WorkingFile,
};
use mote::error::MoteError;
use mote::storage::objects::ObjectStore;
use mote::storage::snapshots::{FileEntry, Snapshot};
use mote::timestamp::Timestamp;

fn entry(path: &str, hash: &str) -> FileEntry {
    FileEntry { path: path.to_string(), hash: hash.to_string(), size: 1, mode: None }
}

fn change(kind: ChangeKind, path: &str, old: Option<&str>, new: Option<&str>) -> Change {
    Change {
        kind,
        path: path.to_string(),
        old_hash: old.map(|s| s.to_string()),
        new_hash: new.map(|s| s.to_string()),
    }
}

fn frame(content: &[u8]) -> Vec<u8> {
    ObjectStore::new("/o".to_string(), 3)
        .store(content, false)
        .unwrap()
        .write
        .unwrap()
        .data
}

fn hash(content: &[u8]) -> String {
    ObjectStore::compute_hash(content)
}

fn snapshot(secs: i64, files: Vec<(&str, &[u8])>) -> Snapshot {
    let files = files
        .into_iter()
        .map(|(p, c)| FileEntry { path: p.to_string(), hash: hash(c), size: c.len() as u64, mode: None })
        .collect();
    Snapshot::new(files, None, None, Timestamp::new(secs, 0).unwrap())
}

fn expected_hunks(old: &str, new: &str, radius: usize) -> String {
    similar::TextDiff::from_lines(old, new)
        .unified_diff()
        .context_radius(radius)
        .to_string()
}

#[test]
fn set_diff_classifies_by_path() {
    let old = vec![entry("same", "h"), entry("changed", "h1"), entry("gone", "h2")];
    let new = vec![entry("new", "h3"), entry("changed", "h9"), entry("same", "h")];
    assert_eq!(
        diff_files(&old, &new),
        vec![
            change(ChangeKind::Added, "new", None, Some("h3")),
            change(ChangeKind::Modified, "changed", Some("h1"), Some("h9")),
            change(ChangeKind::Deleted, "gone", Some("h2"), None),
        ]
    );
    assert_eq!(diff_files(&old, &old), Vec::new());
    assert_eq!(diff_files(&Vec::new(), &Vec::new()), Vec::new());
}

#[test]
fn set_diff_of_an_empty_side() {
    let files = vec![entry("a", "h1"), entry("b", "h2")];
    assert_eq!(
        diff_files(&Vec::new(), &files),
        vec![
            change(ChangeKind::Added, "a", None, Some("h1")),
            change(ChangeKind::Added, "b", None, Some("h2")),
        ]
    );
    assert_eq!(
        diff_files(&files, &Vec::new()),
        vec![
            change(ChangeKind::Deleted, "a", Some("h1"), None),
            change(ChangeKind::Deleted, "b", Some("h2"), None),
        ]
    );
}

#[test]
fn set_diff_counts_the_last_entry_of_a_path() {
    let old = vec![entry("a", "h1"), entry("a", "h2")];
    let new = vec![entry("a", "h2"), entry("a", "h3"), entry("a", "h2")];
    assert_eq!(diff_files(&old, &new), Vec::new());
    let new = vec![entry("a", "h2"), entry("a", "h3")];
    assert_eq!(
        diff_files(&old, &new),
        vec![change(ChangeKind::Modified, "a", Some("h2"), Some("h3"))]
    );
}

#[test]
fn name_only_lines() {
    let changes = vec![
        change(ChangeKind::Modified, "a.txt", Some("1"), Some("2")),
        change(ChangeKind::Added, "dir/b", None, Some("3")),
        change(ChangeKind::Deleted, "c d", Some("4"), None),
    ];
    assert_eq!(render_name_only(&changes), "M\ta.txt\nA\tdir/b\nD\tc d\n");
    assert_eq!(render_name_only(&Vec::new()), "");
    assert_eq!(heading("abc1234", "def5678"), "Comparing abc1234 -> def5678\n\n");
}

#[test]
fn hunks_are_shown_as_a_unified_diff_shows_them() {
    let hunks = vec![Hunk {
        header: "@@ -1,2 +1,2 @@".to_string(),
        lines: vec![
            DiffLine { tag: LineTag::Equal, text: "same\n".to_string(), missing_newline: false },
            DiffLine { tag: LineTag::Delete, text: "old\n".to_string(), missing_newline: false },
            DiffLine { tag: LineTag::Insert, text: "new".to_string(), missing_newline: true },
        ],
    }];
    assert_eq!(
        render_hunks(&hunks),
        "@@ -1,2 +1,2 @@\n same\n-old\n+new\n\\ No newline at end of file\n"
    );
    assert_eq!(render_hunks(&Vec::new()), "");
}

#[test]
fn unified_diff_of_one_path() {
    let out = generate_unified_diff_with_content("a.txt", b"one\ntwo\nthree\n", b"one\n2\nthree\n", 3);
    assert_eq!(
        out,
        "diff --mote a/a.txt b/a.txt\n--- a/a.txt\n+++ b/a.txt\n@@ -1,3 +1,3 @@\n one\n-two\n+2\n three\n\n"
    );
}

#[test]
fn unified_diff_agrees_with_the_differ_of_similar() {
    let old = "a\nb\nc\nd\ne\nf\ng\nh\ni\nj\nk\nl\nm\n";
    let new = "a\nB\nc\nd\ne\nf\ng\nh\ni\nj\nk\nL\nm";
    for radius in [0usize, 1, 3, 10] {
        let out = generate_unified_diff_with_content("p", old.as_bytes(), new.as_bytes(), radius);
        let expected = format!(
            "diff --mote a/p b/p\n--- a/p\n+++ b/p\n{}\n",
            expected_hunks(old, new, radius)
        );
        assert_eq!(out, expected, "radius {}", radius);
    }
    // a smaller radius gives more and shorter hunks
    assert_ne!(
        generate_unified_diff_with_content("p", old.as_bytes(), new.as_bytes(), 0),
        generate_unified_diff_with_content("p", old.as_bytes(), new.as_bytes(), 3)
    );
}

#[test]
fn unified_diff_against_an_empty_side() {
    assert_eq!(
        generate_unified_diff_with_content("n", b"", b"x\ny\n", 3),
        "diff --mote a/n b/n\n--- a/n\n+++ b/n\n@@ -0,0 +1,2 @@\n+x\n+y\n\n"
    );
    assert_eq!(
        generate_unified_diff_with_content("n", b"x\n", b"", 3),
        "diff --mote a/n b/n\n--- a/n\n+++ b/n\n@@ -1 +0,0 @@\n-x\n\n"
    );
    // both sides empty: the record is left out
    assert_eq!(generate_unified_diff_with_content("n", b"", b"", 3), "");
    // equal sides: the heading without hunks
    assert_eq!(
        generate_unified_diff_with_content("n", b"x\n", b"x\n", 3),
        "diff --mote a/n b/n\n--- a/n\n+++ b/n\n\n"
    );
}

#[test]
fn bytes_that_are_no_text_are_replaced() {
    let out = generate_unified_diff_with_content("bin", &[0xff, 0xfe, b'\n'], b"ok\n", 3);
    assert!(out.contains("-\u{fffd}\u{fffd}\n"));
    assert!(out.contains("+ok\n"));
}

#[test]
fn unified_text_diff_puts_the_parts_together() {
    let hunks = vec![Hunk {
        header: "@@ -1 +1 @@".to_string(),
        lines: vec![
            DiffLine { tag: LineTag::Delete, text: "a\n".to_string(), missing_newline: false },
            DiffLine { tag: LineTag::Insert, text: "b\n".to_string(), missing_newline: false },
        ],
    }];
    assert_eq!(
        unified_text_diff("f", "a\n", "b\n", &hunks),
        "diff --mote a/f b/f\n--- a/f\n+++ b/f\n@@ -1 +1 @@\n-a\n+b\n\n"
    );
    assert_eq!(unified_text_diff("f", "", "", &hunks), "");
}

#[test]
fn side_content_of_each_kind_of_side() {
    assert_eq!(
        side_content(None, None),
        Ok(SideContent { bytes: Vec::new(), missing: false })
    );
    let h = hash(b"data");
    assert_eq!(
        side_content(Some(&h), None),
        Ok(SideContent { bytes: Vec::new(), missing: true })
    );
    assert_eq!(
        side_content(Some(&h), Some(&frame(b"data"))),
        Ok(SideContent { bytes: b"data".to_vec(), missing: false })
    );
    assert_eq!(
        side_content(Some(&h), Some(&frame(b"other"))),
        Err(MoteError::HashMismatch { expected: h.clone(), actual: hash(b"other") })
    );
    assert!(matches!(side_content(Some(&h), Some(b"junk")), Err(MoteError::Io(_))));
}

#[test]
fn snapshots_are_compared_by_name() {
    let first = snapshot(100, vec![("a.txt", b"v1"), ("gone", b"x")]);
    let second = snapshot(200, vec![("a.txt", b"v2"), ("new", b"y")]);
    let report = diff_snapshots(&first, &second, true, 3, &Vec::new()).unwrap();
    assert_eq!(
        report.text,
        format!(
            "Comparing {} -> {}\n\nM\ta.txt\nA\tnew\nD\tgone\n",
            first.short_id(),
            second.short_id()
        )
    );
    assert_eq!(report.missing, Vec::<String>::new());
}

#[test]
fn snapshots_are_compared_by_content() {
    let first = snapshot(100, vec![("a.txt", b"v1\n"), ("gone", b"x\n")]);
    let second = snapshot(200, vec![("a.txt", b"v2\n"), ("new", b"y\n")]);
    let changes = diff_files(&first.files, &second.files);
    assert_eq!(changes.len(), 3);
    let fetched = vec![
        Fetched { old: Some(frame(b"v1\n")), new: Some(frame(b"v2\n")) },
        Fetched { old: None, new: Some(frame(b"y\n")) },
        Fetched { old: Some(frame(b"x\n")), new: None },
    ];
    let report = diff_snapshots(&first, &second, false, 3, &fetched).unwrap();
    let expected = format!(
        "Comparing {} -> {}\n\n{}{}{}",
        first.short_id(),
        second.short_id(),
        "diff --mote a/a.txt b/a.txt\n--- a/a.txt\n+++ b/a.txt\n@@ -1 +1 @@\n-v1\n+v2\n\n",
        "diff --mote a/new b/new\n--- a/new\n+++ b/new\n@@ -0,0 +1 @@\n+y\n\n",
        "diff --mote a/gone b/gone\n--- a/gone\n+++ b/gone\n@@ -1 +0,0 @@\n-x\n\n",
    );
    assert_eq!(report.text, expected);
    assert_eq!(report.missing, Vec::<String>::new());
}

#[test]
fn a_missing_object_counts_as_empty_content() {
    let changes = vec![change(
        ChangeKind::Modified,
        "a",
        Some(&hash(b"old\n")),
        Some(&hash(b"new\n")),
    )];
    let fetched = vec![Fetched { old: None, new: Some(frame(b"new\n")) }];
    let report = render_unified(&changes, &fetched, 3).unwrap();
    assert_eq!(
        report,
        DiffReport {
            text: "diff --mote a/a b/a\n--- a/a\n+++ b/a\n@@ -0,0 +1 @@\n+new\n\n".to_string(),
            missing: vec![hash(b"old\n")],
        }
    );
    // both objects missing: both sides are empty and the record is left out
    let fetched = vec![Fetched { old: None, new: None }];
    let report = render_unified(&changes, &fetched, 3).unwrap();
    assert_eq!(report.text, "");
    assert_eq!(report.missing, vec![hash(b"new\n"), hash(b"old\n")]);
}

#[test]
fn unified_diff_of_one_change() {
    let c = change(ChangeKind::Modified, "f", Some(&hash(b"a\n")), Some(&hash(b"b\n")));
    let both = Fetched { old: Some(frame(b"a\n")), new: Some(frame(b"b\n")) };
    assert_eq!(
        generate_unified_diff(&c, &both, 3),
        Ok(ChangeDiff {
            text: "diff --mote a/f b/f\n--- a/f\n+++ b/f\n@@ -1 +1 @@\n-a\n+b\n\n".to_string(),
            missing: Vec::new(),
        })
    );
    let new_missing = Fetched { old: Some(frame(b"a\n")), new: None };
    assert_eq!(
        generate_unified_diff(&c, &new_missing, 3),
        Ok(ChangeDiff {
            text: "diff --mote a/f b/f\n--- a/f\n+++ b/f\n@@ -1 +0,0 @@\n-a\n\n".to_string(),
            missing: vec![hash(b"b\n")],
        })
    );
    // the new side is read first: its failure is the one reported
    let both_bad = Fetched { old: Some(b"junk".to_vec()), new: Some(frame(b"zzz")) };
    assert_eq!(
        generate_unified_diff(&c, &both_bad, 3),
        Err(MoteError::HashMismatch { expected: hash(b"b\n"), actual: hash(b"zzz") })
    );
}

#[test]
fn a_damaged_object_stops_the_comparison() {
    let changes = vec![
        change(ChangeKind::Added, "ok", None, Some(&hash(b"fine\n"))),
        change(ChangeKind::Added, "bad", None, Some(&hash(b"expected\n"))),
    ];
    let fetched = vec![
        Fetched { old: None, new: Some(frame(b"fine\n")) },
        Fetched { old: None, new: Some(frame(b"something else\n")) },
    ];
    assert_eq!(
        render_unified(&changes, &fetched, 3),
        Err(MoteError::HashMismatch {
            expected: hash(b"expected\n"),
            actual: hash(b"something else\n"),
        })
    );
}

#[test]
fn working_tree_changes() {
    let snap = snapshot(
        100,
        vec![("same", b"s"), ("changed", b"old"), ("gone", b"g"), ("unreadable", b"u")],
    );
    let current = vec![
        WorkingFile { path: "fresh".to_string(), content: Some(b"f".to_vec()) },
        WorkingFile { path: "changed".to_string(), content: Some(b"new".to_vec()) },
        WorkingFile { path: "same".to_string(), content: Some(b"s".to_vec()) },
        WorkingFile { path: "unreadable".to_string(), content: None },
        WorkingFile { path: "unread".to_string(), content: None },
    ];
    let by_name = working_changes(&snap.files, &current, true);
    let kinds: Vec<(ChangeKind, &str, Option<usize>)> = by_name
        .iter()
        .map(|c| (c.change.kind, c.change.path.as_str(), c.file))
        .collect();
    assert_eq!(
        kinds,
        vec![
            (ChangeKind::Added, "fresh", Some(0)),
            (ChangeKind::Modified, "changed", Some(1)),
            (ChangeKind::Added, "unread", Some(4)),
            (ChangeKind::Deleted, "gone", None),
        ]
    );
    assert_eq!(by_name[1].change.old_hash, Some(hash(b"old")));
    assert_eq!(by_name[1].change.new_hash, Some(hash(b"new")));
    assert_eq!(by_name[2].change.new_hash, None);
    // for the unified form a file that was not read is passed over
    let by_content = working_changes(&snap.files, &current, false);
    let paths: Vec<&str> = by_content.iter().map(|c| c.change.path.as_str()).collect();
    assert_eq!(paths, vec!["fresh", "changed", "gone"]);
}

#[test]
fn files_are_read_only_where_their_content_counts() {
    let snap = snapshot(100, vec![("known", b"k")]);
    let known = PathTable::new(&snap.files);
    assert!(reads_file(&known, "known", true));
    assert!(reads_file(&known, "known", false));
    assert!(!reads_file(&known, "fresh", true));
    assert!(reads_file(&known, "fresh", false));
    assert_eq!(known.hash_of("known"), Some(snap.files[0].hash.as_str()));
    assert_eq!(known.hash_of("fresh"), None);
    assert!(known.counts_at(0));
}

#[test]
fn working_tree_is_compared_by_name() {
    let snap = snapshot(100, vec![("a.txt", b"v1"), ("gone", b"g")]);
    let current = vec![
        WorkingFile { path: "a.txt".to_string(), content: Some(b"v2".to_vec()) },
        WorkingFile { path: "b.txt".to_string(), content: None },
    ];
    let report = diff_with_working_dir(&snap, &current, true, 3, &Vec::new()).unwrap();
    assert_eq!(
        report.text,
        format!(
            "Comparing {} -> working directory\n\nM\ta.txt\nA\tb.txt\nD\tgone\n",
            snap.short_id()
        )
    );
}

#[test]
fn working_tree_is_compared_by_content() {
    let snap = snapshot(100, vec![("a.txt", b"v1\n"), ("gone", b"g\n")]);
    let current = vec![
        WorkingFile { path: "a.txt".to_string(), content: Some(b"v2\n".to_vec()) },
        WorkingFile { path: "b.txt".to_string(), content: Some(b"b\n".to_vec()) },
    ];
    let stored = vec![Some(frame(b"v1\n")), None, None];
    let report = diff_with_working_dir(&snap, &current, false, 3, &stored).unwrap();
    let expected = format!(
        "Comparing {} -> working directory\n\n{}{}{}",
        snap.short_id(),
        "diff --mote a/a.txt b/a.txt\n--- a/a.txt\n+++ b/a.txt\n@@ -1 +1 @@\n-v1\n+v2\n\n",
        "diff --mote a/b.txt b/b.txt\n--- a/b.txt\n+++ b/b.txt\n@@ -0,0 +1 @@\n+b\n\n",
        "",
    );
    // the object of the deleted file is missing: both sides count as empty
    assert_eq!(report.text, expected);
    assert_eq!(report.missing, vec![hash(b"g\n")]);

    let stored = vec![Some(frame(b"v1\n")), None, Some(b"junk".to_vec())];
    assert!(matches!(
        diff_with_working_dir(&snap, &current, false, 3, &stored),
        Err(MoteError::Io(_))
    ));
}

#[test]
fn the_base_of_a_comparison() {
    let a = snapshot(100, vec![("a", b"1")]);
    let b = snapshot(200, vec![("a", b"2")]);
    let listed = vec![b.clone(), a.clone()];
    assert_eq!(diff_base(listed.clone(), None), Ok(b.clone()));
    assert_eq!(diff_base(listed.clone(), Some(&a.id[..7])), Ok(a.clone()));
    assert_eq!(
        diff_base(listed, Some("zzzz")),
        Err(MoteError::SnapshotNotFound("zzzz".to_string()))
    );
    assert_eq!(
        diff_base(Vec::new(), None),
        Err(MoteError::ConfigRead("No snapshots found".to_string()))
    );
}
