//! The restorer: what is written to bring the working tree back to a
//! snapshot, as a whole or for one path.

use vstd::prelude::*;
use crate::path_resolver::{
    is_absolute,
    is_absolute_path,
    join,
    join_spec,
    strip_prefix,
    stripped,
};
use crate::storage::objects::{content_hash, ObjectStore};
use crate::storage::snapshots::{id_prefix, position_of, snapshot_id, FileEntry, Snapshot};
use crate::text::str_eq;
use crate::timestamp::Timestamp;

verus! {

/// The form in which a snapshot holds a path given by the user: an
/// absolute path is made relative to the root of the tree, a relative one
/// is taken as it is.
pub open spec fn relative_form(root: Seq<char>, path: Seq<char>) -> Seq<char> {
    if is_absolute_path(path) {
        stripped(root, path)
    } else {
        path
    }
}

/// The form in which a snapshot holds a path given by the user.
pub fn to_relative(project_root: &str, file_path: &str) -> (out: String)
    ensures
        out@ == relative_form(project_root@, file_path@),
{
    if !is_absolute(file_path) {
        return String::from_str(file_path);
    }
    strip_prefix(file_path, project_root)
}

/// What restoring one path does.
#[derive(Debug, Clone, PartialEq, Eq)]
pub enum SingleRestore {
    /// The snapshot holds the path: its object is written to `dest`.
    Restore { entry: FileEntry, dest: String },
    /// As `Restore`, but only said.
    WouldRestore { entry: FileEntry },
    /// The snapshot does not hold the path and a file is there: it is
    /// removed.
    Delete { dest: String },
    /// As `Delete`, but only said.
    WouldDelete,
    /// Neither the snapshot nor the tree holds the path.
    Nothing,
}

/// Where a path given by the user lies in the tree.
pub fn restore_destination(project_root: &str, file_path: &str) -> (dest: String)
    ensures
        dest@ == join_spec(project_root@, relative_form(project_root@, file_path@)),
{
    let relative = to_relative(project_root, file_path);
    join(project_root, relative.as_str())
}

/// Restores one path from `snapshot`. `on_disk` says whether a file stands
/// at the destination. A path that the snapshot does not hold is removed
/// from the tree: for this one path the snapshot says what exists.
pub fn restore_single_file(
    project_root: &str,
    snapshot: &Snapshot,
    file_path: &str,
    on_disk: bool,
    dry_run: bool,
) -> (action: SingleRestore)
    ensures
        match position_of(snapshot.files@, relative_form(project_root@, file_path@)) {
            Some(i) => if dry_run {
                action == (SingleRestore::WouldRestore { entry: snapshot.files@[i] })
            } else {
                action matches SingleRestore::Restore { entry, dest } && entry == snapshot.files@[i]
                    && dest@ == join_spec(
                    project_root@,
                    relative_form(project_root@, file_path@),
                )
            },
            None => if !on_disk {
                action == SingleRestore::Nothing
            } else if dry_run {
                action == SingleRestore::WouldDelete
            } else {
                action matches SingleRestore::Delete { dest } && dest@ == join_spec(
                    project_root@,
                    relative_form(project_root@, file_path@),
                )
            },
        },
{
    let relative = to_relative(project_root, file_path);
    match snapshot.find_file(relative.as_str()) {
        Some(entry) => {
            if dry_run {
                SingleRestore::WouldRestore { entry: entry.copy() }
            } else {
                SingleRestore::Restore {
                    entry: entry.copy(),
                    dest: join(project_root, relative.as_str()),
                }
            }
        },
        None => {
            if !on_disk {
                SingleRestore::Nothing
            } else if dry_run {
                SingleRestore::WouldDelete
            } else {
                SingleRestore::Delete { dest: join(project_root, relative.as_str()) }
            }
        },
    }
}

/// The phases of a full restore.
#[derive(Debug, Clone, Copy, PartialEq, Eq, Structural)]
pub enum RestorePhase {
    Start,
    TakeBackup,
    IterateManifest,
    End,
}

/// The phase that follows `phase`: a backup is taken first unless the
/// restore is forced or only said.
pub fn next_phase(phase: RestorePhase, force: bool, dry_run: bool) -> (next: RestorePhase)
    ensures
        next == match phase {
            RestorePhase::Start => if !force && !dry_run {
                RestorePhase::TakeBackup
            } else {
                RestorePhase::IterateManifest
            },
            RestorePhase::TakeBackup => RestorePhase::IterateManifest,
            RestorePhase::IterateManifest => RestorePhase::End,
            RestorePhase::End => RestorePhase::End,
        },
{
    match phase {
        RestorePhase::Start => if !force && !dry_run {
            RestorePhase::TakeBackup
        } else {
            RestorePhase::IterateManifest
        },
        RestorePhase::TakeBackup => RestorePhase::IterateManifest,
        RestorePhase::IterateManifest => RestorePhase::End,
        RestorePhase::End => RestorePhase::End,
    }
}

/// The message of the backup taken before a restore to `target`.
pub open spec fn backup_message(target: Snapshot) -> Seq<char> {
    "Backup before restore to "@ + id_prefix(target.id@, 7)
}

/// The backup taken before a restore to `target`: a snapshot of the files
/// that the scan of the tree gave, marked `auto-backup`. None is taken of
/// an empty tree.
pub fn create_backup_snapshot(files: Vec<FileEntry>, target: &Snapshot, timestamp: Timestamp) -> (backup:
    Option<Snapshot>)
    ensures
        files@.len() == 0 ==> backup is None,
        files@.len() > 0 ==> {
            &&& backup matches Some(snapshot)
            &&& snapshot.files == files
            &&& snapshot.timestamp == timestamp
            &&& snapshot.id@ == snapshot_id(timestamp, files@)
            &&& snapshot.trigger matches Some(trigger)
            &&& trigger@ == "auto-backup"@
            &&& snapshot.message matches Some(message)
            &&& message@ == backup_message(*target)
        },
{
    if files.len() == 0 {
        return None;
    }
    let message = crate::text::concat("Backup before restore to ", target.short_id());
    Some(
        Snapshot::new(files, Some(message), Some(String::from_str("auto-backup")), timestamp),
    )
}

/// What a full restore does with one file of the manifest.
#[derive(Debug, Clone, Copy, PartialEq, Eq, Structural)]
pub enum RestoreStep {
    /// Only said: the file would be restored.
    WouldRestore,
    /// The file in the tree has the content of the snapshot already.
    Skip,
    /// The object is written to the file.
    Restore,
}

/// What a full restore does with `file`, `on_disk` being the bytes that
/// stand at its destination, if a file is there.
pub open spec fn step_for(file: FileEntry, on_disk: Option<Seq<u8>>, dry_run: bool) -> RestoreStep {
    if dry_run {
        RestoreStep::WouldRestore
    } else if on_disk is Some && content_hash(on_disk->0) == file.hash@ {
        RestoreStep::Skip
    } else {
        RestoreStep::Restore
    }
}

/// What a full restore does with `file`.
pub fn restore_step(file: &FileEntry, on_disk: Option<&[u8]>, dry_run: bool) -> (step: RestoreStep)
    ensures
        step == step_for(*file, crate::storage::objects::option_bytes(on_disk), dry_run),
{
    if dry_run {
        return RestoreStep::WouldRestore;
    }
    match on_disk {
        Some(bytes) => {
            let current = ObjectStore::compute_hash(bytes);
            if str_eq(current.as_str(), file.hash.as_str()) {
                RestoreStep::Skip
            } else {
                RestoreStep::Restore
            }
        },
        None => RestoreStep::Restore,
    }
}

/// The files counted as restored among the first `n` steps: those only
/// said, and those whose object was written.
pub open spec fn restored_among(steps: Seq<RestoreStep>, written: Seq<bool>, n: int) -> int
    decreases n,
{
    if n <= 0 {
        0
    } else {
        restored_among(steps, written, n - 1) + if steps[n - 1] == RestoreStep::WouldRestore || (
        steps[n - 1] == RestoreStep::Restore && written[n - 1]) {
            1int
        } else {
            0int
        }
    }
}

/// The files skipped among the first `n` steps.
pub open spec fn skipped_among(steps: Seq<RestoreStep>, n: int) -> int
    decreases n,
{
    if n <= 0 {
        0
    } else {
        skipped_among(steps, n - 1) + if steps[n - 1] == RestoreStep::Skip {
            1int
        } else {
            0int
        }
    }
}

/// The counts of a full restore: how many files were restored (or would
/// be), and how many were skipped because the tree held their content
/// already. `written` says for each step whether writing the file
/// succeeded; a file that could not be written counts as neither.
pub fn restore_files(steps: &Vec<RestoreStep>, written: &Vec<bool>) -> (counts: (u32, u32))
    requires
        written@.len() == steps@.len(),
        steps@.len() <= u32::MAX,
    ensures
        counts.0 == restored_among(steps@, written@, steps@.len() as int),
        counts.1 == skipped_among(steps@, steps@.len() as int),
{
    let mut restored: u32 = 0;
    let mut skipped: u32 = 0;
    let mut k: usize = 0;
    while k < steps.len()
        invariant
            k <= steps.len(),
            written@.len() == steps@.len(),
            steps@.len() <= u32::MAX,
            restored == restored_among(steps@, written@, k as int),
            skipped == skipped_among(steps@, k as int),
            restored + skipped <= k,
        decreases steps.len() - k,
    {
        match steps[k] {
            RestoreStep::WouldRestore => {
                restored = restored + 1;
            },
            RestoreStep::Skip => {
                skipped = skipped + 1;
            },
            RestoreStep::Restore => {
                if written[k] {
                    restored = restored + 1;
                }
            },
        }
        k += 1;
    }
    (restored, skipped)
}

/// The steps of a full restore, one for each file of the manifest in
/// order. `on_disk` holds for each file the bytes at its destination.
pub fn restore_all_files(files: &Vec<FileEntry>, on_disk: &Vec<Option<Vec<u8>>>, dry_run: bool) -> (steps:
    Vec<RestoreStep>)
    requires
        on_disk@.len() == files@.len(),
    ensures
        steps@.len() == files@.len(),
        forall|k: int|
            0 <= k < files@.len() ==> #[trigger] steps@[k] == step_for(
                files@[k],
                crate::commands::unified::vec_bytes(on_disk@[k]),
                dry_run,
            ),
{
    let mut steps: Vec<RestoreStep> = Vec::new();
    let mut k: usize = 0;
    while k < files.len()
        invariant
            k <= files.len(),
            on_disk@.len() == files@.len(),
            steps@.len() == k,
            forall|j: int|
                0 <= j < k ==> #[trigger] steps@[j] == step_for(
                    files@[j],
                    crate::commands::unified::vec_bytes(on_disk@[j]),
                    dry_run,
                ),
        decreases files.len() - k,
    {
        let bytes: Option<&[u8]> = match &on_disk[k] {
            Some(content) => Some(content.as_slice()),
            None => None,
        };
        steps.push(restore_step(&files[k], bytes, dry_run));
        k += 1;
    }
    steps
}

} // verus!
