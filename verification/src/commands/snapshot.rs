//! What taking a snapshot decides: whether there is anything to take, and
//! whether it would only repeat the newest snapshot.

use vstd::prelude::*;
use crate::commands::collect::{all_known, have_same_file_hashes};
use crate::storage::snapshots::{FileEntry, Snapshot};

verus! {

/// What becomes of a scan.
#[derive(Debug, Clone, Copy, PartialEq, Eq, Structural)]
pub enum SnapshotDecision {
    /// The scan gave no file: no snapshot is taken.
    NoFiles,
    /// In automatic mode, the files are those of the newest snapshot: none
    /// is taken.
    Unchanged,
    /// A snapshot is taken.
    Create,
}

/// What becomes of a scan that gave `files`, `latest` being the head of
/// the listing.
pub open spec fn decision_for(files: Seq<FileEntry>, latest: Option<Snapshot>, auto: bool) -> SnapshotDecision {
    if files.len() == 0 {
        SnapshotDecision::NoFiles
    } else if auto && latest is Some && latest->0.files@.len() == files.len() && all_known(
        latest->0.files@,
        files,
    ) {
        SnapshotDecision::Unchanged
    } else {
        SnapshotDecision::Create
    }
}

/// What becomes of a scan that gave `files`.
pub fn cmd_snapshot(files: &Vec<FileEntry>, latest: Option<&Snapshot>, auto: bool) -> (decision:
    SnapshotDecision)
    ensures
        decision == decision_for(
            files@,
            match latest {
                Some(snapshot) => Some(*snapshot),
                None => None,
            },
            auto,
        ),
{
    if files.len() == 0 {
        return SnapshotDecision::NoFiles;
    }
    if auto {
        match latest {
            Some(snapshot) => {
                if have_same_file_hashes(&snapshot.files, files) {
                    return SnapshotDecision::Unchanged;
                }
            },
            None => {},
        }
    }
    SnapshotDecision::Create
}

/// What the user is told when no snapshot is taken: in automatic mode
/// nothing.
pub fn notice(decision: SnapshotDecision, auto: bool) -> (said: Option<String>)
    ensures
        match said {
            Some(text) => decision == SnapshotDecision::NoFiles && !auto && text@
                == "No files to snapshot"@,
            None => decision != SnapshotDecision::NoFiles || auto,
        },
{
    match decision {
        SnapshotDecision::NoFiles => if auto {
            None
        } else {
            Some(String::from_str("No files to snapshot"))
        },
        _ => None,
    }
}

} // verus!
