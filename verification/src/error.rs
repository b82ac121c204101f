//! The failures that the snapshot engine reports.

use vstd::prelude::*;

verus! {

/// What can go wrong. Failures that come from outside (reading, writing,
/// decoding a document) carry the text that the outside gave.
#[derive(Debug, Clone, PartialEq, Eq)]
pub enum MoteError {
    NotInitialized,
    AlreadyInitialized,
    NoVcsDirectory,
    SnapshotNotFound(String),
    NoSnapshotsAvailable,
    AmbiguousSnapshotId(String),
    FileNotFoundInSnapshot(String),
    ObjectNotFound(String),
    HashMismatch { expected: String, actual: String },
    ConfigRead(String),
    ConfigParse(String),
    Io(String),
    Json(String),
    TomlParse(String),
    ProjectNotFound(String),
    ContextNotFound(String),
    ContextAlreadyExists(String),
    InvalidName(String),
    InvalidArguments(String),
}

impl MoteError {
    /// The line shown to the user for this failure.
    pub open spec fn message_text(self) -> Seq<char> {
        match self {
            MoteError::NotInitialized => "Mote is not initialized. Run 'mote init' first."@,
            MoteError::AlreadyInitialized => "Mote is already initialized in this directory."@,
            MoteError::NoVcsDirectory =>
                "No VCS directory found (.git or .jj). Required for location_strategy = 'vcs'."@,
            MoteError::SnapshotNotFound(id) => "Snapshot not found: "@ + id@,
            MoteError::NoSnapshotsAvailable => "No snapshots available"@,
            MoteError::AmbiguousSnapshotId(id) => "Ambiguous snapshot ID: "@ + id@
                + ". Multiple matches found."@,
            MoteError::FileNotFoundInSnapshot(path) => "File not found in snapshot: "@ + path@,
            MoteError::ObjectNotFound(hash) => "Object not found: "@ + hash@,
            MoteError::HashMismatch { expected, actual } => "Object hash mismatch: expected "@
                + expected@ + ", got "@ + actual@,
            MoteError::ConfigRead(text) => "Failed to read config: "@ + text@,
            MoteError::ConfigParse(text) => "Failed to parse config: "@ + text@,
            MoteError::Io(text) => "IO error: "@ + text@,
            MoteError::Json(text) => "JSON error: "@ + text@,
            MoteError::TomlParse(text) => "TOML parse error: "@ + text@,
            MoteError::ProjectNotFound(name) => "Project not found: "@ + name@,
            MoteError::ContextNotFound(name) => "Context not found: "@ + name@,
            MoteError::ContextAlreadyExists(name) => "Context already exists: "@ + name@,
            MoteError::InvalidName(text) => "Invalid name: "@ + text@,
            MoteError::InvalidArguments(text) => "Invalid arguments: "@ + text@,
        }
    }

    /// The line shown to the user for this failure.
    pub fn message(&self) -> (out: String)
        ensures
            out@ == self.message_text(),
    {
        match self {
            MoteError::NotInitialized => String::from_str(
                "Mote is not initialized. Run 'mote init' first.",
            ),
            MoteError::AlreadyInitialized => String::from_str(
                "Mote is already initialized in this directory.",
            ),
            MoteError::NoVcsDirectory => String::from_str(
                "No VCS directory found (.git or .jj). Required for location_strategy = 'vcs'.",
            ),
            MoteError::SnapshotNotFound(id) => crate::text::concat("Snapshot not found: ", id),
            MoteError::NoSnapshotsAvailable => String::from_str("No snapshots available"),
            MoteError::AmbiguousSnapshotId(id) => crate::text::concat3(
                "Ambiguous snapshot ID: ",
                id,
                ". Multiple matches found.",
            ),
            MoteError::FileNotFoundInSnapshot(path) => crate::text::concat(
                "File not found in snapshot: ",
                path,
            ),
            MoteError::ObjectNotFound(hash) => crate::text::concat("Object not found: ", hash),
            MoteError::HashMismatch { expected, actual } => {
                let mut out = crate::text::concat3(
                    "Object hash mismatch: expected ",
                    expected,
                    ", got ",
                );
                out.append(actual);
                out
            },
            MoteError::ConfigRead(text) => crate::text::concat("Failed to read config: ", text),
            MoteError::ConfigParse(text) => crate::text::concat("Failed to parse config: ", text),
            MoteError::Io(text) => crate::text::concat("IO error: ", text),
            MoteError::Json(text) => crate::text::concat("JSON error: ", text),
            MoteError::TomlParse(text) => crate::text::concat("TOML parse error: ", text),
            MoteError::ProjectNotFound(name) => crate::text::concat("Project not found: ", name),
            MoteError::ContextNotFound(name) => crate::text::concat("Context not found: ", name),
            MoteError::ContextAlreadyExists(name) => crate::text::concat(
                "Context already exists: ",
                name,
            ),
            MoteError::InvalidName(text) => crate::text::concat("Invalid name: ", text),
            MoteError::InvalidArguments(text) => crate::text::concat("Invalid arguments: ", text),
        }
    }
}

} // verus!
