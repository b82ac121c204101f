//! What the commands decide, apart from what they read, write and print.

pub mod collect;
pub mod context;
pub mod delete;
pub mod diff;
pub mod ignore;
pub mod init;
pub mod migrate;
pub mod restore;
pub mod snapshot;
pub mod unified;
pub mod working;

use vstd::prelude::*;
use crate::config::Config;
use crate::error::MoteError;
use crate::storage::location::{existing_dir, LocationProbe, StorageLocation};

verus! {

/// What every command starts from.
#[derive(Debug, Clone, PartialEq, Eq)]
pub struct CommandContext {
    pub project_root: String,
    pub config: Config,
    pub storage_dir: Option<String>,
    pub ignore_file_path: String,
}

/// The repository of a command and whether it is yet to be created.
#[derive(Debug, Clone, PartialEq, Eq)]
pub struct ResolvedLocation {
    pub location: StorageLocation,
    /// Whether the directories of `location` are to be created first.
    pub create: bool,
}

/// The text of an optional string.
pub open spec fn owned_text(s: Option<String>) -> Option<Seq<char>> {
    match s {
        Some(text) => Some(text@),
        None => None,
    }
}

impl CommandContext {
    /// The repository of the command: the one that exists, the directory
    /// named by the caller being probed first; where none exists and the
    /// caller has named a directory, that one, to be created.
    pub fn resolve_location(&self, probe: &LocationProbe) -> (r: Result<
        ResolvedLocation,
        MoteError,
    >)
        ensures
            match existing_dir(self.project_root@, owned_text(self.storage_dir), *probe) {
                Some(dir) => r matches Ok(found) && found.location.dir() == dir && !found.create,
                None => match self.storage_dir {
                    Some(dir) => r matches Ok(found) && found.location.dir() == dir@
                        && found.create,
                    None => r == Err::<ResolvedLocation, MoteError>(MoteError::NotInitialized),
                },
            },
    {
        let custom: Option<&str> = match &self.storage_dir {
            Some(dir) => Some(dir.as_str()),
            None => None,
        };
        match StorageLocation::find_existing(self.project_root.as_str(), custom, probe) {
            Ok(location) => Ok(ResolvedLocation { location, create: false }),
            Err(e) => {
                if custom.is_some() {
                    match StorageLocation::init(
                        self.project_root.as_str(),
                        &self.config,
                        custom,
                        probe,
                    ) {
                        Ok(location) => Ok(ResolvedLocation { location, create: true }),
                        Err(e2) => Err(e2),
                    }
                } else {
                    Err(e)
                }
            },
        }
    }
}

} // verus!
