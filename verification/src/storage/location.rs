//! Where the repository lies: `.mote` in the project root, `mote` inside the
//! directory of the version control system, or a directory named by the
//! caller.

use vstd::prelude::*;
use crate::config::{Config, LocationStrategy};
use crate::error::MoteError;
use crate::path_resolver::{join, join_spec};

verus! {

/// What the caller found on disk around the project root.
#[derive(Debug, Clone, Copy, PartialEq, Eq)]
pub struct LocationProbe {
    /// Whether the directory named by the caller exists.
    pub custom_exists: bool,
    /// Whether `<root>/.mote` exists.
    pub mote_exists: bool,
    /// Whether `<root>/.git/mote` exists.
    pub git_mote_exists: bool,
    /// Whether `<root>/.jj/mote` exists.
    pub jj_mote_exists: bool,
    /// Whether `<root>/.git` is a directory.
    pub git_is_dir: bool,
    /// Whether `<root>/.jj` is a directory.
    pub jj_is_dir: bool,
}

/// `<root>/.mote`.
pub open spec fn mote_dir(project_root: Seq<char>) -> Seq<char> {
    join_spec(project_root, ".mote"@)
}

/// `<root>/.git/mote`.
pub open spec fn git_mote_dir(project_root: Seq<char>) -> Seq<char> {
    join_spec(join_spec(project_root, ".git"@), "mote"@)
}

/// `<root>/.jj/mote`.
pub open spec fn jj_mote_dir(project_root: Seq<char>) -> Seq<char> {
    join_spec(join_spec(project_root, ".jj"@), "mote"@)
}

/// The directory of the version control system: `.git` before `.jj`.
pub open spec fn vcs_dir(project_root: Seq<char>, probe: LocationProbe) -> Option<Seq<char>> {
    if probe.git_is_dir {
        Some(join_spec(project_root, ".git"@))
    } else if probe.jj_is_dir {
        Some(join_spec(project_root, ".jj"@))
    } else {
        None
    }
}

/// The repository directory that a strategy chooses, if it can.
pub open spec fn chosen_dir(
    project_root: Seq<char>,
    strategy: LocationStrategy,
    probe: LocationProbe,
) -> Option<Seq<char>> {
    match strategy {
        LocationStrategy::Root => Some(mote_dir(project_root)),
        LocationStrategy::Vcs => match vcs_dir(project_root, probe) {
            Some(dir) => Some(join_spec(dir, "mote"@)),
            None => None,
        },
        LocationStrategy::Auto => match vcs_dir(project_root, probe) {
            Some(dir) => Some(join_spec(dir, "mote"@)),
            None => Some(mote_dir(project_root)),
        },
    }
}

/// Whether the directory that a strategy chooses exists already.
pub open spec fn chosen_exists(strategy: LocationStrategy, probe: LocationProbe) -> bool {
    match strategy {
        LocationStrategy::Root => probe.mote_exists,
        LocationStrategy::Vcs | LocationStrategy::Auto => if probe.git_is_dir {
            probe.git_mote_exists
        } else if probe.jj_is_dir {
            probe.jj_mote_exists
        } else {
            probe.mote_exists
        },
    }
}

/// The repository that exists: the first that is there of the directory
/// named by the caller, where one is named, `.mote`, `.git/mote` and
/// `.jj/mote`.
pub open spec fn existing_dir(
    project_root: Seq<char>,
    custom: Option<Seq<char>>,
    probe: LocationProbe,
) -> Option<Seq<char>> {
    if custom is Some && probe.custom_exists {
        custom
    } else if probe.mote_exists {
        Some(mote_dir(project_root))
    } else if probe.git_mote_exists {
        Some(git_mote_dir(project_root))
    } else if probe.jj_mote_exists {
        Some(jj_mote_dir(project_root))
    } else {
        None
    }
}

/// The text of an optional string.
pub open spec fn option_text(s: Option<&str>) -> Option<Seq<char>> {
    match s {
        Some(text) => Some(text@),
        None => None,
    }
}

/// The repository directory.
#[derive(Debug, Clone, PartialEq, Eq)]
pub struct StorageLocation {
    root: String,
}

impl StorageLocation {
    /// The repository directory.
    pub closed spec fn dir(self) -> Seq<char> {
        self.root@
    }

    /// The repository to create: the directory named by the caller, else
    /// the one that the strategy of the settings chooses. It must not exist
    /// yet.
    pub fn init(
        project_root: &str,
        config: &Config,
        custom_storage_dir: Option<&str>,
        probe: &LocationProbe,
    ) -> (r: Result<Self, MoteError>)
        ensures
            match custom_storage_dir {
                Some(dir) => if probe.custom_exists {
                    r == Err::<Self, MoteError>(MoteError::AlreadyInitialized)
                } else {
                    r matches Ok(location) && location.dir() == dir@
                },
                None => match chosen_dir(project_root@, config.storage.location_strategy, *probe) {
                    None => r == Err::<Self, MoteError>(MoteError::NoVcsDirectory),
                    Some(dir) => if chosen_exists(config.storage.location_strategy, *probe) {
                        r == Err::<Self, MoteError>(MoteError::AlreadyInitialized)
                    } else {
                        r matches Ok(location) && location.dir() == dir
                    },
                },
            },
    {
        match custom_storage_dir {
            Some(dir) => {
                if probe.custom_exists {
                    Err(MoteError::AlreadyInitialized)
                } else {
                    Ok(StorageLocation { root: String::from_str(dir) })
                }
            },
            None => {
                let strategy = config.storage.location_strategy;
                match Self::determine_storage_path(project_root, &strategy, probe) {
                    Err(e) => Err(e),
                    Ok(root) => {
                        let exists = match strategy {
                            LocationStrategy::Root => probe.mote_exists,
                            _ => if probe.git_is_dir {
                                probe.git_mote_exists
                            } else if probe.jj_is_dir {
                                probe.jj_mote_exists
                            } else {
                                probe.mote_exists
                            },
                        };
                        if exists {
                            Err(MoteError::AlreadyInitialized)
                        } else {
                            Ok(StorageLocation { root })
                        }
                    },
                }
            },
        }
    }

    /// The directories to create for a new repository, in this order: the
    /// repository, its objects, its snapshots.
    pub fn directories(&self) -> (dirs: Vec<String>)
        ensures
            dirs@.len() == 3,
            dirs@[0]@ == self.dir(),
            dirs@[1]@ == join_spec(self.dir(), "objects"@),
            dirs@[2]@ == join_spec(self.dir(), "snapshots"@),
    {
        let mut dirs: Vec<String> = Vec::new();
        dirs.push(self.root.clone());
        dirs.push(self.objects_dir());
        dirs.push(self.snapshots_dir());
        dirs
    }

    /// The repository directory that `strategy` chooses.
    pub fn determine_storage_path(
        project_root: &str,
        strategy: &LocationStrategy,
        probe: &LocationProbe,
    ) -> (r: Result<String, MoteError>)
        ensures
            match chosen_dir(project_root@, *strategy, *probe) {
                Some(dir) => r matches Ok(path) && path@ == dir,
                None => r == Err::<String, MoteError>(MoteError::NoVcsDirectory),
            },
    {
        match strategy {
            LocationStrategy::Root => Ok(join(project_root, ".mote")),
            LocationStrategy::Vcs => match Self::find_vcs_dir(project_root, probe) {
                Some(vcs) => Ok(join(vcs.as_str(), "mote")),
                None => Err(MoteError::NoVcsDirectory),
            },
            LocationStrategy::Auto => match Self::find_vcs_dir(project_root, probe) {
                Some(vcs) => Ok(join(vcs.as_str(), "mote")),
                None => Ok(join(project_root, ".mote")),
            },
        }
    }

    /// The directory of the version control system: `.git` where that is a
    /// directory, else `.jj` where that is one.
    pub fn find_vcs_dir(project_root: &str, probe: &LocationProbe) -> (found: Option<String>)
        ensures
            match vcs_dir(project_root@, *probe) {
                Some(dir) => found matches Some(path) && path@ == dir,
                None => found is None,
            },
    {
        if probe.git_is_dir {
            Some(join(project_root, ".git"))
        } else if probe.jj_is_dir {
            Some(join(project_root, ".jj"))
        } else {
            None
        }
    }

    /// The repository directory.
    pub fn root(&self) -> (root: &str)
        ensures
            root@ == self.dir(),
    {
        self.root.as_str()
    }

    /// Where the objects lie.
    pub fn objects_dir(&self) -> (dir: String)
        ensures
            dir@ == join_spec(self.dir(), "objects"@),
    {
        join(self.root.as_str(), "objects")
    }

    /// Where the manifests lie.
    pub fn snapshots_dir(&self) -> (dir: String)
        ensures
            dir@ == join_spec(self.dir(), "snapshots"@),
    {
        join(self.root.as_str(), "snapshots")
    }

    /// The file of the index.
    pub fn index_path(&self) -> (path: String)
        ensures
            path@ == join_spec(self.dir(), "index"@),
    {
        join(self.root.as_str(), "index")
    }

    /// The repository that exists for the project: the directory named by
    /// the caller is probed first, then `.mote`, `.git/mote` and `.jj/mote`
    /// in the project root, in this order.
    pub fn find_existing(
        project_root: &str,
        custom_storage_dir: Option<&str>,
        probe: &LocationProbe,
    ) -> (r: Result<Self, MoteError>)
        ensures
            match existing_dir(project_root@, option_text(custom_storage_dir), *probe) {
                Some(dir) => r matches Ok(location) && location.dir() == dir,
                None => r == Err::<Self, MoteError>(MoteError::NotInitialized),
            },
    {
        match custom_storage_dir {
            Some(dir) => {
                if probe.custom_exists {
                    return Ok(StorageLocation { root: String::from_str(dir) });
                }
            },
            None => {},
        }
        if probe.mote_exists {
            return Ok(StorageLocation { root: join(project_root, ".mote") });
        }
        if probe.git_mote_exists {
            let git = join(project_root, ".git");
            return Ok(StorageLocation { root: join(git.as_str(), "mote") });
        }
        if probe.jj_mote_exists {
            let jj = join(project_root, ".jj");
            return Ok(StorageLocation { root: join(jj.as_str(), "mote") });
        }
        Err(MoteError::NotInitialized)
    }
}

} // verus!
