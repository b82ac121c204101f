//! The settings of one context of a project.

use vstd::prelude::*;
use crate::config::{name_complaint, validate_name, Config};
use crate::error::MoteError;
use crate::path_resolver::{join, join_spec};

verus! {

/// The settings of a context, and where the context lies.
#[derive(Debug, Clone, PartialEq, Eq)]
pub struct ContextConfig {
    /// The working directory of the context.
    pub cwd: Option<String>,
    /// The directory of the context, where it does not lie in its project.
    pub context_dir: Option<String>,
    pub config: Config,
}

/// Where a context lies: its directory, its settings file, and the
/// directories of its repository.
#[derive(Debug, Clone, PartialEq, Eq)]
pub struct ContextLayout {
    pub dir: String,
    pub config_path: String,
    pub storage_dir: String,
    pub objects_dir: String,
    pub snapshots_dir: String,
}

/// The directory in which a context is kept: its own, where it has one,
/// else `contexts/<name>` in the project's directory.
pub open spec fn context_dir_of(
    custom: Option<String>,
    project_dir: Seq<char>,
    name: Seq<char>,
) -> Seq<char> {
    match custom {
        Some(dir) => dir@,
        None => join_spec(join_spec(project_dir, "contexts"@), name),
    }
}

/// Whether `layout` is the layout of the context directory `dir`.
pub open spec fn is_layout_of(layout: ContextLayout, dir: Seq<char>) -> bool {
    &&& layout.dir@ == dir
    &&& layout.config_path@ == join_spec(dir, "config.toml"@)
    &&& layout.storage_dir@ == join_spec(dir, "storage"@)
    &&& layout.objects_dir@ == join_spec(layout.storage_dir@, "objects"@)
    &&& layout.snapshots_dir@ == join_spec(layout.storage_dir@, "snapshots"@)
}

impl ContextConfig {
    fn layout(dir: String) -> (layout: ContextLayout)
        ensures
            is_layout_of(layout, dir@),
    {
        let config_path = join(dir.as_str(), "config.toml");
        let storage_dir = join(dir.as_str(), "storage");
        let objects_dir = join(storage_dir.as_str(), "objects");
        let snapshots_dir = join(storage_dir.as_str(), "snapshots");
        ContextLayout { dir, config_path, storage_dir, objects_dir, snapshots_dir }
    }

    /// Where the settings of the context `context_name` are read from: in
    /// the directory registered for it, where one is, else in the project.
    /// The name is checked first.
    pub fn load(project_dir: &str, context_name: &str, context_dir_override: Option<&str>) -> (r:
        Result<ContextLayout, MoteError>)
        ensures
            match name_complaint(context_name@) {
                Some(text) => r matches Err(MoteError::InvalidName(said)) && said@ == text,
                None => r matches Ok(layout) && is_layout_of(
                    layout,
                    match context_dir_override {
                        Some(dir) => dir@,
                        None => join_spec(join_spec(project_dir@, "contexts"@), context_name@),
                    },
                ),
            },
    {
        match validate_name(context_name) {
            Err(e) => Err(e),
            Ok(()) => {
                let dir = match context_dir_override {
                    Some(dir) => String::from_str(dir),
                    None => {
                        let contexts = join(project_dir, "contexts");
                        join(contexts.as_str(), context_name)
                    },
                };
                Ok(Self::layout(dir))
            },
        }
    }

    /// Where these settings are written to under the name `context_name`,
    /// and the directories to create with them. The name is checked first;
    /// `exists` says whether the context has a settings file already, which
    /// is not overwritten.
    pub fn save(&self, project_dir: &str, context_name: &str, exists: bool) -> (r: Result<
        ContextLayout,
        MoteError,
    >)
        ensures
            match name_complaint(context_name@) {
                Some(text) => r matches Err(MoteError::InvalidName(said)) && said@ == text,
                None => if exists {
                    r matches Err(MoteError::ContextAlreadyExists(name)) && name@
                        == context_name@
                } else {
                    r matches Ok(layout) && is_layout_of(
                        layout,
                        context_dir_of(self.context_dir, project_dir@, context_name@),
                    )
                },
            },
    {
        match validate_name(context_name) {
            Err(e) => Err(e),
            Ok(()) => {
                if exists {
                    return Err(MoteError::ContextAlreadyExists(String::from_str(context_name)));
                }
                Ok(Self::layout(self.directory(project_dir, context_name)))
            },
        }
    }

    /// The repository of the context: `storage` in its directory.
    pub fn storage_path(&self, context_dir: &str) -> (path: String)
        ensures
            path@ == join_spec(context_dir@, "storage"@),
    {
        join(context_dir, "storage")
    }

    /// The ignore file of the context: `ignore` in its directory.
    pub fn ignore_path(&self, context_dir: &str) -> (path: String)
        ensures
            path@ == join_spec(context_dir@, "ignore"@),
    {
        join(context_dir, "ignore")
    }

    /// Checks the name of a context.
    pub fn validate_name(name: &str) -> (r: Result<(), MoteError>)
        ensures
            match name_complaint(name@) {
                None => r is Ok,
                Some(text) => r matches Err(MoteError::InvalidName(said)) && said@ == text,
            },
    {
        validate_name(name)
    }

    /// The directory in which the context is kept: its own, where it has
    /// one, else `contexts/<name>` in the project's directory.
    pub fn directory(&self, project_dir: &str, context_name: &str) -> (dir: String)
        ensures
            match self.context_dir {
                Some(custom) => dir@ == custom@,
                None => dir@ == join_spec(join_spec(project_dir@, "contexts"@), context_name@),
            },
    {
        match &self.context_dir {
            Some(custom) => custom.clone(),
            None => {
                let contexts = join(project_dir, "contexts");
                join(contexts.as_str(), context_name)
            },
        }
    }
}

} // verus!
