//! Resolution of the settings from three layers: global, project, context.
//! A later layer overrides an earlier one wherever it departs from the
//! defaults.

use vstd::prelude::*;
use crate::config::{Config, ContextConfig, LocationStrategy, ProjectConfig};
use crate::error::MoteError;
use crate::path_resolver::{join, join_spec};
use crate::text::str_eq;

verus! {

/// What the caller asks to be resolved.
#[derive(Debug, Clone, PartialEq, Eq)]
pub struct ResolveOptions {
    /// The configuration directory, where it is not the user's default.
    pub config_dir: Option<String>,
    /// The project, where it is not to be found by the root of the tree.
    pub project: Option<String>,
    /// The context within the project; `default` where none is named.
    pub context: Option<String>,
    /// The root of the tree, by which the project is found.
    pub project_root: String,
    /// Whether a named project may be missing.
    pub allow_missing_project: bool,
}

/// What was read for a resolution. Each part is what reading gave at the
/// place that the options and the parts before it lead to; a part that the
/// resolution does not come to is not looked at.
#[derive(Debug, PartialEq, Eq)]
pub struct ConfigSources {
    /// The user's configuration directory, where there is one.
    pub user_config_dir: Option<String>,
    /// The global settings file, where there is one.
    pub global: Option<Result<Config, MoteError>>,
    /// The project whose tree has the root of the options.
    pub detected_project: Result<Option<String>, MoteError>,
    /// The settings of the project.
    pub project: Result<ProjectConfig, MoteError>,
    /// The settings of the context.
    pub context: Result<ContextConfig, MoteError>,
}

/// `source` laid over `target`: a setting of `source` that departs from its
/// default takes the place of the one of `target`. The compression level
/// and the settings of automatic collection are not layered.
pub open spec fn merged(target: Config, source: Config) -> Config {
    Config {
        storage: crate::config::StorageConfig {
            location_strategy: if source.storage.location_strategy != LocationStrategy::Root {
                source.storage.location_strategy
            } else {
                target.storage.location_strategy
            },
            compression_level: target.storage.compression_level,
        },
        snapshot: crate::config::SnapshotConfig {
            auto_cleanup: if !source.snapshot.auto_cleanup {
                false
            } else {
                target.snapshot.auto_cleanup
            },
            max_snapshots: if source.snapshot.max_snapshots != 1000 {
                source.snapshot.max_snapshots
            } else {
                target.snapshot.max_snapshots
            },
            max_age_days: if source.snapshot.max_age_days != 30 {
                source.snapshot.max_age_days
            } else {
                target.snapshot.max_age_days
            },
            gc_auto_enabled: target.snapshot.gc_auto_enabled,
            gc_auto: target.snapshot.gc_auto,
        },
        ignore: crate::config::IgnoreConfig {
            ignore_file: if source.ignore.ignore_file@ != ".moteignore"@ {
                source.ignore.ignore_file
            } else {
                target.ignore.ignore_file
            },
        },
    }
}

/// The layers that a resolution found.
pub struct ConfigResolver {
    config_dir: String,
    global_config: Config,
    project_config: Option<ProjectConfig>,
    context_config: Option<ContextConfig>,
    project_name: Option<String>,
    context_name: String,
}

/// The configuration directory of a resolution: the one of the options,
/// else `mote` in the user's configuration directory, else `.config/mote`.
pub open spec fn resolved_config_dir(opts: ResolveOptions, sources: ConfigSources) -> Seq<char> {
    match opts.config_dir {
        Some(dir) => dir@,
        None => match sources.user_config_dir {
            Some(dir) => join_spec(dir@, "mote"@),
            None => ".config/mote"@,
        },
    }
}

/// The name of the context of a resolution.
pub open spec fn resolved_context_name(opts: ResolveOptions) -> Seq<char> {
    match opts.context {
        Some(name) => name@,
        None => "default"@,
    }
}

/// The failure that stops a resolution, if one does: the first of a global
/// settings file that cannot be read; a named project that cannot be read
/// and may not be missing; a search by the root of the tree that fails; a
/// found project that cannot be read; a named context that cannot be read.
pub open spec fn resolution_failure(opts: ResolveOptions, sources: ConfigSources) -> Option<
    MoteError,
> {
    if sources.global is Some && sources.global->0 is Err {
        Some(sources.global->0->Err_0)
    } else if opts.project is Some && sources.project is Err && !opts.allow_missing_project {
        Some(sources.project->Err_0)
    } else if opts.project is None && sources.detected_project is Err {
        Some(sources.detected_project->Err_0)
    } else if opts.project is None && sources.detected_project->Ok_0 is Some
        && sources.project is Err {
        Some(sources.project->Err_0)
    } else if resolved_project(opts, sources) is Some && sources.context is Err && opts.context
        is Some {
        Some(sources.context->Err_0)
    } else {
        None
    }
}

/// The name of the project of a resolution.
pub open spec fn resolved_project_name(opts: ResolveOptions, sources: ConfigSources) -> Option<
    String,
> {
    match opts.project {
        Some(name) => Some(name),
        None => match sources.detected_project {
            Ok(found) => found,
            Err(_) => None,
        },
    }
}

/// The settings of the project of a resolution.
pub open spec fn resolved_project(opts: ResolveOptions, sources: ConfigSources) -> Option<
    ProjectConfig,
> {
    if resolved_project_name(opts, sources) is Some {
        match sources.project {
            Ok(config) => Some(config),
            Err(_) => None,
        }
    } else {
        None
    }
}

/// The settings of the context of a resolution: read only where the
/// project has settings.
pub open spec fn resolved_context(opts: ResolveOptions, sources: ConfigSources) -> Option<
    ContextConfig,
> {
    if resolved_project(opts, sources) is Some {
        match sources.context {
            Ok(config) => Some(config),
            Err(_) => None,
        }
    } else {
        None
    }
}

impl ConfigResolver {
    /// The configuration directory.
    pub closed spec fn dir(self) -> Seq<char> {
        self.config_dir@
    }

    /// The global settings.
    pub closed spec fn global(self) -> Config {
        self.global_config
    }

    /// The settings of the project, where one was read.
    pub closed spec fn project(self) -> Option<ProjectConfig> {
        self.project_config
    }

    /// The settings of the context, where one was read.
    pub closed spec fn context(self) -> Option<ContextConfig> {
        self.context_config
    }

    /// The name of the project, where one was named or found.
    pub closed spec fn project_label(self) -> Option<String> {
        self.project_name
    }

    /// The name of the context.
    pub closed spec fn context_label(self) -> Seq<char> {
        self.context_name@
    }

    /// The settings of all layers, the later over the earlier.
    pub open spec fn resolution(self) -> Config {
        let with_project = match self.project() {
            Some(project) => merged(self.global(), project.config),
            None => self.global(),
        };
        match self.context() {
            Some(context) => merged(with_project, context.config),
            None => with_project,
        }
    }

    /// The directory of the project of this resolution.
    pub open spec fn project_dir(self) -> Seq<char> {
        join_spec(join_spec(self.dir(), "projects"@), self.project_label()->0@)
    }

    /// The directory of the context of this resolution: the one registered
    /// in the project, else `contexts/<name>` in the project's directory.
    pub open spec fn context_dir(self) -> Seq<char> {
        if self.project() is Some && self.project()->0.context_dirs().contains_key(
            self.context_label(),
        ) {
            self.project()->0.context_dirs()[self.context_label()]
        } else {
            join_spec(join_spec(self.project_dir(), "contexts"@), self.context_label())
        }
    }

    /// The configuration directory of a resolution.
    pub fn config_dir_for(opts: &ResolveOptions, user_config_dir: Option<&str>) -> (dir: String)
        ensures
            match opts.config_dir {
                Some(given) => dir@ == given@,
                None => match user_config_dir {
                    Some(home) => dir@ == join_spec(home@, "mote"@),
                    None => dir@ == ".config/mote"@,
                },
            },
    {
        match &opts.config_dir {
            Some(dir) => dir.clone(),
            None => match user_config_dir {
                Some(dir) => join(dir, "mote"),
                None => String::from_str(".config/mote"),
            },
        }
    }

    /// The name of the context of a resolution.
    pub fn context_name_for(opts: &ResolveOptions) -> (name: String)
        ensures
            name@ == resolved_context_name(*opts),
    {
        match &opts.context {
            Some(name) => name.clone(),
            None => String::from_str("default"),
        }
    }

    /// Puts the layers together from what was read.
    pub fn load(opts: &ResolveOptions, sources: ConfigSources) -> (r: Result<Self, MoteError>)
        ensures
            match r {
                Ok(resolver) => {
                    &&& resolution_failure(*opts, sources) is None
                    &&& resolver.dir() == resolved_config_dir(*opts, sources)
                    &&& match sources.global {
                        Some(read) => read == Ok::<Config, MoteError>(resolver.global()),
                        None => crate::config::is_default_config(resolver.global()),
                    }
                    &&& resolver.project_label() is Some == resolved_project_name(
                        *opts,
                        sources,
                    ) is Some
                    &&& resolver.project_label() matches Some(name) ==> name@
                        == resolved_project_name(*opts, sources)->0@
                    &&& resolver.project() == resolved_project(*opts, sources)
                    &&& resolver.context() == resolved_context(*opts, sources)
                    &&& resolver.context_label() == resolved_context_name(*opts)
                },
                Err(e) => resolution_failure(*opts, sources) == Some(e),
            },
    {
        let ConfigSources { user_config_dir, global, detected_project, project, context } =
            sources;
        let home: Option<&str> = match &user_config_dir {
            Some(dir) => Some(dir.as_str()),
            None => None,
        };
        let config_dir = Self::config_dir_for(opts, home);
        let global_config = match Config::load(global) {
            Ok(config) => config,
            Err(e) => {
                return Err(e);
            },
        };
        let (project_name, project_config): (Option<String>, Option<ProjectConfig>) =
            match &opts.project {
            Some(name) => match project {
                Ok(config) => (Some(name.clone()), Some(config)),
                Err(e) => {
                    if opts.allow_missing_project {
                        (Some(name.clone()), None)
                    } else {
                        return Err(e);
                    }
                },
            },
            None => match detected_project {
                Err(e) => {
                    return Err(e);
                },
                Ok(Some(name)) => match project {
                    Ok(config) => (Some(name), Some(config)),
                    Err(e) => {
                        return Err(e);
                    },
                },
                Ok(None) => (None, None),
            },
        };
        let context_name = Self::context_name_for(opts);
        let context_config = if project_name.is_some() && project_config.is_some() {
            match context {
                Ok(config) => Some(config),
                Err(e) => {
                    if opts.context.is_some() {
                        return Err(e);
                    } else {
                        None
                    }
                },
            }
        } else {
            None
        };
        Ok(
            ConfigResolver {
                config_dir,
                global_config,
                project_config,
                context_config,
                project_name,
                context_name,
            },
        )
    }

    /// The settings of all layers: the context's over the project's over
    /// the global ones.
    pub fn resolve(&self) -> (config: Config)
        ensures
            config == self.resolution(),
    {
        let mut result = self.global_config.copy();
        match &self.project_config {
            Some(project) => {
                Self::merge_config(&mut result, &project.config);
            },
            None => {},
        }
        match &self.context_config {
            Some(context) => {
                Self::merge_config(&mut result, &context.config);
            },
            None => {},
        }
        result
    }

    /// The repository of the context, where a context was read.
    pub fn context_storage_dir(&self) -> (dir: Option<String>)
        ensures
            match dir {
                Some(d) => self.project_label() is Some && self.context() is Some && d@
                    == join_spec(self.context_dir(), "storage"@),
                None => self.project_label() is None || self.context() is None,
            },
    {
        match (&self.project_name, &self.context_config) {
            (Some(_), Some(context)) => {
                let context_dir = self.context_directory();
                Some(context.storage_path(context_dir.as_str()))
            },
            _ => None,
        }
    }

    /// The ignore file of the context, where a context was read.
    pub fn context_ignore_path(&self) -> (path: Option<String>)
        ensures
            match path {
                Some(p) => self.project_label() is Some && self.context() is Some && p@
                    == join_spec(self.context_dir(), "ignore"@),
                None => self.project_label() is None || self.context() is None,
            },
    {
        match (&self.project_name, &self.context_config) {
            (Some(_), Some(context)) => {
                let context_dir = self.context_directory();
                Some(context.ignore_path(context_dir.as_str()))
            },
            _ => None,
        }
    }

    fn context_directory(&self) -> (dir: String)
        requires
            self.project_label() is Some,
        ensures
            dir@ == self.context_dir(),
    {
        let name = match &self.project_name {
            Some(name) => name.as_str(),
            None => "",
        };
        let projects = join(self.config_dir.as_str(), "projects");
        let project_dir = join(projects.as_str(), name);
        match &self.project_config {
            Some(project) => project.get_context_dir(
                project_dir.as_str(),
                self.context_name.as_str(),
            ),
            None => {
                let contexts = join(project_dir.as_str(), "contexts");
                join(contexts.as_str(), self.context_name.as_str())
            },
        }
    }

    /// The configuration directory.
    pub fn config_dir(&self) -> (dir: &str)
        ensures
            dir@ == self.dir(),
    {
        self.config_dir.as_str()
    }

    /// The name of the project, where one was named or found.
    pub fn project_name(&self) -> (name: Option<&str>)
        ensures
            match name {
                Some(n) => self.project_label() matches Some(label) && n@ == label@,
                None => self.project_label() is None,
            },
    {
        match &self.project_name {
            Some(name) => Some(name.as_str()),
            None => None,
        }
    }

    /// The name of the context.
    pub fn context_name(&self) -> (name: &str)
        ensures
            name@ == self.context_label(),
    {
        self.context_name.as_str()
    }

    /// Lays `source` over `target`.
    pub fn merge_config(target: &mut Config, source: &Config)
        ensures
            *final(target) == merged(*old(target), *source),
    {
        if source.storage.location_strategy != LocationStrategy::Root {
            target.storage.location_strategy = source.storage.location_strategy;
        }
        if source.snapshot.auto_cleanup != true {
            target.snapshot.auto_cleanup = source.snapshot.auto_cleanup;
        }
        if source.snapshot.max_snapshots != 1000 {
            target.snapshot.max_snapshots = source.snapshot.max_snapshots;
        }
        if source.snapshot.max_age_days != 30 {
            target.snapshot.max_age_days = source.snapshot.max_age_days;
        }
        if !str_eq(source.ignore.ignore_file.as_str(), ".moteignore") {
            target.ignore.ignore_file = source.ignore.ignore_file.clone();
        }
    }
}

} // verus!
