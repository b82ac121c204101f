//! The command line as values: the commands with their arguments, and the
//! reading of the context specifier.

use vstd::prelude::*;
use crate::commands::owned_text;
use crate::error::MoteError;
use crate::text::{chars_of, find_char, first_index_of, lemma_first_index_of, string_of_range};

verus! {

/// Commands on snapshots.
#[derive(Debug, Clone, PartialEq, Eq)]
pub enum SnapCommands {
    Create { message: Option<String>, trigger: Option<String>, auto: bool },
    List { limit: usize, oneline: bool },
    Show { snapshot_id: String },
    Diff {
        snapshot_id: Option<String>,
        snapshot_id2: Option<String>,
        name_only: bool,
        output: Option<String>,
        unified: usize,
    },
    Restore { snapshot_id: String, file: Option<String>, force: bool, dry_run: bool },
    Delete { snapshot_id: String, force: bool },
    Gc { dry_run: bool, verbose: bool },
}

/// Commands on projects.
#[derive(Debug, Clone, PartialEq, Eq)]
pub enum ProjectCommands {
    List,
    Init { name: Option<String> },
}

/// Commands on contexts.
#[derive(Debug, Clone, PartialEq, Eq)]
pub enum ContextCommands {
    List,
    New { name: String, cwd: Option<String>, no_register: bool },
    Delete { name: String },
}

/// Commands on the ignore file.
#[derive(Debug, Clone, PartialEq, Eq)]
pub enum IgnoreCommands {
    List,
    Add { pattern: String },
    Remove { pattern: String },
    Edit,
}

/// The commands.
#[derive(Debug, Clone, PartialEq, Eq)]
pub enum Commands {
    Snap { command: Option<SnapCommands> },
    Project { command: ProjectCommands },
    Context { command: ContextCommands },
    Ignore { command: IgnoreCommands },
    Setup { shell: String },
    Migrate { dry_run: bool },
    Snapshot { message: Option<String>, trigger: Option<String>, auto: bool },
    Log { limit: usize, oneline: bool },
    Show { snapshot_id: String },
    Diff {
        snapshot_id: Option<String>,
        snapshot_id2: Option<String>,
        name_only: bool,
        output: Option<String>,
        unified: usize,
    },
    Restore { snapshot_id: String, file: Option<String>, force: bool, dry_run: bool },
    SetupShell { shell: String },
    Init,
}

/// The command line.
#[derive(Debug, Clone, PartialEq, Eq)]
pub struct Cli {
    /// The context specifier: `[project/]context`.
    pub context_spec: Option<String>,
    /// The directory of a context that belongs to no project.
    pub context_dir: Option<String>,
    pub project_root: Option<String>,
    pub config_dir: Option<String>,
    pub project: Option<String>,
    pub old_context: Option<String>,
    pub command: Commands,
}

/// The option that may not stand beside a context directory, if one does:
/// the first of the context specifier, the configuration directory, the
/// project and the old context option.
pub open spec fn clash(cli: Cli) -> Option<Seq<char>> {
    if cli.context_dir is None {
        None
    } else if cli.context_spec is Some {
        Some("-d/--context-dir cannot be used with -c/--context"@)
    } else if cli.config_dir is Some {
        Some("-d/--context-dir cannot be used with --config-dir"@)
    } else if cli.project is Some {
        Some("-d/--context-dir cannot be used with -p/--project"@)
    } else if cli.old_context is Some {
        Some("-d/--context-dir cannot be used with --old-context"@)
    } else {
        None
    }
}

/// How a context specifier reads: as `project/context` where it holds one
/// `/` with something on both sides, as a context where it holds none.
/// Nothing where it holds more than one `/` or one side is empty.
pub open spec fn specifier(spec: Seq<char>) -> Option<(Option<Seq<char>>, Option<Seq<char>>)> {
    match first_index_of(spec, '/') {
        None => Some((None, Some(spec))),
        Some(at) => if 0 <= at < spec.len() {
            if spec.skip(at + 1).contains('/') || at == 0 || at + 1 == spec.len() {
                None
            } else {
                Some((Some(spec.take(at)), Some(spec.skip(at + 1))))
            }
        } else {
            None
        },
    }
}

impl Cli {
    /// The project and the context that the command line names.
    pub fn parse_context_spec(&self) -> (r: Result<(Option<String>, Option<String>), MoteError>)
        ensures
            match clash(*self) {
                Some(said) => r matches Err(MoteError::InvalidArguments(text)) && text@ == said,
                None => match self.context_spec {
                    Some(spec) => match specifier(spec@) {
                        Some((project, context)) => r matches Ok(pair) && owned_text(pair.0)
                            == project && owned_text(pair.1) == context,
                        None => r matches Err(MoteError::InvalidArguments(text)) && text@
                            == "Invalid context specifier format. Use [project/]context"@,
                    },
                    None => r matches Ok(pair) && pair.0 == self.project && pair.1
                        == self.old_context,
                },
            },
    {
        if self.context_dir.is_some() {
            if self.context_spec.is_some() {
                return Err(
                    MoteError::InvalidArguments(
                        String::from_str("-d/--context-dir cannot be used with -c/--context"),
                    ),
                );
            }
            if self.config_dir.is_some() {
                return Err(
                    MoteError::InvalidArguments(
                        String::from_str("-d/--context-dir cannot be used with --config-dir"),
                    ),
                );
            }
            if self.project.is_some() {
                return Err(
                    MoteError::InvalidArguments(
                        String::from_str("-d/--context-dir cannot be used with -p/--project"),
                    ),
                );
            }
            if self.old_context.is_some() {
                return Err(
                    MoteError::InvalidArguments(
                        String::from_str("-d/--context-dir cannot be used with --old-context"),
                    ),
                );
            }
        }
        match &self.context_spec {
            Some(spec) => {
                let chars = chars_of(spec.as_str());
                match find_char(&chars, '/') {
                    Some(at) => {
                        proof {
                            lemma_first_index_of(chars@, '/');
                        }
                        let rest = string_of_range(&chars, at + 1, chars.len());
                        let rest_chars = chars_of(rest.as_str());
                        assert(rest@ =~= spec@.skip(at + 1));
                        let more = find_char(&rest_chars, '/');
                        proof {
                            lemma_first_index_of(rest_chars@, '/');
                        }
                        if more.is_some() || at == 0 || at + 1 == chars.len() {
                            return Err(
                                MoteError::InvalidArguments(
                                    String::from_str(
                                        "Invalid context specifier format. Use [project/]context",
                                    ),
                                ),
                            );
                        }
                        let project = string_of_range(&chars, 0, at);
                        assert(project@ =~= spec@.take(at as int));
                        Ok((Some(project), Some(rest)))
                    },
                    None => Ok((None, Some(spec.clone()))),
                }
            },
            None => {
                let project = match &self.project {
                    Some(p) => Some(p.clone()),
                    None => None,
                };
                let context = match &self.old_context {
                    Some(c) => Some(c.clone()),
                    None => None,
                };
                Ok((project, context))
            },
        }
    }
}

} // verus!
