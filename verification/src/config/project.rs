//! The settings of one project, and the directories of its contexts.

use vstd::prelude::*;
use crate::config::{name_complaint, validate_name, Config};
use crate::error::MoteError;
use crate::path_resolver::{join, join_spec};
use crate::text::str_eq;

verus! {

/// A context that is kept in a directory of its own.
#[derive(Debug, Clone, PartialEq, Eq)]
pub struct ContextDir {
    pub name: String,
    pub dir: String,
}

/// The settings of a project, the root of its tree, and the contexts
/// that are kept outside it.
#[derive(Debug, Clone, PartialEq, Eq)]
pub struct ProjectConfig {
    /// The root of the project's tree.
    pub path: String,
    /// The contexts that are kept in a directory of their own. Where a name
    /// stands twice, the later entry counts.
    pub contexts: Option<Vec<ContextDir>>,
    pub config: Config,
}

/// The directory registered for each context: of two entries of one name,
/// the later.
pub open spec fn registered(contexts: Seq<ContextDir>) -> Map<Seq<char>, Seq<char>>
    decreases contexts.len(),
{
    if contexts.len() == 0 {
        Map::empty()
    } else {
        registered(contexts.drop_last()).insert(contexts.last().name@, contexts.last().dir@)
    }
}

/// Whether the entry is of another context than `name`.
pub open spec fn is_other(entry: ContextDir, name: Seq<char>) -> bool {
    entry.name@ != name
}

/// Without the entries of `name`.
pub open spec fn without(contexts: Seq<ContextDir>, name: Seq<char>) -> Seq<ContextDir> {
    contexts.filter(|c: ContextDir| is_other(c, name))
}

proof fn lemma_registered_without(contexts: Seq<ContextDir>, name: Seq<char>)
    ensures
        registered(without(contexts, name)) == registered(contexts).remove(name),
    decreases contexts.len(),
{
    let pred = |c: ContextDir| is_other(c, name);
    if contexts.len() == 0 {
        assert(without(contexts, name) =~= Seq::<ContextDir>::empty()) by {
            reveal(Seq::filter);
        }
        assert(registered(contexts).remove(name) =~= Map::<Seq<char>, Seq<char>>::empty());
    } else {
        let front = contexts.drop_last();
        let last = contexts.last();
        lemma_registered_without(front, name);
        assert(contexts =~= front.push(last));
        front.lemma_filter_push(last, pred);
        if last.name@ != name {
            assert(pred(last));
            assert(without(contexts, name) == without(front, name).push(last));
            assert(without(contexts, name).drop_last() =~= without(front, name));
            assert(registered(without(contexts, name)) =~= registered(contexts).remove(name));
        } else {
            assert(registered(without(contexts, name)) =~= registered(contexts).remove(name));
        }
    }
}

/// A project of the configuration directory and the root of its tree, in
/// canonical form.
#[derive(Debug, Clone, PartialEq, Eq)]
pub struct KnownProject {
    pub name: String,
    pub path: String,
}

/// Where the settings of a project lie.
#[derive(Debug, Clone, PartialEq, Eq)]
pub struct ProjectLayout {
    /// The directory of the project, to be created if it is missing.
    pub dir: String,
    /// The settings file.
    pub config_path: String,
}

/// The directory of a project in the configuration directory.
pub open spec fn project_dir_of(config_dir: Seq<char>, name: Seq<char>) -> Seq<char> {
    join_spec(join_spec(config_dir, "projects"@), name)
}

impl ProjectConfig {
    /// Where the settings of the project `project_name` are read from: the
    /// name is checked first.
    pub fn load(config_dir: &str, project_name: &str) -> (r: Result<ProjectLayout, MoteError>)
        ensures
            match name_complaint(project_name@) {
                Some(text) => r matches Err(MoteError::InvalidName(said)) && said@ == text,
                None => r matches Ok(layout) && layout.dir@ == project_dir_of(
                    config_dir@,
                    project_name@,
                ) && layout.config_path@ == join_spec(layout.dir@, "config.toml"@),
            },
    {
        match validate_name(project_name) {
            Err(e) => Err(e),
            Ok(()) => {
                let projects = join(config_dir, "projects");
                let dir = join(projects.as_str(), project_name);
                let config_path = join(dir.as_str(), "config.toml");
                Ok(ProjectLayout { dir, config_path })
            },
        }
    }

    /// Where these settings are written to under the name `project_name`:
    /// the name is checked first.
    pub fn save(&self, config_dir: &str, project_name: &str) -> (r: Result<
        ProjectLayout,
        MoteError,
    >)
        ensures
            match name_complaint(project_name@) {
                Some(text) => r matches Err(MoteError::InvalidName(said)) && said@ == text,
                None => r matches Ok(layout) && layout.dir@ == project_dir_of(
                    config_dir@,
                    project_name@,
                ) && layout.config_path@ == join_spec(layout.dir@, "config.toml"@),
            },
    {
        Self::load(config_dir, project_name)
    }

    /// The directory registered for each context.
    pub open spec fn context_dirs(self) -> Map<Seq<char>, Seq<char>> {
        match self.contexts {
            Some(contexts) => registered(contexts@),
            None => Map::empty(),
        }
    }

    /// Registers a directory of its own for a context, in place of one
    /// registered before.
    pub fn register_context(&mut self, context_name: String, context_dir: String)
        ensures
            final(self).context_dirs() == old(self).context_dirs().insert(
                context_name@,
                context_dir@,
            ),
            final(self).contexts is Some,
            final(self).path == old(self).path,
            final(self).config == old(self).config,
    {
        let entry = ContextDir { name: context_name, dir: context_dir };
        let mut contexts = match self.contexts.take() {
            Some(contexts) => contexts,
            None => {
                assert(registered(Seq::<ContextDir>::empty()) == Map::<
                    Seq<char>,
                    Seq<char>,
                >::empty());
                Vec::new()
            },
        };
        let ghost before = contexts@;
        contexts.push(entry);
        assert(contexts@.drop_last() =~= before);
        self.contexts = Some(contexts);
    }

    /// Forgets the directory registered for a context.
    pub fn unregister_context(&mut self, context_name: &str)
        ensures
            final(self).context_dirs() == old(self).context_dirs().remove(context_name@),
            final(self).path == old(self).path,
            final(self).config == old(self).config,
    {
        match self.contexts.take() {
            Some(contexts) => {
                let ghost pred = |c: ContextDir| is_other(c, context_name@);
                let ghost all = contexts@;
                let mut kept: Vec<ContextDir> = Vec::new();
                let mut i: usize = 0;
                assert(all.take(0) =~= Seq::<ContextDir>::empty());
                assert(all.take(0).filter(pred) =~= Seq::<ContextDir>::empty()) by {
                    reveal(Seq::filter);
                }
                while i < contexts.len()
                    invariant
                        i <= contexts.len(),
                        all == contexts@,
                        pred == |c: ContextDir| is_other(c, context_name@),
                        kept@ == all.take(i as int).filter(pred),
                    decreases contexts.len() - i,
                {
                    let entry = &contexts[i];
                    proof {
                        assert(all.take(i + 1) =~= all.take(i as int).push(all[i as int]));
                        all.take(i as int).lemma_filter_push(all[i as int], pred);
                    }
                    if !str_eq(entry.name.as_str(), context_name) {
                        kept.push(ContextDir { name: entry.name.clone(), dir: entry.dir.clone() });
                    }
                    i += 1;
                }
                proof {
                    assert(all.take(all.len() as int) =~= all);
                    lemma_registered_without(all, context_name@);
                }
                self.contexts = Some(kept);
            },
            None => {
                assert(Map::<Seq<char>, Seq<char>>::empty().remove(context_name@) =~= Map::<
                    Seq<char>,
                    Seq<char>,
                >::empty());
                self.contexts = None;
            },
        }
    }

    /// The directory of a context: the one registered for it, else
    /// `contexts/<name>` in the project's directory.
    pub fn get_context_dir(&self, project_dir: &str, context_name: &str) -> (dir: String)
        ensures
            self.context_dirs().contains_key(context_name@) ==> dir@
                == self.context_dirs()[context_name@],
            !self.context_dirs().contains_key(context_name@) ==> dir@ == join_spec(
                join_spec(project_dir@, "contexts"@),
                context_name@,
            ),
    {
        match &self.contexts {
            Some(contexts) => match lookup(contexts, context_name) {
                Some(dir) => {
                    return dir;
                },
                None => {},
            },
            None => {},
        }
        let contexts_dir = join(project_dir, "contexts");
        join(contexts_dir.as_str(), context_name)
    }

    /// The project whose tree has the root `project_path`: the first of
    /// `projects` with that path.
    pub fn find_by_path(projects: &Vec<KnownProject>, project_path: &str) -> (found: Option<String>)
        ensures
            match found {
                Some(name) => exists|i: int|
                    0 <= i < projects@.len() && (#[trigger] projects@[i]).path@ == project_path@
                        && name@ == projects@[i].name@ && forall|j: int|
                        0 <= j < i ==> (#[trigger] projects@[j]).path@ != project_path@,
                None => forall|j: int|
                    0 <= j < projects@.len() ==> (#[trigger] projects@[j]).path@ != project_path@,
            },
    {
        let mut i: usize = 0;
        while i < projects.len()
            invariant
                i <= projects.len(),
                forall|j: int| 0 <= j < i ==> (#[trigger] projects@[j]).path@ != project_path@,
            decreases projects.len() - i,
        {
            if str_eq(projects[i].path.as_str(), project_path) {
                return Some(projects[i].name.clone());
            }
            i += 1;
        }
        None
    }

    /// Checks the name of a project.
    pub fn validate_name(name: &str) -> (r: Result<(), MoteError>)
        ensures
            match name_complaint(name@) {
                None => r is Ok,
                Some(text) => r matches Err(MoteError::InvalidName(said)) && said@ == text,
            },
    {
        validate_name(name)
    }
}

fn lookup(contexts: &Vec<ContextDir>, name: &str) -> (found: Option<String>)
    ensures
        match found {
            Some(dir) => registered(contexts@).contains_key(name@) && dir@ == registered(
                contexts@,
            )[name@],
            None => !registered(contexts@).contains_key(name@),
        },
{
    let mut i: usize = contexts.len();
    while i > 0
        invariant
            i <= contexts.len(),
            forall|j: int| i <= j < contexts@.len() ==> contexts@[j].name@ != name@,
        decreases i,
    {
        i -= 1;
        if str_eq(contexts[i].name.as_str(), name) {
            proof {
                lemma_registered_last_match(contexts@, i as int, name@);
            }
            return Some(contexts[i].dir.clone());
        }
    }
    proof {
        lemma_registered_none(contexts@, name@);
    }
    None
}

proof fn lemma_registered_none(contexts: Seq<ContextDir>, name: Seq<char>)
    requires
        forall|j: int| 0 <= j < contexts.len() ==> contexts[j].name@ != name,
    ensures
        !registered(contexts).contains_key(name),
    decreases contexts.len(),
{
    if contexts.len() > 0 {
        assert forall|j: int| 0 <= j < contexts.drop_last().len() implies contexts.drop_last()[j].name@
            != name by {
            assert(contexts.drop_last()[j] == contexts[j]);
        }
        lemma_registered_none(contexts.drop_last(), name);
        assert(contexts.last() == contexts[contexts.len() - 1]);
    }
}

proof fn lemma_registered_last_match(contexts: Seq<ContextDir>, at: int, name: Seq<char>)
    requires
        0 <= at < contexts.len(),
        contexts[at].name@ == name,
        forall|j: int| at < j < contexts.len() ==> contexts[j].name@ != name,
    ensures
        registered(contexts).contains_key(name),
        registered(contexts)[name] == contexts[at].dir@,
    decreases contexts.len(),
{
    if at == contexts.len() - 1 {
    } else {
        let front = contexts.drop_last();
        assert(front[at] == contexts[at]);
        assert forall|j: int| at < j < front.len() implies front[j].name@ != name by {
            assert(front[j] == contexts[j]);
        }
        lemma_registered_last_match(front, at, name);
        assert(contexts.last() == contexts[contexts.len() - 1]);
    }
}

} // verus!
