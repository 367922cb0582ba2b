//! The import runners of a program, by their identifiers.
use vstd::prelude::*;

use crate::ast::{
    fault_text, known_modules, scanned, FileFacts, Project, ProjectAstManager,
};
use crate::environment::{
    answer_view, boots, communicated, executes, imports_all, loaded, no_processes, requests,
    stop_target, stops, text_view, update_outcome, update_view, updated, ImportRunner, Layer,
    Update,
};
use crate::ids::{is_random_uuid, new_id};
use crate::loader::{boot_outcome, booted, import_lines, outcome_view, LoaderEvent};
use crate::messages::{ForkRequest, Message};
use crate::package_name::detected_name;
use crate::string_map::StringMap;
use crate::text::{joined, view_of, views};

verus! {

/// A project that was scanned and whose modules are to be loaded.
pub struct ScannedPackage {
    pub ast_manager: ProjectAstManager,
    /// The code that imports the third-party modules of the project.
    pub code: String,
}

/// The text of the error where there is no runner with the identifier `id`.
pub open spec fn no_runner(id: Seq<char>) -> Seq<char> {
    "No import runner found with ID: "@ + id
}

/// An outcome whose error, if it is one, stands behind `start`.
pub open spec fn explained<T>(start: Seq<char>, outcome: Result<T, Seq<char>>) -> Result<
    T,
    Seq<char>,
> {
    match outcome {
        Ok(value) => Ok(value),
        Err(why) => Err(start + why),
    }
}

/// The outcome of the scan of a package: the third-party modules, where no fault was
/// met and the package has a name.
pub open spec fn package_scan(project: Project) -> Result<Set<Seq<char>>, Seq<char>> {
    let name = detected_name(project.top.files@, view_of(project.top.directory));
    match scanned(Map::<Seq<char>, FileFacts>::empty(), name, project.sources@).1 {
        Err(fault) => Err("Failed to process Python files: "@ + fault_text(fault)),
        Ok(modules) => if name is None {
            Err("Could not determine package name"@)
        } else {
            Ok(modules)
        },
    }
}

/// Scans the project at `package_path`.
pub fn scan_package(package_path: &str, project: &Project) -> (found: Result<
    ScannedPackage,
    String,
>)
    requires
        project.parsable(),
    ensures
        match found {
            Ok(found) => {
                let name = detected_name(project.top.files@, view_of(project.top.directory));
                &&& package_scan(*project) is Ok
                &&& imports_all(found.code@, package_scan(*project)->Ok_0)
                &&& found.ast_manager.wf()
                &&& found.ast_manager.path() == package_path@
                &&& found.ast_manager.package() == name
                &&& !found.ast_manager.searches_all()
                &&& found.ast_manager.known() == scanned(
                    Map::<Seq<char>, FileFacts>::empty(),
                    name,
                    project.sources@,
                ).0
            },
            Err(why) => package_scan(*project) == Err::<Set<Seq<char>>, Seq<char>>(why@),
        },
{
    let mut ast_manager = ProjectAstManager::new(package_path);
    let modules = match ast_manager.process_all_py_files(project) {
        Ok(modules) => modules,
        Err(error) => {
            return Err(joined("Failed to process Python files: ", error.message().as_str()));
        },
    };
    if ast_manager.get_package_name().is_none() {
        return Err("Could not determine package name".to_owned());
    }
    proof {
        modules.lemma_listed();
    }
    Ok(ScannedPackage { ast_manager, code: import_lines(&modules) })
}

/// The import runners, by their identifiers.
pub struct ImportRunners {
    pub runners: StringMap<ImportRunner>,
}

impl View for ImportRunners {
    type V = Map<Seq<char>, ImportRunner>;

    open spec fn view(&self) -> Map<Seq<char>, ImportRunner> {
        self.runners@
    }
}

impl ImportRunners {
    /// The table and each of the runners are well formed.
    pub open spec fn wf(&self) -> bool {
        &&& self.runners.wf()
        &&& forall|id: Seq<char>| #[trigger]
            self.runners@.contains_key(id) ==> self.runners@[id].wf()
    }

    /// Whether `after` differs from this table at most in the runner `id`.
    pub open spec fn same_but(&self, after: ImportRunners, id: Seq<char>) -> bool {
        &&& self@.contains_key(id)
        &&& after@ == self@.insert(id, after@[id])
    }

    /// A table without runners.
    pub fn new() -> (runners: Self)
        ensures
            runners.wf(),
            runners@ == Map::<Seq<char>, ImportRunner>::empty(),
    {
        ImportRunners { runners: StringMap::new() }
    }

    /// Registers a runner with the identifier `runner_id` for a scanned project, where
    /// the output of its loader process says that the imports were loaded.
    pub fn register_runner(
        &mut self,
        runner_id: String,
        ast_manager: ProjectAstManager,
        output: &Vec<LoaderEvent>,
    ) -> (result: Result<String, String>)
        requires
            old(self).wf(),
            ast_manager.wf(),
        ensures
            final(self).wf(),
            match booted(output@) {
                Ok(_) => {
                    &&& result is Ok
                    &&& result->Ok_0@ == runner_id@
                    &&& final(self)@ == old(self)@.insert(runner_id@, final(self)@[runner_id@])
                    &&& ({
                        let runner = final(self)@[runner_id@];
                        &&& runner.id@ == runner_id@
                        &&& runner.ast_manager == ast_manager
                        &&& runner.state() == Some(no_processes())
                        &&& runner.first_scan
                    })
                },
                Err(why) => {
                    &&& text_view(result) == Err::<Seq<char>, Seq<char>>(why)
                    &&& *final(self) == *old(self)
                },
            },
    {
        match boot_outcome(output) {
            Ok(_) => {
                let runner = ImportRunner {
                    id: runner_id.clone(),
                    layer: Some(Layer::new()),
                    ast_manager,
                    first_scan: true,
                };
                self.runners.insert(runner_id.clone(), runner);
                Ok(runner_id)
            },
            Err(why) => Err(why),
        }
    }

    /// Initialize and start the import runner, returning a unique identifier
    pub fn start_import_runner(
        &mut self,
        ast_manager: ProjectAstManager,
        output: &Vec<LoaderEvent>,
    ) -> (result: Result<String, String>)
        requires
            old(self).wf(),
            ast_manager.wf(),
        ensures
            final(self).wf(),
            match booted(output@) {
                Ok(_) => {
                    &&& result is Ok
                    &&& is_random_uuid(result->Ok_0@)
                    &&& final(self)@ == old(self)@.insert(
                        result->Ok_0@,
                        final(self)@[result->Ok_0@],
                    )
                    &&& ({
                        let runner = final(self)@[result->Ok_0@];
                        &&& runner.id@ == result->Ok_0@
                        &&& runner.ast_manager == ast_manager
                        &&& runner.state() == Some(no_processes())
                        &&& runner.first_scan
                    })
                },
                Err(why) => {
                    &&& text_view(result) == Err::<Seq<char>, Seq<char>>(why)
                    &&& *final(self) == *old(self)
                },
            },
    {
        self.register_runner(new_id(), ast_manager, output)
    }

    /// Compute and return the delta of imports since the last check
    pub fn compute_import_delta(&mut self, runner_id: &str, project: &Project) -> (delta: Result<
        (Vec<String>, Vec<String>),
        String,
    >)
        requires
            old(self).wf(),
            project.parsable(),
        ensures
            final(self).wf(),
            if old(self)@.contains_key(runner_id@) {
                let before = old(self)@[runner_id@];
                let after = final(self)@[runner_id@];
                let manager = before.ast_manager;
                let previous = known_modules(manager.known(), manager.package());
                let (known, modules) = scanned(
                    manager.known(),
                    manager.package_in(project.top),
                    project.sources@,
                );
                &&& old(self).same_but(*final(self), runner_id@)
                &&& after.id == before.id
                &&& after.layer == before.layer
                &&& after.first_scan == before.first_scan
                &&& after.ast_manager.package() == manager.package_in(project.top)
                &&& after.ast_manager.path() == manager.path()
                &&& after.ast_manager.searches_all() == manager.searches_all()
                &&& after.ast_manager.known() == known
                &&& match delta {
                    Ok((added, removed)) => {
                        &&& modules is Ok
                        &&& views(added@).no_duplicates()
                        &&& views(added@).to_set() == modules->Ok_0.difference(previous)
                        &&& views(removed@).no_duplicates()
                        &&& views(removed@).to_set() == previous.difference(modules->Ok_0)
                    },
                    Err(why) => {
                        &&& modules is Err
                        &&& why@ == "Failed to compute import delta: "@ + fault_text(
                            modules->Err_0,
                        )
                    },
                }
            } else {
                &&& delta is Err
                &&& delta->Err_0@ == "No import runner found for ID: "@ + runner_id@
                &&& *final(self) == *old(self)
            },
    {
        match self.runners.get_mut(runner_id) {
            Some(runner) => match runner.ast_manager.compute_import_delta(project) {
                Ok((added, removed)) => {
                    proof {
                        added.lemma_listed();
                        removed.lemma_listed();
                    }
                    Ok((added.into_list(), removed.into_list()))
                },
                Err(error) => Err(
                    joined("Failed to compute import delta: ", error.message().as_str()),
                ),
            },
            None => Err(joined("No import runner found for ID: ", runner_id)),
        }
    }

    /// Update the environment by checking for import changes; it is to be restarted if
    /// necessary
    pub fn update_environment(&mut self, runner_id: &str, project: &Project) -> (result: Result<
        Update,
        String,
    >)
        requires
            old(self).wf(),
            project.parsable(),
        ensures
            final(self).wf(),
            if old(self)@.contains_key(runner_id@) {
                &&& old(self).same_but(*final(self), runner_id@)
                &&& updated(old(self)@[runner_id@], final(self)@[runner_id@], *project)
                &&& update_view(result) == explained(
                    "Failed to update environment: "@,
                    update_outcome(old(self)@[runner_id@], *project),
                )
            } else {
                &&& update_view(result) == Err::<Option<Seq<i32>>, Seq<char>>(
                    no_runner(runner_id@),
                )
                &&& *final(self) == *old(self)
            },
    {
        match self.runners.get_mut(runner_id) {
            Some(runner) => match runner.update_environment(project) {
                Ok(update) => Ok(update),
                Err(why) => Err(joined("Failed to update environment: ", why.as_str())),
            },
            None => Err(joined("No import runner found with ID: ", runner_id)),
        }
    }

    /// The code that imports the third-party modules of a project whose environment is
    /// restarted
    pub fn reload_modules(&mut self, runner_id: &str, project: &Project) -> (code: Result<
        String,
        String,
    >)
        requires
            old(self).wf(),
            project.parsable(),
        ensures
            final(self).wf(),
            if old(self)@.contains_key(runner_id@) {
                &&& old(self).same_but(*final(self), runner_id@)
                &&& exists|inner: Result<Seq<char>, Seq<char>>|
                    #![trigger explained("Failed to update environment: "@, inner)]
                    {
                        &&& loaded(
                            old(self)@[runner_id@],
                            final(self)@[runner_id@],
                            *project,
                            inner,
                        )
                        &&& text_view(code) == explained("Failed to update environment: "@, inner)
                    }
            } else {
                &&& text_view(code) == Err::<Seq<char>, Seq<char>>(no_runner(runner_id@))
                &&& *final(self) == *old(self)
            },
    {
        match self.runners.get_mut(runner_id) {
            Some(runner) => {
                let inner = runner.load_modules(project);
                let ghost seen = text_view(inner);
                let code = match inner {
                    Ok(code) => Ok(code),
                    Err(why) => Err(joined("Failed to update environment: ", why.as_str())),
                };
                assert(text_view(code) == explained("Failed to update environment: "@, seen));
                code
            },
            None => Err(joined("No import runner found with ID: ", runner_id)),
        }
    }

    /// Boots the restarted environment, where the output of the new loader process says
    /// that the imports were loaded; the environment was then updated
    pub fn reboot(&mut self, runner_id: &str, output: &Vec<LoaderEvent>) -> (result: Result<
        bool,
        String,
    >)
        requires
            old(self).wf(),
        ensures
            final(self).wf(),
            if old(self)@.contains_key(runner_id@) {
                &&& old(self).same_but(*final(self), runner_id@)
                &&& boots(old(self)@[runner_id@], final(self)@[runner_id@], output@)
                &&& outcome_view(result) == match booted(output@) {
                    Ok(_) => Ok::<bool, Seq<char>>(true),
                    Err(why) => Err("Failed to update environment: "@ + why),
                }
            } else {
                &&& outcome_view(result) == Err::<bool, Seq<char>>(no_runner(runner_id@))
                &&& *final(self) == *old(self)
            },
    {
        match self.runners.get_mut(runner_id) {
            Some(runner) => match runner.boot_main(output) {
                Ok(_) => Ok(true),
                Err(why) => Err(joined("Failed to update environment: ", why.as_str())),
            },
            None => Err(joined("No import runner found with ID: ", runner_id)),
        }
    }

    /// Stop the import runner with the given ID
    pub fn stop_import_runner(&mut self, runner_id: &str) -> (result: Result<(), String>)
        requires
            old(self).wf(),
        ensures
            final(self).wf(),
            final(self)@ == old(self)@.remove(runner_id@),
            outcome_view(result) == if old(self)@.contains_key(runner_id@) {
                Ok::<(), Seq<char>>(())
            } else {
                Err(no_runner(runner_id@))
            },
    {
        match self.runners.remove(runner_id) {
            Some(runner) => {
                let mut runner = runner;
                match runner.stop_main() {
                    Ok(_) => Ok(()),
                    Err(why) => Err(joined("Failed to stop import runner: ", why.as_str())),
                }
            },
            None => {
                assert(self@ =~= old(self)@.remove(runner_id@));
                Err(joined("No import runner found with ID: ", runner_id))
            },
        }
    }

    /// The request that makes the loader process of a runner fork
    pub fn fork_request(&self, runner_id: &str, pickled_data: &str, script: &str) -> (request:
        Result<ForkRequest, String>)
        requires
            self.wf(),
        ensures
            if self@.contains_key(runner_id@) {
                requests(self@[runner_id@], pickled_data@, script@, request)
            } else {
                request is Err && request->Err_0@ == no_runner(runner_id@)
            },
    {
        match self.runners.get(runner_id) {
            Some(runner) => runner.fork_request(pickled_data, script),
            None => Err(joined("No import runner found with ID: ", runner_id)),
        }
    }

    /// Execute a Python function in an isolated process
    pub fn exec_isolated(&mut self, runner_id: &str, output: &Vec<LoaderEvent>) -> (result: Result<
        String,
        String,
    >)
        requires
            old(self).wf(),
        ensures
            final(self).wf(),
            if old(self)@.contains_key(runner_id@) {
                &&& old(self).same_but(*final(self), runner_id@)
                &&& executes(
                    old(self)@[runner_id@],
                    final(self)@[runner_id@],
                    output@,
                    text_view(result),
                )
            } else {
                &&& text_view(result) == Err::<Seq<char>, Seq<char>>(no_runner(runner_id@))
                &&& *final(self) == *old(self)
            },
    {
        match self.runners.get_mut(runner_id) {
            Some(runner) => runner.exec_isolated(output),
            None => Err(joined("No import runner found with ID: ", runner_id)),
        }
    }

    /// The process ID to which the signals go when an isolated process is stopped
    pub fn pid_to_stop(&self, runner_id: &str, process_uuid: &str) -> (pid: Result<
        Option<i32>,
        String,
    >)
        requires
            self.wf(),
        ensures
            outcome_view(pid) == if self@.contains_key(runner_id@) {
                explained(
                    "Failed to stop isolated process: "@,
                    stop_target(self@[runner_id@].state(), process_uuid@),
                )
            } else {
                Err::<Option<i32>, Seq<char>>(no_runner(runner_id@))
            },
    {
        match self.runners.get(runner_id) {
            Some(runner) => match runner.pid_to_stop(process_uuid) {
                Ok(pid) => Ok(pid),
                Err(why) => Err(joined("Failed to stop isolated process: ", why.as_str())),
            },
            None => Err(joined("No import runner found with ID: ", runner_id)),
        }
    }

    /// Stop an isolated process
    pub fn stop_isolated(&mut self, runner_id: &str, process_uuid: &str) -> (result: Result<
        bool,
        String,
    >)
        requires
            old(self).wf(),
        ensures
            final(self).wf(),
            if old(self)@.contains_key(runner_id@) {
                let (after, stopped) = stops(old(self)@[runner_id@].state(), process_uuid@);
                &&& old(self).same_but(*final(self), runner_id@)
                &&& old(self)@[runner_id@].same_but_layer(final(self)@[runner_id@])
                &&& final(self)@[runner_id@].state() == after
                &&& outcome_view(result) == explained(
                    "Failed to stop isolated process: "@,
                    stopped,
                )
            } else {
                &&& outcome_view(result) == Err::<bool, Seq<char>>(no_runner(runner_id@))
                &&& *final(self) == *old(self)
            },
    {
        match self.runners.get_mut(runner_id) {
            Some(runner) => match runner.stop_isolated(process_uuid) {
                Ok(stopped) => Ok(stopped),
                Err(why) => Err(joined("Failed to stop isolated process: ", why.as_str())),
            },
            None => Err(joined("No import runner found with ID: ", runner_id)),
        }
    }

    /// Get output from an isolated process
    pub fn communicate_isolated(
        &mut self,
        runner_id: &str,
        process_uuid: &str,
        pending: &Vec<Message>,
    ) -> (result: Result<Option<String>, String>)
        requires
            old(self).wf(),
        ensures
            final(self).wf(),
            if old(self)@.contains_key(runner_id@) {
                let (after, reply) = communicated(
                    old(self)@[runner_id@].state(),
                    process_uuid@,
                    pending@,
                );
                &&& old(self).same_but(*final(self), runner_id@)
                &&& old(self)@[runner_id@].same_but_layer(final(self)@[runner_id@])
                &&& final(self)@[runner_id@].state() == after
                &&& answer_view(result) == explained(
                    "Failed to communicate with isolated process: "@,
                    reply,
                )
            } else {
                &&& answer_view(result) == Err::<Option<Seq<char>>, Seq<char>>(
                    no_runner(runner_id@),
                )
                &&& *final(self) == *old(self)
            },
    {
        match self.runners.get_mut(runner_id) {
            Some(runner) => match runner.communicate_isolated(process_uuid, pending) {
                Ok(value) => Ok(value),
                Err(why) => Err(
                    joined("Failed to communicate with isolated process: ", why.as_str()),
                ),
            },
            None => Err(joined("No import runner found with ID: ", runner_id)),
        }
    }
}

} // verus!
