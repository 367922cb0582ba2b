//! Runners: a loader process with the third-party modules of a project, and the
//! isolated processes that are forked from it.
use vstd::prelude::*;

use crate::ast::{fault_text, known_modules, scanned, Project, ProjectAstManager};
use crate::ids::{is_random_uuid, new_id};
use crate::layer::{child_error_text, full_error};
use crate::loader::{
    boot_outcome, booted, exec_code, fork_outcome, forked_pid, import_code, import_lines,
    isolated_code, outcome_view, LoaderEvent,
};
use crate::messages::{ForkRequest, Message};
use crate::multiplex_logs::{parse_multiplexed_line, parsed_line, LogLine, MultiplexedLogLine};
use crate::processes::{find_owner, first_owner, table_pid, to_table_pid};
use crate::scan_laws::law_delta_leads_to_current;
use crate::string_map::StringMap;
use crate::text::{decimal, decimal_text, joined, view_of};

verus! {

/// Result from a forked process
#[derive(Debug)]
pub enum ProcessResult {
    /// Process completed successfully with an optional return value
    Complete(Option<String>),
    /// Process failed with an error message
    Error(String),
    /// Raw log output from the process
    Log(MultiplexedLogLine),
}

/// What a `ProcessResult` stands for.
pub enum Report {
    Complete(Option<Seq<char>>),
    Error(Seq<char>),
    Log(LogLine),
}

impl View for ProcessResult {
    type V = Report;

    open spec fn view(&self) -> Report {
        match self {
            ProcessResult::Complete(value) => Report::Complete(view_of(*value)),
            ProcessResult::Error(why) => Report::Error(why@),
            ProcessResult::Log(line) => Report::Log(line@),
        }
    }
}

impl Clone for ProcessResult {
    fn clone(&self) -> (result: Self)
        ensures
            result@ == self@,
    {
        match self {
            ProcessResult::Complete(value) => ProcessResult::Complete(value.clone()),
            ProcessResult::Error(why) => ProcessResult::Error(why.clone()),
            ProcessResult::Log(line) => ProcessResult::Log(line.clone()),
        }
    }
}

/// What is reported of a process so far.
pub open spec fn report_of(result: Option<ProcessResult>) -> Option<Report> {
    match result {
        Some(result) => Some(result@),
        None => None,
    }
}

/// Runtime layer for executing Python code: the isolated processes that were forked
/// from a loader process, and what is reported of them.
pub struct Layer {
    /// Map of UUID to PID
    pub forked_processes: StringMap<i32>,
    /// Map of UUID to final result status
    pub result_map: StringMap<Option<ProcessResult>>,
}

/// What a `Layer` stands for.
#[verifier::ext_equal]
pub struct Isolated {
    /// The UUIDs of the processes, in the order in which they came.
    pub order: Seq<Seq<char>>,
    pub processes: Map<Seq<char>, i32>,
    pub results: Map<Seq<char>, Option<Report>>,
}

impl View for Layer {
    type V = Isolated;

    open spec fn view(&self) -> Isolated {
        Isolated {
            order: self.forked_processes.keys(),
            processes: self.forked_processes@,
            results: self.result_map@.map_values(
                |result: Option<ProcessResult>| report_of(result),
            ),
        }
    }
}

/// No process.
pub open spec fn no_processes() -> Isolated {
    Isolated { order: Seq::empty(), processes: Map::empty(), results: Map::empty() }
}

/// What a message reports of the end of a process.
pub open spec fn reported(message: Message) -> Option<Report> {
    match message {
        Message::ChildComplete(complete) => Some(Report::Complete(view_of(complete.result))),
        Message::ChildError(error) => Some(
            Report::Error(full_error(error.error@, view_of(error.traceback))),
        ),
        _ => None,
    }
}

/// The results after a message: where it reports the end of a process, every process
/// that has an entry gets the report, since the message does not say which one it
/// came from.
pub open spec fn delivered(
    results: Map<Seq<char>, Option<Report>>,
    message: Message,
) -> Map<Seq<char>, Option<Report>> {
    match reported(message) {
        Some(report) => results.map_values(|result: Option<Report>| Some(report)),
        None => results,
    }
}

/// The results after messages that came one after the other.
pub open spec fn delivered_all(
    results: Map<Seq<char>, Option<Report>>,
    messages: Seq<Message>,
) -> Map<Seq<char>, Option<Report>>
    decreases messages.len(),
{
    if messages.len() == 0 {
        results
    } else {
        delivered(delivered_all(results, messages.drop_last()), messages.last())
    }
}

/// The text that is printed for a line of output that is not a message.
pub open spec fn shown_line(state: Isolated, line: Seq<char>) -> Seq<char> {
    match parsed_line(line) {
        Ok(log) => match first_owner(state.order, state.processes, table_pid(log.pid)) {
            Some(uuid) => "["@ + uuid + ":"@ + log.stream_name + "] "@ + log.content,
            None => "Unmatched log: ["@ + decimal(log.pid as nat) + ":"@ + log.stream_name + "] "@
                + log.content,
        },
        Err(_) => "Raw output: "@ + line,
    }
}

/// What is reported by a message, where it reports the end of a process.
fn report(message: &Message) -> (result: Option<ProcessResult>)
    ensures
        report_of(result) == reported(*message),
{
    match message {
        Message::ChildComplete(complete) => Some(
            ProcessResult::Complete(complete.result.clone()),
        ),
        Message::ChildError(error) => Some(ProcessResult::Error(child_error_text(error))),
        _ => None,
    }
}

fn with_source(start: &str, source: &str, stream_name: &str, content: &str) -> (text: String)
    ensures
        text@ == start@ + source@ + ":"@ + stream_name@ + "] "@ + content@,
{
    let text = joined(joined(start, source).as_str(), ":");
    let text = joined(joined(text.as_str(), stream_name).as_str(), "] ");
    joined(text.as_str(), content)
}

impl Layer {
    /// The tables of the layer are well formed.
    pub open spec fn wf(&self) -> bool {
        &&& self.forked_processes.wf()
        &&& self.result_map.wf()
    }

    /// A layer from which nothing was forked yet.
    pub fn new() -> (layer: Self)
        ensures
            layer.wf(),
            layer@ == no_processes(),
    {
        let layer = Layer { forked_processes: StringMap::new(), result_map: StringMap::new() };
        assert(layer@.results =~= Map::empty());
        layer
    }

    /// Populates the result map with what a message reports.
    pub fn deliver(&mut self, message: &Message)
        requires
            old(self).wf(),
        ensures
            final(self).wf(),
            final(self)@ == (Isolated {
                results: delivered(old(self)@.results, *message),
                ..old(self)@
            }),
    {
        let ghost keys = self.result_map.keys();
        let ghost before = self@.results;
        let ghost expected = reported(*message);
        proof {
            self.result_map.lemma_keys();
        }
        if report(message).is_none() {
            return;
        }
        let mut at: usize = 0;
        while at < self.result_map.len()
            invariant
                at <= keys.len(),
                self.wf(),
                keys == self.result_map.keys(),
                keys.no_duplicates(),
                expected == reported(*message),
                expected is Some,
                before == old(self)@.results,
                self.forked_processes == old(self).forked_processes,
                forall|key: Seq<char>| before.contains_key(key) <==> keys.contains(key),
                self@.results.dom() =~= before.dom(),
                forall|i: int|
                    0 <= i < keys.len() ==> self@.results[#[trigger] keys[i]] == if i < at {
                        expected
                    } else {
                        before[keys[i]]
                    },
            decreases keys.len() - at,
        {
            let ghost earlier = self@.results;
            assert(keys.contains(keys[at as int]));
            let result = report(message);
            self.result_map.set_at(at, result);
            proof {
                assert(self@.results =~= earlier.insert(keys[at as int], expected));
            }
            at = at + 1;
        }
        proof {
            let after = delivered(before, *message);
            assert forall|key: Seq<char>| self@.results.contains_key(key) implies
                self@.results[key] == after[key] by {
                assert(keys.contains(key));
                let i = keys.index_of(key);
                assert(keys[i] == key);
            }
            assert(self@.results =~= after);
        }
    }

    fn deliver_all(&mut self, messages: &Vec<Message>)
        requires
            old(self).wf(),
        ensures
            final(self).wf(),
            final(self)@ == (Isolated {
                results: delivered_all(old(self)@.results, messages@),
                ..old(self)@
            }),
    {
        let ghost before = self@;
        let mut at: usize = 0;
        while at < messages.len()
            invariant
                at <= messages@.len(),
                self.wf(),
                self@ == (Isolated {
                    results: delivered_all(before.results, messages@.take(at as int)),
                    ..before
                }),
            decreases messages@.len() - at,
        {
            self.deliver(&messages[at]);
            proof {
                let longer = messages@.take(at + 1);
                assert(longer.drop_last() =~= messages@.take(at as int));
                assert(longer.last() == messages@[at as int]);
            }
            at = at + 1;
        }
        assert(messages@.take(at as int) =~= messages@);
    }

    /// The text to print for a line of output that is not a message.
    pub fn shown(&self, line: &str) -> (text: String)
        requires
            self.wf(),
        ensures
            text@ == shown_line(self@, line@),
    {
        match parse_multiplexed_line(line) {
            Ok(log) => match find_owner(&self.forked_processes, to_table_pid(log.pid)) {
                Some(uuid) => with_source(
                    "[",
                    uuid.as_str(),
                    log.stream_name.as_str(),
                    log.content.as_str(),
                ),
                None => with_source(
                    "Unmatched log: [",
                    decimal_text(log.pid as u128).as_str(),
                    log.stream_name.as_str(),
                    log.content.as_str(),
                ),
            },
            Err(_) => joined("Raw output: ", line),
        }
    }

    /// Processes a line of output that decodes to `message`, and gives the text that
    /// is to be printed for it.
    pub fn process_line(&mut self, line: &str, message: &Option<Message>) -> (print: Option<String>)
        requires
            old(self).wf(),
        ensures
            final(self).wf(),
            match *message {
                Some(message) => {
                    &&& print is None
                    &&& final(self)@ == (Isolated {
                        results: delivered(old(self)@.results, message),
                        ..old(self)@
                    })
                },
                None => {
                    &&& view_of(print) == Some(shown_line(old(self)@, line@))
                    &&& final(self)@ == old(self)@
                },
            },
    {
        match message {
            Some(message) => {
                self.deliver(message);
                None
            },
            None => Some(self.shown(line)),
        }
    }
}

/// Runner for isolated Python code execution
pub struct ImportRunner {
    pub id: String,
    /// The current layer that is tied to this environment
    pub layer: Option<Layer>,
    /// Project AST manager for this environment
    pub ast_manager: ProjectAstManager,
    /// Whether an environment was booted from a scan of the project, so that a change
    /// can be seen.
    pub first_scan: bool,
}

/// The text of the error where there is no layer to fork from.
pub open spec fn not_initialized() -> Seq<char> {
    "Layer not initialized. Call boot_main first."@
}

/// The processes after the process `uuid` was forked with the process ID `pid`. It is
/// not registered where its process ID is not known.
pub open spec fn with_process(state: Isolated, uuid: Seq<char>, pid: Option<i32>) -> Isolated {
    match pid {
        Some(pid) => Isolated {
            order: if state.processes.contains_key(uuid) {
                state.order
            } else {
                state.order.push(uuid)
            },
            processes: state.processes.insert(uuid, pid),
            results: state.results.insert(uuid, None),
        },
        None => state,
    }
}

/// The processes without the process `uuid`.
pub open spec fn without_process(state: Isolated, uuid: Seq<char>) -> Isolated {
    if state.processes.contains_key(uuid) {
        Isolated {
            order: state.order.remove(state.order.index_of(uuid)),
            processes: state.processes.remove(uuid),
            results: state.results.remove(uuid),
        }
    } else {
        state
    }
}

/// The processes, of which `uuid` has an entry for its result.
pub open spec fn awaiting(state: Isolated, uuid: Seq<char>) -> Isolated {
    if state.results.contains_key(uuid) {
        state
    } else {
        Isolated { results: state.results.insert(uuid, None), ..state }
    }
}

/// What is answered for a process of which this is reported.
pub open spec fn answer(report: Option<Report>) -> Result<Option<Seq<char>>, Seq<char>> {
    match report {
        Some(Report::Complete(value)) => Ok(value),
        Some(Report::Error(why)) => Err(why),
        Some(Report::Log(_)) => Ok(None),
        None => Ok(None),
    }
}

/// What becomes of the processes, and what is answered, when the process `uuid` is
/// asked for its result and the messages `pending` had not been delivered yet.
pub open spec fn communicated(
    state: Option<Isolated>,
    uuid: Seq<char>,
    pending: Seq<Message>,
) -> (Option<Isolated>, Result<Option<Seq<char>>, Seq<char>>) {
    match state {
        None => (None, Err("No layer available for communication"@)),
        Some(state) => if state.processes.contains_key(uuid) {
            let waiting = awaiting(state, uuid);
            let results = delivered_all(waiting.results, pending);
            (Some(Isolated { results, ..waiting }), answer(results[uuid]))
        } else {
            (Some(state), Err("Process "@ + uuid + " does not exist"@))
        },
    }
}

/// What an update of an environment comes to.
#[derive(Debug)]
pub enum Update {
    /// Nothing changed.
    Unchanged,
    /// The processes with these process IDs and the loader process are to be stopped,
    /// and a new loader process is to be booted.
    Restart(Vec<i32>),
}

/// What an answer stands for.
pub open spec fn answer_view(answer: Result<Option<String>, String>) -> Result<
    Option<Seq<char>>,
    Seq<char>,
> {
    match answer {
        Ok(value) => Ok(view_of(value)),
        Err(why) => Err(why@),
    }
}

/// What becomes of a runner when the files of its project are processed, and the code
/// that then imports the third-party modules, or why there is none.
pub open spec fn loaded(
    before: ImportRunner,
    after: ImportRunner,
    project: Project,
    code: Result<Seq<char>, Seq<char>>,
) -> bool {
    let (known, modules) = scanned(
        before.ast_manager.known(),
        before.ast_manager.package_in(project.top),
        project.sources@,
    );
    &&& after.id == before.id
    &&& after.layer == before.layer
    &&& after.first_scan == before.first_scan
    &&& after.ast_manager.package() == before.ast_manager.package_in(project.top)
    &&& after.ast_manager.path() == before.ast_manager.path()
    &&& after.ast_manager.searches_all() == before.ast_manager.searches_all()
    &&& after.ast_manager.known() == known
    &&& match code {
        Ok(code) => modules is Ok && imports_all(code, modules->Ok_0),
        Err(why) => modules is Err && why == "Failed to process Python files: "@ + fault_text(
            modules->Err_0,
        ),
    }
}

/// What becomes of a runner when the output of a loader process says whether the
/// imports were loaded.
pub open spec fn boots(
    before: ImportRunner,
    after: ImportRunner,
    output: Seq<LoaderEvent>,
) -> bool {
    &&& after.id == before.id
    &&& after.ast_manager == before.ast_manager
    &&& after.first_scan == (before.first_scan || booted(output) is Ok)
    &&& match booted(output) {
        Ok(_) => after.state() == Some(no_processes()),
        Err(_) => after.layer == before.layer,
    }
}

/// What an update comes to: nothing where the project was not scanned before or its
/// imports did not change, else the process IDs of the processes that are to be
/// stopped.
pub open spec fn update_outcome(runner: ImportRunner, project: Project) -> Result<
    Option<Seq<i32>>,
    Seq<char>,
> {
    let manager = runner.ast_manager;
    let previous = known_modules(manager.known(), manager.package());
    if !runner.first_scan {
        Ok(None)
    } else {
        match scanned(manager.known(), manager.package_in(project.top), project.sources@).1 {
            Ok(modules) => if modules == previous {
                Ok(None)
            } else {
                Ok(
                    Some(
                        match runner.state() {
                            Some(state) => pids_of(state),
                            None => Seq::empty(),
                        },
                    ),
                )
            },
            Err(fault) => Err("Failed to compute import delta: "@ + fault_text(fault)),
        }
    }
}

/// What becomes of a runner when it is updated.
pub open spec fn updated(before: ImportRunner, after: ImportRunner, project: Project) -> bool {
    &&& after.id == before.id
    &&& after.first_scan == before.first_scan
    &&& if before.first_scan {
        &&& after.ast_manager.package() == before.ast_manager.package_in(project.top)
        &&& after.ast_manager.path() == before.ast_manager.path()
        &&& after.ast_manager.searches_all() == before.ast_manager.searches_all()
        &&& after.ast_manager.known() == scanned(
            before.ast_manager.known(),
            before.ast_manager.package_in(project.top),
            project.sources@,
        ).0
    } else {
        after.ast_manager == before.ast_manager
    }
    &&& match update_outcome(before, project) {
        Ok(Some(_)) => after.state() == match before.state() {
            Some(_) => Some(no_processes()),
            None => None,
        },
        _ => after.layer == before.layer,
    }
}

/// What an update stands for.
pub open spec fn update_view(update: Result<Update, String>) -> Result<
    Option<Seq<i32>>,
    Seq<char>,
> {
    match update {
        Ok(Update::Unchanged) => Ok(None),
        Ok(Update::Restart(pids)) => Ok(Some(pids@)),
        Err(why) => Err(why@),
    }
}

/// The request that makes the loader process of a runner fork, or why there is none.
pub open spec fn requests(
    runner: ImportRunner,
    pickled_data: Seq<char>,
    script: Seq<char>,
    request: Result<ForkRequest, String>,
) -> bool {
    match request {
        Ok(request) => {
            &&& runner.layer is Some
            &&& request.name == crate::messages::MessageType::ForkRequest
            &&& request.code@ == isolated_code(pickled_data, script)
        },
        Err(why) => runner.layer is None && why@ == not_initialized(),
    }
}

/// What becomes of a runner, and what is returned, when the process `process_uuid` was
/// forked as the output of the loader process says.
pub open spec fn registers(
    before: ImportRunner,
    after: ImportRunner,
    process_uuid: Seq<char>,
    output: Seq<LoaderEvent>,
    result: Result<Seq<char>, Seq<char>>,
) -> bool {
    &&& before.same_but_layer(after)
    &&& match (before.state(), fork_outcome(output)) {
        (None, _) => {
            &&& result == Err::<Seq<char>, Seq<char>>(not_initialized())
            &&& after.layer == before.layer
        },
        (Some(_), Err(why)) => {
            &&& result == Err::<Seq<char>, Seq<char>>(why)
            &&& after.layer == before.layer
        },
        (Some(state), Ok(pid)) => if process_uuid.len() == 0 {
            &&& result == Err::<Seq<char>, Seq<char>>(
                "Failed to get process UUID from fork operation"@,
            )
            &&& after.layer == before.layer
        } else {
            &&& result == Ok::<Seq<char>, Seq<char>>(process_uuid)
            &&& after.state() == Some(with_process(state, process_uuid, pid))
        },
    }
}

/// What becomes of a runner, and what is returned, when a process was forked as the
/// output of the loader process says: it is registered under some identifier.
pub open spec fn executes(
    before: ImportRunner,
    after: ImportRunner,
    output: Seq<LoaderEvent>,
    result: Result<Seq<char>, Seq<char>>,
) -> bool {
    exists|process_uuid: Seq<char>| #[trigger]
        is_random_uuid(process_uuid) && registers(before, after, process_uuid, output, result)
}

/// The process ID to which the signals go when a process is stopped.
pub open spec fn stop_target(state: Option<Isolated>, uuid: Seq<char>) -> Result<
    Option<i32>,
    Seq<char>,
> {
    match state {
        None => Err(not_initialized()),
        Some(state) => if state.processes.contains_key(uuid) {
            Ok(Some(state.processes[uuid]))
        } else {
            Ok(None)
        },
    }
}

/// What becomes of the processes, and what is answered, when a process is stopped:
/// whether it was there.
pub open spec fn stops(state: Option<Isolated>, uuid: Seq<char>) -> (
    Option<Isolated>,
    Result<bool, Seq<char>>,
) {
    match state {
        None => (None, Err(not_initialized())),
        Some(state) => (
            Some(without_process(state, uuid)),
            Ok(state.processes.contains_key(uuid)),
        ),
    }
}

/// What a result that is a text stands for.
pub open spec fn text_view(result: Result<String, String>) -> Result<Seq<char>, Seq<char>> {
    match result {
        Ok(text) => Ok(text@),
        Err(why) => Err(why@),
    }
}

impl ImportRunner {
    /// The layer and what is known of the project are well formed.
    pub open spec fn wf(&self) -> bool {
        &&& self.ast_manager.wf()
        &&& self.layer matches Some(layer) ==> layer.wf()
    }

    /// The isolated processes, where there is a layer.
    pub open spec fn state(&self) -> Option<Isolated> {
        match self.layer {
            Some(layer) => Some(layer@),
            None => None,
        }
    }

    /// Whether `other` differs from this runner at most in its layer.
    pub open spec fn same_but_layer(&self, other: ImportRunner) -> bool {
        &&& other.id == self.id
        &&& other.ast_manager == self.ast_manager
        &&& other.first_scan == self.first_scan
    }

    /// A runner for a project whose package has the name `project_name`.
    pub fn new(project_name: &str, project_path: &str) -> (runner: Self)
        ensures
            runner.wf(),
            is_random_uuid(runner.id@),
            runner.layer is None,
            !runner.first_scan,
            runner.ast_manager.known() == Map::<Seq<char>, crate::ast::FileFacts>::empty(),
            runner.ast_manager.package() == Some(project_name@),
            runner.ast_manager.path() == project_path@,
            runner.ast_manager.searches_all(),
    {
        ImportRunner {
            id: new_id(),
            layer: None,
            ast_manager: ProjectAstManager::for_package(project_name, project_path),
            first_scan: false,
        }
    }

    /// Processes the files of the project, and gives the code that imports its
    /// third-party modules.
    pub fn load_modules(&mut self, project: &Project) -> (code: Result<String, String>)
        requires
            old(self).wf(),
            project.parsable(),
        ensures
            final(self).wf(),
            loaded(*old(self), *final(self), *project, text_view(code)),
    {
        match self.ast_manager.process_all_py_files(project) {
            Ok(modules) => {
                proof {
                    modules.lemma_listed();
                }
                Ok(import_lines(&modules))
            },
            Err(error) => Err(
                joined("Failed to process Python files: ", error.message().as_str()),
            ),
        }
    }

    /// Boots the environment where the output of the loader process says that the
    /// imports were loaded: there is a new layer, from which nothing was forked yet. The
    /// project was scanned for that, so that a change of its imports is seen from now on.
    pub fn boot_main(&mut self, output: &Vec<LoaderEvent>) -> (result: Result<(), String>)
        requires
            old(self).wf(),
        ensures
            final(self).wf(),
            outcome_view(result) == booted(output@),
            boots(*old(self), *final(self), output@),
    {
        match boot_outcome(output) {
            Ok(_) => {
                self.layer = Some(Layer::new());
                self.first_scan = true;
                Ok(())
            },
            Err(why) => Err(why),
        }
    }

    /// Stops the environment: all processes are forgotten. There is nothing to stop
    /// where there is no layer.
    pub fn stop_main(&mut self) -> (result: Result<bool, String>)
        requires
            old(self).wf(),
        ensures
            final(self).wf(),
            old(self).same_but_layer(*final(self)),
            result == Ok::<bool, String>(old(self).layer is Some),
            final(self).state() == match old(self).state() {
                Some(_) => Some(no_processes()),
                None => None,
            },
    {
        match &mut self.layer {
            Some(layer) => {
                layer.forked_processes.clear();
                layer.result_map.clear();
                assert(layer@.results =~= Map::empty());
                Ok(true)
            },
            None => Ok(false),
        }
    }

    fn forked_pids(&self) -> (pids: Vec<i32>)
        requires
            self.wf(),
        ensures
            pids@ == match self.state() {
                Some(state) => pids_of(state),
                None => Seq::empty(),
            },
    {
        let mut pids: Vec<i32> = Vec::new();
        if let Some(layer) = &self.layer {
            let ghost all = pids_of(layer@);
            let mut at: usize = 0;
            while at < layer.forked_processes.len()
                invariant
                    at <= all.len(),
                    layer.wf(),
                    all == pids_of(layer@),
                    pids@ == all.take(at as int),
                decreases all.len() - at,
            {
                pids.push(*layer.forked_processes.value_at(at));
                assert(all.take(at + 1) =~= all.take(at as int).push(all[at as int]));
                at = at + 1;
            }
            assert(all.take(at as int) =~= all);
        }
        pids
    }

    /// Checks for changes of the imports. Where there are some, all processes are
    /// forgotten, and a new loader process is to be booted.
    pub fn update_environment(&mut self, project: &Project) -> (result: Result<Update, String>)
        requires
            old(self).wf(),
            project.parsable(),
        ensures
            final(self).wf(),
            update_view(result) == update_outcome(*old(self), *project),
            updated(*old(self), *final(self), *project),
    {
        if !self.first_scan {
            return Ok(Update::Unchanged);
        }
        let ghost previous = known_modules(self.ast_manager.known(), self.ast_manager.package());
        match self.ast_manager.compute_import_delta(project) {
            Ok((added, removed)) => {
                proof {
                    let (_, modules) = scanned(
                        old(self).ast_manager.known(),
                        self.ast_manager.package(),
                        project.sources@,
                    );
                    law_delta_leads_to_current(previous, modules->Ok_0);
                }
                if added.is_empty() && removed.is_empty() {
                    return Ok(Update::Unchanged);
                }
                let pids = self.forked_pids();
                match self.stop_main() {
                    Ok(_) => Ok(Update::Restart(pids)),
                    Err(why) => Err(why),
                }
            },
            Err(error) => Err(
                joined("Failed to compute import delta: ", error.message().as_str()),
            ),
        }
    }

    /// The request that makes the loader process fork and run `pickled_data` by means
    /// of `script`.
    pub fn fork_request(&self, pickled_data: &str, script: &str) -> (request: Result<
        ForkRequest,
        String,
    >)
        ensures
            requests(*self, pickled_data@, script@, request),
    {
        if self.layer.is_none() {
            return Err("Layer not initialized. Call boot_main first.".to_owned());
        }
        Ok(ForkRequest::new(exec_code(pickled_data, script)))
    }

    /// Registers the process `process_uuid`, which was forked as the output of the
    /// loader process says.
    pub fn register_fork(&mut self, process_uuid: String, output: &Vec<LoaderEvent>) -> (result:
        Result<String, String>)
        requires
            old(self).wf(),
        ensures
            final(self).wf(),
            registers(*old(self), *final(self), process_uuid@, output@, text_view(result)),
    {
        let ghost before = *self;
        match &mut self.layer {
            Some(layer) => {
                let pid = match forked_pid(output) {
                    Ok(pid) => pid,
                    Err(why) => {
                        return Err(why);
                    },
                };
                if process_uuid.as_str().is_empty() {
                    return Err("Failed to get process UUID from fork operation".to_owned());
                }
                if let Some(pid) = pid {
                    layer.forked_processes.insert(process_uuid.clone(), pid);
                    layer.result_map.insert(process_uuid.clone(), None);
                    assert(layer@ =~= with_process(
                        before.layer->0@,
                        process_uuid@,
                        Some(pid),
                    ));
                }
                Ok(process_uuid)
            },
            None => Err("Layer not initialized. Call boot_main first.".to_owned()),
        }
    }

    /// Execute a function in the isolated environment: the process was forked as the
    /// output of the loader process says. It is registered under a new identifier,
    /// which is the result.
    pub fn exec_isolated(&mut self, output: &Vec<LoaderEvent>) -> (result: Result<String, String>)
        requires
            old(self).wf(),
        ensures
            final(self).wf(),
            executes(*old(self), *final(self), output@, text_view(result)),
    {
        let process_uuid = new_id();
        let ghost id = process_uuid@;
        let result = self.register_fork(process_uuid, output);
        assert(is_random_uuid(id));
        result
    }

    /// The process ID to which the signals go when the process `process_uuid` is
    /// stopped; there is none where no such process is known.
    pub fn pid_to_stop(&self, process_uuid: &str) -> (pid: Result<Option<i32>, String>)
        requires
            self.wf(),
        ensures
            outcome_view(pid) == stop_target(self.state(), process_uuid@),
    {
        match &self.layer {
            Some(layer) => match layer.forked_processes.get(process_uuid) {
                Some(pid) => Ok(Some(*pid)),
                None => Ok(None),
            },
            None => Err("Layer not initialized. Call boot_main first.".to_owned()),
        }
    }

    /// Stop an isolated process by UUID
    pub fn stop_isolated(&mut self, process_uuid: &str) -> (result: Result<bool, String>)
        requires
            old(self).wf(),
        ensures
            final(self).wf(),
            old(self).same_but_layer(*final(self)),
            (final(self).state(), outcome_view(result)) == stops(
                old(self).state(),
                process_uuid@,
            ),
    {
        let ghost before = *self;
        match &mut self.layer {
            Some(layer) => {
                if !layer.forked_processes.contains_key(process_uuid) {
                    return Ok(false);
                }
                layer.forked_processes.remove(process_uuid);
                layer.result_map.remove(process_uuid);
                assert(layer@ =~= without_process(before.layer->0@, process_uuid@));
                Ok(true)
            },
            None => Err("Layer not initialized. Call boot_main first.".to_owned()),
        }
    }

    /// Communicate with an isolated process to get its output; the messages `pending`
    /// came from the loader process and were not delivered yet
    pub fn communicate_isolated(&mut self, process_uuid: &str, pending: &Vec<Message>) -> (result:
        Result<Option<String>, String>)
        requires
            old(self).wf(),
        ensures
            final(self).wf(),
            old(self).same_but_layer(*final(self)),
            (final(self).state(), answer_view(result)) == communicated(
                old(self).state(),
                process_uuid@,
                pending@,
            ),
    {
        let ghost before = *self;
        match &mut self.layer {
            Some(layer) => {
                if !layer.forked_processes.contains_key(process_uuid) {
                    let text = joined("Process ", process_uuid);
                    return Err(joined(text.as_str(), " does not exist"));
                }
                if !layer.result_map.contains_key(process_uuid) {
                    layer.result_map.insert(process_uuid.to_owned(), None);
                }
                assert(layer@ =~= awaiting(before.layer->0@, process_uuid@));
                layer.deliver_all(pending);
                proof {
                    lemma_entries_stay(
                        awaiting(before.layer->0@, process_uuid@).results,
                        pending@,
                    );
                }
                match layer.result_map.get(process_uuid) {
                    Some(Some(ProcessResult::Complete(value))) => Ok(value.clone()),
                    Some(Some(ProcessResult::Error(why))) => Err(why.clone()),
                    _ => Ok(None),
                }
            },
            None => Err("No layer available for communication".to_owned()),
        }
    }
}

/// The process IDs of the processes, in the order in which they came.
pub open spec fn pids_of(state: Isolated) -> Seq<i32> {
    Seq::new(state.order.len(), |i: int| state.processes[state.order[i]])
}

/// Whether `code` imports the modules, each once.
pub open spec fn imports_all(code: Seq<char>, modules: Set<Seq<char>>) -> bool {
    exists|listed: Seq<Seq<char>>|
        listed.no_duplicates() && listed.to_set() == modules && code == #[trigger] import_code(
            listed,
        )
}

/// No message makes or takes away an entry for a result.
pub proof fn lemma_entries_stay(
    results: Map<Seq<char>, Option<Report>>,
    messages: Seq<Message>,
)
    ensures
        delivered_all(results, messages).dom() == results.dom(),
    decreases messages.len(),
{
    if messages.len() > 0 {
        lemma_entries_stay(results, messages.drop_last());
        assert(delivered_all(results, messages).dom() =~= results.dom());
    }
}

} // verus!
