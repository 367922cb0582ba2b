//! A loader process, the processes that were forked from it, and what the lines
//! that they print mean.
use vstd::prelude::*;

use crate::async_resolve::AsyncResolve;
use crate::messages::{ChildError, Message};
use crate::multiplex_logs::{parse_multiplexed_line, parsed_line};
use crate::processes::{find_owner, first_owner, table_pid, to_table_pid};
use crate::string_map::StringMap;
use crate::style::{bold, cyan, styled};
use crate::text::{
    decimal, decimal_text, joined, signed_decimal, signed_decimal_text, view_of,
};

verus! {

/// Result from the initial fork
#[derive(Debug)]
pub enum ForkResult {
    /// Fork completed successfully with an optional return value
    Complete(Option<String>),
    /// Fork failed with an error message
    Error(String),
}

/// Result from a forked process
#[derive(Debug)]
pub enum ProcessResult {
    /// Process completed successfully with an optional return value
    Complete(Option<String>),
    /// Process failed with an error message
    Error(String),
}

/// What a `ForkResult` or a `ProcessResult` stands for.
pub enum Outcome {
    Complete(Option<Seq<char>>),
    Error(Seq<char>),
}

impl View for ForkResult {
    type V = Outcome;

    open spec fn view(&self) -> Outcome {
        match self {
            ForkResult::Complete(value) => Outcome::Complete(view_of(*value)),
            ForkResult::Error(why) => Outcome::Error(why@),
        }
    }
}

impl Clone for ForkResult {
    fn clone(&self) -> (result: Self)
        ensures
            result@ == self@,
    {
        match self {
            ForkResult::Complete(value) => ForkResult::Complete(value.clone()),
            ForkResult::Error(why) => ForkResult::Error(why.clone()),
        }
    }
}

impl View for ProcessResult {
    type V = Outcome;

    open spec fn view(&self) -> Outcome {
        match self {
            ProcessResult::Complete(value) => Outcome::Complete(view_of(*value)),
            ProcessResult::Error(why) => Outcome::Error(why@),
        }
    }
}

impl Clone for ProcessResult {
    fn clone(&self) -> (result: Self)
        ensures
            result@ == self@,
    {
        match self {
            ProcessResult::Complete(value) => ProcessResult::Complete(value.clone()),
            ProcessResult::Error(why) => ProcessResult::Error(why.clone()),
        }
    }
}

/// The outcome that a resolver holds, and whether those who wait for it were told.
pub type Pending = (Option<Outcome>, bool);

/// What a resolver stands for.
pub open spec fn pending<T: View<V = Outcome>>(resolver: AsyncResolve<T>) -> Pending {
    (
        match resolver.resolved() {
            Some(value) => Some(value@),
            None => None,
        },
        resolver.told(),
    )
}

/// Runtime layer for executing Python code: the processes that were forked from a
/// loader process, and those who wait for them.
pub struct Layer {
    /// Map of UUID to PID
    pub forked_processes: StringMap<i32>,
    /// Map of UUID to name
    pub forked_names: StringMap<String>,
    /// Map of UUID to fork resolver. These are pinged when the forked process
    /// finishes startup - either successful or failure
    pub fork_resolvers: StringMap<AsyncResolve<ForkResult>>,
    /// Map of UUID to completion resolver. These are pinged when the process
    /// completes execution
    pub completion_resolvers: StringMap<AsyncResolve<ProcessResult>>,
}

/// What a `Layer` stands for.
pub struct LayerState {
    /// The UUIDs of the processes, in the order in which they came.
    pub order: Seq<Seq<char>>,
    pub processes: Map<Seq<char>, i32>,
    pub names: Map<Seq<char>, Seq<char>>,
    pub forks: Map<Seq<char>, Pending>,
    pub completions: Map<Seq<char>, Pending>,
}

impl View for Layer {
    type V = LayerState;

    open spec fn view(&self) -> LayerState {
        LayerState {
            order: self.forked_processes.keys(),
            processes: self.forked_processes@,
            names: self.forked_names@.map_values(|name: String| name@),
            forks: self.fork_resolvers@.map_values(
                |resolver: AsyncResolve<ForkResult>| pending(resolver),
            ),
            completions: self.completion_resolvers@.map_values(
                |resolver: AsyncResolve<ProcessResult>| pending(resolver),
            ),
        }
    }
}

/// The text of an error of a child, with its traceback where there is one.
pub open spec fn full_error(error: Seq<char>, traceback: Option<Seq<char>>) -> Seq<char> {
    match traceback {
        Some(traceback) => error + "\n\n"@ + traceback,
        None => error,
    }
}

/// Whether a message reports the end of a child, and so has to come from a known
/// process.
pub open spec fn reports_child(message: Option<Message>) -> bool {
    message matches Some(message) && (message is ChildComplete || message is ChildError)
}

/// Resolvers of which that of `key`, if there is one, is resolved with `outcome`.
pub open spec fn resolved_in(
    resolvers: Map<Seq<char>, Pending>,
    key: Seq<char>,
    outcome: Outcome,
) -> Map<Seq<char>, Pending> {
    if resolvers.contains_key(key) {
        resolvers.insert(key, (Some(outcome), true))
    } else {
        resolvers
    }
}

/// A state in which the fork that was requested as `id` came to the process `pid`.
pub open spec fn forked(
    state: LayerState,
    id: Seq<char>,
    name: Seq<char>,
    pid: i32,
) -> LayerState {
    LayerState {
        order: if state.processes.contains_key(id) {
            state.order
        } else {
            state.order.push(id)
        },
        processes: state.processes.insert(id, pid),
        names: state.names.insert(id, name),
        forks: resolved_in(
            state.forks,
            id,
            Outcome::Complete(Some(signed_decimal(pid as int))),
        ),
        completions: state.completions,
    }
}

/// What becomes of a state, and whether a message was handled, when `content`,
/// which decodes to `message`, came from the process `uuid`.
pub open spec fn handled(
    state: LayerState,
    content: Seq<char>,
    uuid: Option<Seq<char>>,
    message: Option<Message>,
) -> (LayerState, Result<(), Seq<char>>) {
    let unknown = Err("Failed to parse message, received raw content: "@ + content);
    match message {
        Some(Message::ForkResponse(response)) => match (
            response.request_id,
            response.request_name,
        ) {
            (Some(id), Some(name)) => (forked(state, id@, name@, response.child_pid), Ok(())),
            _ => (state, unknown),
        },
        Some(Message::ChildComplete(complete)) => (
            LayerState {
                completions: resolved_in(
                    state.completions,
                    uuid->0,
                    Outcome::Complete(view_of(complete.result)),
                ),
                ..state
            },
            Ok(()),
        ),
        Some(Message::ChildError(error)) => (
            LayerState {
                completions: resolved_in(
                    state.completions,
                    uuid->0,
                    Outcome::Error(full_error(error.error@, view_of(error.traceback))),
                ),
                ..state
            },
            Ok(()),
        ),
        Some(_) => (state, Ok(())),
        None => (state, unknown),
    }
}

/// What a line of output comes to.
#[derive(Debug)]
pub enum LineEffect {
    /// It was a message, which was handled.
    Handled,
    /// This is to be printed.
    Print(String),
    /// It is not in a known form; this is to be logged.
    Unknown(String),
}

/// What a `LineEffect` stands for.
pub enum Effect {
    Handled,
    Print(Seq<char>),
    Unknown(Seq<char>),
}

impl View for LineEffect {
    type V = Effect;

    open spec fn view(&self) -> Effect {
        match self {
            LineEffect::Handled => Effect::Handled,
            LineEffect::Print(text) => Effect::Print(text@),
            LineEffect::Unknown(text) => Effect::Unknown(text@),
        }
    }
}

/// A text in bold cyan.
pub open spec fn highlighted(text: Seq<char>) -> Seq<char> {
    styled("\x1b[1m"@, styled("\x1b[36m"@, text, "\x1b[39m"@), "\x1b[0m"@)
}

/// The name under which a process prints.
pub open spec fn printed_name(names: Map<Seq<char>, Seq<char>>, uuid: Seq<char>) -> Seq<char> {
    if names.contains_key(uuid) {
        names[uuid]
    } else {
        "unknown"@
    }
}

/// The text in a line of output that may be a message: what a process printed, or
/// all of the line where it carries no process ID.
pub open spec fn message_part(line: Seq<char>) -> Seq<char> {
    match parsed_line(line) {
        Ok(log) => log.content,
        Err(_) => line,
    }
}

/// What becomes of a state, and what is to be done, when a line was printed whose
/// message part decodes to `message`.
pub open spec fn processed(state: LayerState, line: Seq<char>, message: Option<Message>) -> (
    LayerState,
    Effect,
) {
    match parsed_line(line) {
        Ok(log) => match first_owner(state.order, state.processes, table_pid(log.pid)) {
            Some(uuid) => {
                let (after, result) = handled(state, log.content, Some(uuid), message);
                if result is Ok {
                    (after, Effect::Handled)
                } else {
                    let name = printed_name(state.names, uuid);
                    (after, Effect::Print("["@ + highlighted(name) + "]: "@ + log.content))
                }
            },
            None => {
                let source = decimal(log.pid as nat) + ":"@ + log.stream_name;
                (
                    state,
                    Effect::Print(
                        "Unmatched log: ["@ + highlighted(source) + "] "@ + log.content,
                    ),
                )
            },
        },
        Err(_) => {
            let (after, result) = handled(state, line, None, message);
            if result is Ok {
                (after, Effect::Handled)
            } else {
                (after, Effect::Unknown("Error handling log format: "@ + line))
            }
        },
    }
}

/// Whether a message reports the end of a child.
pub fn is_child_report(message: &Option<Message>) -> (reports: bool)
    ensures
        reports == reports_child(*message),
{
    match message {
        Some(Message::ChildComplete(_)) => true,
        Some(Message::ChildError(_)) => true,
        _ => false,
    }
}

/// The text of an error of a child, with its traceback where there is one.
pub fn child_error_text(error: &ChildError) -> (text: String)
    ensures
        text@ == full_error(error.error@, view_of(error.traceback)),
{
    match &error.traceback {
        Some(traceback) => joined(
            joined(error.error.as_str(), "\n\n").as_str(),
            traceback.as_str(),
        ),
        None => error.error.clone(),
    }
}

fn highlight(text: &str) -> (shown: String)
    ensures
        shown@ == highlighted(text@),
{
    bold(cyan(text).as_str())
}

/// The text in a line of output that may be a message.
pub fn message_text(line: &str) -> (text: String)
    ensures
        text@ == message_part(line@),
{
    match parse_multiplexed_line(line) {
        Ok(log) => log.content,
        Err(_) => line.to_owned(),
    }
}

impl Layer {
    /// The tables of the layer are well formed.
    pub open spec fn wf(&self) -> bool {
        &&& self.forked_processes.wf()
        &&& self.forked_names.wf()
        &&& self.fork_resolvers.wf()
        &&& self.completion_resolvers.wf()
    }

    /// A layer from which nothing was forked yet.
    pub fn new() -> (layer: Self)
        ensures
            layer.wf(),
            layer@ == (LayerState {
                order: Seq::empty(),
                processes: Map::empty(),
                names: Map::empty(),
                forks: Map::empty(),
                completions: Map::empty(),
            }),
    {
        let layer = Layer {
            forked_processes: StringMap::new(),
            forked_names: StringMap::new(),
            fork_resolvers: StringMap::new(),
            completion_resolvers: StringMap::new(),
        };
        proof {
            assert(layer@.names =~= Map::empty());
            assert(layer@.forks =~= Map::empty());
            assert(layer@.completions =~= Map::empty());
        }
        layer
    }

    fn register_fork(&mut self, id: &String, name: &String, pid: i32)
        requires
            old(self).wf(),
        ensures
            final(self).wf(),
            final(self)@ == forked(old(self)@, id@, name@, pid),
    {
        self.forked_processes.insert(id.clone(), pid);
        self.forked_names.insert(id.clone(), name.clone());
        let outcome = ForkResult::Complete(Some(signed_decimal_text(pid)));
        if let Some(resolver) = self.fork_resolvers.get_mut(id.as_str()) {
            resolver.resolve(outcome);
        }
        proof {
            let expected = forked(old(self)@, id@, name@, pid);
            assert(self@.names =~= expected.names);
            assert(self@.forks =~= expected.forks);
            assert(self@.completions =~= expected.completions);
        }
    }

    fn resolve_completion(&mut self, uuid: &str, outcome: ProcessResult)
        requires
            old(self).wf(),
        ensures
            final(self).wf(),
            final(self)@ == (LayerState {
                completions: resolved_in(old(self)@.completions, uuid@, outcome@),
                ..old(self)@
            }),
    {
        let ghost expected = outcome@;
        if let Some(resolver) = self.completion_resolvers.get_mut(uuid) {
            resolver.resolve(outcome);
        }
        assert(self@.completions =~= resolved_in(old(self)@.completions, uuid@, expected));
    }

    /// Handle various messages from the child process
    pub fn handle_message(
        &mut self,
        content: &str,
        uuid: Option<&String>,
        message: &Option<Message>,
    ) -> (result: Result<(), String>)
        requires
            old(self).wf(),
            reports_child(*message) ==> uuid is Some,
        ensures
            final(self).wf(),
            ({
                let from = match uuid {
                    Some(uuid) => Some(uuid@),
                    None => None,
                };
                let (after, expected) = handled(old(self)@, content@, from, *message);
                &&& final(self)@ == after
                &&& match result {
                    Ok(_) => expected is Ok,
                    Err(why) => expected == Err::<(), Seq<char>>(why@),
                }
            }),
    {
        match message {
            Some(Message::ForkResponse(response)) => {
                if let (Some(id), Some(name)) = (&response.request_id, &response.request_name) {
                    self.register_fork(id, name, response.child_pid);
                    return Ok(());
                }
            },
            Some(Message::ChildComplete(complete)) => {
                if let Some(uuid) = uuid {
                    let outcome = ProcessResult::Complete(complete.result.clone());
                    self.resolve_completion(uuid.as_str(), outcome);
                }
                return Ok(());
            },
            Some(Message::ChildError(error)) => {
                if let Some(uuid) = uuid {
                    let outcome = ProcessResult::Error(child_error_text(error));
                    self.resolve_completion(uuid.as_str(), outcome);
                }
                return Ok(());
            },
            Some(_) => {
                return Ok(());
            },
            None => {},
        }
        Err(joined("Failed to parse message, received raw content: ", content))
    }

    /// Process an output line from either stdout or stderr, whose message part
    /// decodes to `message`
    pub fn process_output_line(&mut self, line: &str, message: &Option<Message>) -> (effect:
        LineEffect)
        requires
            old(self).wf(),
            parsed_line(line@) is Err ==> !reports_child(*message),
        ensures
            final(self).wf(),
            (final(self)@, effect@) == processed(old(self)@, line@, *message),
    {
        match parse_multiplexed_line(line) {
            Ok(log) => match find_owner(&self.forked_processes, to_table_pid(log.pid)) {
                Some(uuid) => {
                    let name = match self.forked_names.get(uuid.as_str()) {
                        Some(name) => name.clone(),
                        None => "unknown".to_owned(),
                    };
                    match self.handle_message(log.content.as_str(), Some(&uuid), message) {
                        Ok(_) => LineEffect::Handled,
                        Err(_) => {
                            let shown = highlight(name.as_str());
                            let start = joined(joined("[", shown.as_str()).as_str(), "]: ");
                            LineEffect::Print(joined(start.as_str(), log.content.as_str()))
                        },
                    }
                },
                None => {
                    let pid = decimal_text(log.pid as u128);
                    let source = joined(
                        joined(pid.as_str(), ":").as_str(),
                        log.stream_name.as_str(),
                    );
                    let shown = highlight(source.as_str());
                    let start = joined("Unmatched log: [", shown.as_str());
                    let start = joined(start.as_str(), "] ");
                    LineEffect::Print(joined(start.as_str(), log.content.as_str()))
                },
            },
            Err(_) => match self.handle_message(line, None, message) {
                Ok(_) => LineEffect::Handled,
                Err(_) => LineEffect::Unknown(joined("Error handling log format: ", line)),
            },
        }
    }
}

/// The two streams of the loader process that are watched.
#[derive(Debug, Clone, Copy, PartialEq, Eq, Structural)]
pub enum StreamKind {
    Stdout,
    Stderr,
}

/// What one who watches a stream meets.
#[derive(Debug)]
pub enum StreamEvent {
    /// The watch was told to end.
    Terminate,
    /// A line was read.
    Line(String),
    /// Reading failed.
    ReadError(String),
    /// The stream came to its end.
    End,
}

/// What one who watches a stream does next.
#[derive(Debug)]
pub enum MonitorAction {
    /// Process this line, and read on.
    Process(String),
    /// Stop, and tell the one who watches the other stream to stop too, where
    /// that is asked for.
    Stop { tell_other: bool },
}

/// What one who watches a stream does next: a line is processed; everything else
/// ends the watch, and the end of the watch over stdout ends that over stderr.
pub fn monitor_step(stream: StreamKind, event: StreamEvent) -> (action: MonitorAction)
    ensures
        match event {
            StreamEvent::Line(line) => action == MonitorAction::Process(line),
            _ => action == (MonitorAction::Stop { tell_other: stream == StreamKind::Stdout }),
        },
{
    match event {
        StreamEvent::Line(line) => MonitorAction::Process(line),
        _ => MonitorAction::Stop { tell_other: stream == StreamKind::Stdout },
    }
}

} // verus!
