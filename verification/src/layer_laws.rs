//! What holds of every line of output that a layer processes.
use vstd::prelude::*;

use crate::async_resolve::AsyncResolve;
use crate::layer::{
    forked, full_error, handled, highlighted, message_part, pending, printed_name, processed,
    reports_child, Effect, ForkResult, Layer, LayerState, LineEffect, Outcome, ProcessResult,
};
use crate::line_laws::law_reported_pid_is_looked_up;
use crate::messages::{ChildComplete, ChildError, ForkResponse, Message};
use crate::multiplex_logs::{law_line_reads_back, parsed_line, written_line};
use crate::processes::{first_owner, law_owner_has_the_pid, law_sole_holder_is_owner, table_pid};
use crate::text::{decimal, first_at, signed_decimal, view_of};

verus! {

/// The processes are listed each once.
pub open spec fn listed_once(state: LayerState) -> bool {
    &&& state.order.no_duplicates()
    &&& forall|uuid: Seq<char>|
        #![trigger state.order.contains(uuid)]
        #![trigger state.processes.contains_key(uuid)]
        state.order.contains(uuid) <==> state.processes.contains_key(uuid)
}

/// Whether no process but `id` has the process ID `pid`.
pub open spec fn pid_is_free_but_for(state: LayerState, id: Seq<char>, pid: i32) -> bool {
    forall|uuid: Seq<char>| #[trigger]
        state.processes.contains_key(uuid) && state.processes[uuid] == pid ==> uuid == id
}

proof fn lemma_pushed(order: Seq<Seq<char>>, id: Seq<char>, uuid: Seq<char>)
    ensures
        order.push(id).contains(uuid) <==> order.contains(uuid) || uuid == id,
{
    let longer = order.push(id);
    assert(longer[order.len() as int] == id);
    if order.contains(uuid) {
        assert(longer[order.index_of(uuid)] == uuid);
    }
    if longer.contains(uuid) {
        let i = longer.index_of(uuid);
        if i < order.len() {
            assert(order[i] == uuid);
        }
    }
}

/// A line, whatever it is, leaves the processes listed each once.
pub proof fn law_processes_stay_listed(
    state: LayerState,
    line: Seq<char>,
    message: Option<Message>,
)
    requires
        listed_once(state),
    ensures
        listed_once(processed(state, line, message).0),
{
    if let Some(Message::ForkResponse(response)) = message {
        if response.request_id is Some && response.request_name is Some {
            let id = response.request_id->0@;
            let name = response.request_name->0@;
            let after = forked(state, id, name, response.child_pid);
            assert forall|uuid: Seq<char>|
                #![trigger after.order.contains(uuid)]
                #![trigger after.processes.contains_key(uuid)]
                after.order.contains(uuid) <==> after.processes.contains_key(uuid) by {
                lemma_pushed(state.order, id, uuid);
            }
            if !state.processes.contains_key(id) {
                assert(!state.order.contains(id));
            }
        }
    }
}

/// Nothing that was registered is lost, and nothing that was resolved is open again:
/// every process keeps its place in the tables and a resolver that was told stays
/// told.
pub proof fn law_nothing_is_lost(
    state: LayerState,
    line: Seq<char>,
    message: Option<Message>,
    uuid: Seq<char>,
)
    ensures
        ({
            let after = processed(state, line, message).0;
            &&& state.processes.contains_key(uuid) ==> after.processes.contains_key(uuid)
            &&& state.names.contains_key(uuid) ==> after.names.contains_key(uuid)
            &&& state.forks.contains_key(uuid) <==> after.forks.contains_key(uuid)
            &&& state.completions.contains_key(uuid) <==> after.completions.contains_key(uuid)
            &&& state.forks.contains_key(uuid) && state.forks[uuid].1 ==> after.forks[uuid].1
            &&& state.completions.contains_key(uuid) && state.completions[uuid].1
                ==> after.completions[uuid].1
        }),
{
}

/// A text that is not a message changes nothing.
pub proof fn law_output_changes_nothing(state: LayerState, line: Seq<char>)
    ensures
        processed(state, line, None).0 == state,
        processed(state, line, None).1 !is Handled,
{
}

/// A process that reports its end resolves its own completion and touches no other
/// process.
pub proof fn law_report_touches_its_process_alone(
    state: LayerState,
    line: Seq<char>,
    message: Message,
    other: Seq<char>,
)
    requires
        reports_child(Some(message)),
        parsed_line(line) is Ok,
        first_owner(state.order, state.processes, table_pid(parsed_line(line)->Ok_0.pid)) != Some(
            other,
        ),
    ensures
        ({
            let after = processed(state, line, Some(message)).0;
            &&& after.processes == state.processes
            &&& after.names == state.names
            &&& after.forks == state.forks
            &&& after.completions.contains_key(other) == state.completions.contains_key(other)
            &&& after.completions[other] == state.completions[other]
        }),
{
}

/// The answer to a fork makes the process known under the request and the name, and
/// tells the one who waits for the fork its process ID.
pub proof fn law_fork_is_told(
    state: LayerState,
    content: Seq<char>,
    uuid: Option<Seq<char>>,
    response: ForkResponse,
)
    requires
        response.request_id is Some,
        response.request_name is Some,
    ensures
        ({
            let (after, result) = handled(
                state,
                content,
                uuid,
                Some(Message::ForkResponse(response)),
            );
            let id = response.request_id->0@;
            &&& result is Ok
            &&& after.processes.contains_key(id)
            &&& after.processes[id] == response.child_pid
            &&& after.names[id] == response.request_name->0@
            &&& state.forks.contains_key(id) ==> after.forks[id] == (
                Some(Outcome::Complete(Some(signed_decimal(response.child_pid as int)))),
                true,
            )
        }),
{
}

proof fn lemma_forked_owns(state: LayerState, id: Seq<char>, name: Seq<char>, pid: i32)
    requires
        listed_once(state),
        pid_is_free_but_for(state, id, pid),
    ensures
        ({
            let after = forked(state, id, name, pid);
            first_owner(after.order, after.processes, pid) == Some(id)
        }),
{
    let after = forked(state, id, name, pid);
    assert forall|uuid: Seq<char>| after.order.contains(uuid) <==> state.order.contains(uuid)
        || uuid == id by {
        lemma_pushed(state.order, id, uuid);
    }
    assert forall|uuid: Seq<char>| #[trigger]
        after.order.contains(uuid) && after.processes[uuid] == pid implies uuid == id by {
        if uuid != id {
            assert(state.processes.contains_key(uuid));
        }
    }
    law_sole_holder_is_owner(after.order, after.processes, pid, id);
}

/// What a process prints once it was forked is shown under its name, where no other
/// process has its process ID.
pub proof fn law_forked_process_prints_under_its_name(
    state: LayerState,
    id: Seq<char>,
    name: Seq<char>,
    pid: u32,
    stream_name: Seq<char>,
    content: Seq<char>,
)
    requires
        listed_once(state),
        pid_is_free_but_for(state, id, table_pid(pid)),
        stream_name.len() > 0,
        !stream_name.contains(':'),
        first_at(stream_name, "] "@, 0) is None,
    ensures
        processed(
            forked(state, id, name, table_pid(pid)),
            written_line(decimal(pid as nat), stream_name, content),
            None,
        ).1 == Effect::Print("["@ + highlighted(name) + "]: "@ + content),
{
    lemma_forked_owns(state, id, name, table_pid(pid));
    law_line_reads_back(pid, stream_name, content);
}

/// The result that a process reports once it was forked reaches the one who waits for
/// its completion, where no other process has its process ID.
pub proof fn law_forked_process_completes(
    state: LayerState,
    id: Seq<char>,
    name: Seq<char>,
    pid: u32,
    stream_name: Seq<char>,
    content: Seq<char>,
    complete: ChildComplete,
)
    requires
        listed_once(state),
        pid_is_free_but_for(state, id, table_pid(pid)),
        state.completions.contains_key(id),
        stream_name.len() > 0,
        !stream_name.contains(':'),
        first_at(stream_name, "] "@, 0) is None,
    ensures
        processed(
            forked(state, id, name, table_pid(pid)),
            written_line(decimal(pid as nat), stream_name, content),
            Some(Message::ChildComplete(complete)),
        ).0.completions[id] == (Some(Outcome::Complete(view_of(complete.result))), true),
{
    lemma_forked_owns(state, id, name, table_pid(pid));
    law_line_reads_back(pid, stream_name, content);
}

/// The error that a process reports once it was forked reaches the one who waits for
/// its completion, with its traceback, where no other process has its process ID.
pub proof fn law_forked_process_fails(
    state: LayerState,
    id: Seq<char>,
    name: Seq<char>,
    pid: u32,
    stream_name: Seq<char>,
    content: Seq<char>,
    error: ChildError,
)
    requires
        listed_once(state),
        pid_is_free_but_for(state, id, table_pid(pid)),
        state.completions.contains_key(id),
        stream_name.len() > 0,
        !stream_name.contains(':'),
        first_at(stream_name, "] "@, 0) is None,
    ensures
        processed(
            forked(state, id, name, table_pid(pid)),
            written_line(decimal(pid as nat), stream_name, content),
            Some(Message::ChildError(error)),
        ).0.completions[id] == (
            Some(Outcome::Error(full_error(error.error@, view_of(error.traceback)))),
            true,
        ),
{
    lemma_forked_owns(state, id, name, table_pid(pid));
    law_line_reads_back(pid, stream_name, content);
}

/// A line of a process that nobody forked is shown with its process ID.
pub proof fn law_unknown_process_is_shown_by_its_pid(
    state: LayerState,
    pid: u32,
    stream_name: Seq<char>,
    content: Seq<char>,
    message: Option<Message>,
)
    requires
        listed_once(state),
        forall|uuid: Seq<char>| #[trigger]
            state.processes.contains_key(uuid) ==> state.processes[uuid] != table_pid(pid),
        stream_name.len() > 0,
        !stream_name.contains(':'),
        first_at(stream_name, "] "@, 0) is None,
    ensures
        processed(
            state,
            written_line(decimal(pid as nat), stream_name, content),
            message,
        ) == (
            state,
            Effect::Print(
                "Unmatched log: ["@ + highlighted(
                    decimal(pid as nat) + ":"@ + stream_name,
                ) + "] "@ + content,
            ),
        ),
{
    law_owner_has_the_pid(state.order, state.processes, table_pid(pid));
    law_line_reads_back(pid, stream_name, content);
}

/// One who waits for a fork gets the outcome that was reported of it.
pub proof fn law_waiter_gets_the_fork(resolver: AsyncResolve<ForkResult>, waited: ForkResult)
    requires
        resolver.resolved() matches Some(reported) && cloned(reported, waited),
    ensures
        pending(resolver).0 == Some(waited@),
{
}

/// One who waits for a process gets the outcome that was reported of it.
pub proof fn law_waiter_gets_the_report(
    resolver: AsyncResolve<ProcessResult>,
    waited: ProcessResult,
)
    requires
        resolver.resolved() matches Some(reported) && cloned(reported, waited),
    ensures
        pending(resolver).0 == Some(waited@),
{
}

/// A text is highlighted by the escape sequences for bold type and for cyan before it,
/// and by those that end them behind it; all of it stays.
pub proof fn law_highlighted_text_is_kept(text: Seq<char>)
    ensures
        highlighted(text) == "\x1b[1m\x1b[36m"@ + text + "\x1b[39m\x1b[0m"@,
{
    reveal_strlit("\x1b[1m\x1b[36m");
    reveal_strlit("\x1b[39m\x1b[0m");
    reveal_strlit("\x1b[1m");
    reveal_strlit("\x1b[36m");
    reveal_strlit("\x1b[39m");
    reveal_strlit("\x1b[0m");
    assert(highlighted(text) =~= "\x1b[1m\x1b[36m"@ + text + "\x1b[39m\x1b[0m"@);
}

/// An error is told in full: its text, and behind an empty line its traceback, where there
/// is one.
pub proof fn law_error_is_told_in_full(error: Seq<char>, traceback: Seq<char>)
    ensures
        full_error(error, None) == error,
        full_error(error, Some(traceback)).len() == error.len() + 2 + traceback.len(),
        full_error(error, Some(traceback)).take(error.len() as int) == error,
        full_error(error, Some(traceback))[error.len() as int] == '\n',
        full_error(error, Some(traceback))[error.len() as int + 1] == '\n',
        full_error(error, Some(traceback)).skip(error.len() as int + 2) == traceback,
{
    reveal_strlit("\n\n");
    let full = full_error(error, Some(traceback));
    assert(full.take(error.len() as int) =~= error);
    assert(full.skip(error.len() as int + 2) =~= traceback);
}

/// What may be a message in a line is all of the content where the line is one of a
/// process, and all of the line where it is none.
pub proof fn law_message_is_the_content_or_the_line(
    line: Seq<char>,
    pid: u32,
    stream_name: Seq<char>,
    content: Seq<char>,
)
    requires
        stream_name.len() > 0,
        !stream_name.contains(':'),
        first_at(stream_name, "] "@, 0) is None,
    ensures
        message_part(written_line(decimal(pid as nat), stream_name, content)) == content,
        parsed_line(line) is Err ==> message_part(line) == line,
{
    law_line_reads_back(pid, stream_name, content);
}

/// The line that a process with the process ID `pid` prints.
pub open spec fn line_of(pid: i32, stream_name: Seq<char>, content: Seq<char>) -> Seq<char> {
    "[PID:"@ + decimal(pid as nat) + ":"@ + stream_name + "] "@ + content
}

/// Whatever process ID a loader reports of a fork, the lines that carry that number belong
/// to the process: what it prints is shown under its name, in bold cyan, and what it
/// reports reaches the one who waits for its completion, where no other process has its
/// process ID.
pub proof fn law_forked_process_is_heard(
    state: LayerState,
    raw: Seq<char>,
    from: Option<Seq<char>>,
    response: ForkResponse,
    stream_name: Seq<char>,
    content: Seq<char>,
    complete: ChildComplete,
    error: ChildError,
)
    requires
        listed_once(state),
        response.request_id is Some,
        response.request_name is Some,
        response.child_pid >= 0,
        pid_is_free_but_for(state, response.request_id->0@, response.child_pid),
        stream_name.len() > 0,
        !stream_name.contains(':'),
        first_at(stream_name, "] "@, 0) is None,
    ensures
        ({
            let id = response.request_id->0@;
            let name = response.request_name->0@;
            let after = handled(state, raw, from, Some(Message::ForkResponse(response))).0;
            let line = line_of(response.child_pid, stream_name, content);
            let completed = processed(after, line, Some(Message::ChildComplete(complete)));
            let failed = processed(after, line, Some(Message::ChildError(error)));
            &&& processed(after, line, None) == (
                after,
                Effect::Print(
                    "["@ + ("\x1b[1m\x1b[36m"@ + name + "\x1b[39m\x1b[0m"@) + "]: "@ + content,
                ),
            )
            &&& completed.1 is Handled
            &&& failed.1 is Handled
            &&& state.completions.contains_key(id) ==> {
                &&& completed.0.completions[id].1
                &&& completed.0.completions[id].0 == Some(
                    Outcome::Complete(
                        match complete.result {
                            Some(value) => Some(value@),
                            None => None,
                        },
                    ),
                )
                &&& failed.0.completions[id].1
                &&& failed.0.completions[id].0 == Some(
                    Outcome::Error(
                        match error.traceback {
                            Some(traceback) => error.error@ + "\n\n"@ + traceback@,
                            None => error.error@,
                        },
                    ),
                )
            }
        }),
{
    let id = response.request_id->0@;
    let name = response.request_name->0@;
    let pid = response.child_pid as u32;
    law_reported_pid_is_looked_up(response.child_pid);
    lemma_forked_owns(state, id, name, response.child_pid);
    law_line_reads_back(pid, stream_name, content);
    assert(line_of(response.child_pid, stream_name, content) == written_line(
        decimal(pid as nat),
        stream_name,
        content,
    ));
    law_highlighted_text_is_kept(name);
}

/// The answer to a fork changes the tables at its request alone: there it leaves the
/// process ID, the name and, for one who waits, the process ID as a text.
pub proof fn law_fork_changes_its_request_alone(
    state: LayerState,
    raw: Seq<char>,
    from: Option<Seq<char>>,
    response: ForkResponse,
    other: Seq<char>,
)
    requires
        response.request_id is Some,
        response.request_name is Some,
        other != response.request_id->0@,
    ensures
        ({
            let id = response.request_id->0@;
            let after = handled(state, raw, from, Some(Message::ForkResponse(response))).0;
            &&& after.processes[id] == response.child_pid
            &&& after.names[id] == response.request_name->0@
            &&& after.completions == state.completions
            &&& !state.processes.contains_key(id) ==> after.order == state.order + seq![id]
            &&& state.processes.contains_key(id) ==> after.order == state.order
            &&& after.processes.contains_key(other) == state.processes.contains_key(other)
            &&& after.processes[other] == state.processes[other]
            &&& after.names.contains_key(other) == state.names.contains_key(other)
            &&& after.names[other] == state.names[other]
            &&& after.forks.contains_key(other) == state.forks.contains_key(other)
            &&& after.forks[other] == state.forks[other]
        }),
{
    let id = response.request_id->0@;
    assert(state.order.push(id) =~= state.order + seq![id]);
}

/// What is not a message is refused with all of its text; a report of a child reaches the
/// process that it is said to come from; an answer that names no request is not a message;
/// and all other messages are taken and change nothing.
pub proof fn law_messages_are_told_apart(
    state: LayerState,
    content: Seq<char>,
    uuid: Seq<char>,
    message: Message,
)
    ensures
        handled(state, content, Some(uuid), None) == (
            state,
            Err::<(), Seq<char>>("Failed to parse message, received raw content: "@ + content),
        ),
        match message {
            Message::ForkResponse(response) => response.request_id is None
                || response.request_name is None ==> handled(
                state,
                content,
                Some(uuid),
                Some(message),
            ) == (
                state,
                Err::<(), Seq<char>>("Failed to parse message, received raw content: "@ + content),
            ),
            Message::ChildComplete(complete) => {
                let (after, result) = handled(state, content, Some(uuid), Some(message));
                &&& result is Ok
                &&& after.processes == state.processes
                &&& state.completions.contains_key(uuid) ==> after.completions[uuid] == (
                    Some(
                        Outcome::Complete(
                            match complete.result {
                                Some(value) => Some(value@),
                                None => None,
                            },
                        ),
                    ),
                    true,
                )
                &&& !state.completions.contains_key(uuid) ==> after.completions
                    == state.completions
            },
            Message::ChildError(error) => {
                let (after, result) = handled(state, content, Some(uuid), Some(message));
                &&& result is Ok
                &&& after.processes == state.processes
                &&& state.completions.contains_key(uuid) ==> after.completions[uuid] == (
                    Some(
                        Outcome::Error(
                            match error.traceback {
                                Some(traceback) => error.error@ + "\n\n"@ + traceback@,
                                None => error.error@,
                            },
                        ),
                    ),
                    true,
                )
                &&& !state.completions.contains_key(uuid) ==> after.completions
                    == state.completions
            },
            _ => handled(state, content, Some(uuid), Some(message)) == (
                state,
                Ok::<(), Seq<char>>(()),
            ),
        },
        reports_child(Some(message)) <==> (message is ChildComplete || message is ChildError),
        !reports_child(None),
{
}

/// A line that is not one of a process is handled as a message, and where it is none, all
/// of it is reported.
pub proof fn law_raw_line_is_handled_or_reported(state: LayerState, line: Seq<char>)
    requires
        parsed_line(line) is Err,
    ensures
        processed(state, line, None) == (
            state,
            Effect::Unknown("Error handling log format: "@ + line),
        ),
        forall|response: ForkResponse|
            response.request_id is Some && response.request_name is Some ==> #[trigger] processed(
                state,
                line,
                Some(Message::ForkResponse(response)),
            ) == (
                handled(state, line, None, Some(Message::ForkResponse(response))).0,
                Effect::Handled,
            ),
{
}

/// A process without a name prints as `unknown`.
pub proof fn law_nameless_process_prints_as_unknown(state: LayerState, uuid: Seq<char>)
    ensures
        state.names.contains_key(uuid) ==> printed_name(state.names, uuid) == state.names[uuid],
        !state.names.contains_key(uuid) ==> printed_name(state.names, uuid) == "unknown"@,
{
}

/// What a result and an effect stand for is what they hold, and a resolver stands for its
/// value and whether those who wait were told.
pub proof fn law_layer_values_stand_for_what_they_hold(
    fork: ForkResult,
    result: ProcessResult,
    effect: LineEffect,
    resolver: AsyncResolve<ProcessResult>,
)
    ensures
        match fork {
            ForkResult::Complete(Some(value)) => fork@ == Outcome::Complete(Some(value@)),
            ForkResult::Complete(None) => fork@ == Outcome::Complete(None),
            ForkResult::Error(why) => fork@ == Outcome::Error(why@),
        },
        match result {
            ProcessResult::Complete(Some(value)) => result@ == Outcome::Complete(Some(value@)),
            ProcessResult::Complete(None) => result@ == Outcome::Complete(None),
            ProcessResult::Error(why) => result@ == Outcome::Error(why@),
        },
        match effect {
            LineEffect::Handled => effect@ is Handled,
            LineEffect::Print(text) => effect@ == Effect::Print(text@),
            LineEffect::Unknown(text) => effect@ == Effect::Unknown(text@),
        },
        pending(resolver).1 == resolver.told(),
        match resolver.resolved() {
            Some(value) => pending(resolver).0 == Some(value@),
            None => pending(resolver).0 is None,
        },
{
}

/// A layer stands for its tables, entry by entry.
pub proof fn law_layer_is_its_tables(layer: Layer, uuid: Seq<char>)
    ensures
        layer@.order == layer.forked_processes.keys(),
        layer@.processes == layer.forked_processes@,
        layer@.names.contains_key(uuid) == layer.forked_names@.contains_key(uuid),
        layer.forked_names@.contains_key(uuid) ==> layer@.names[uuid] == layer.forked_names@[uuid]@,
        layer@.forks.contains_key(uuid) == layer.fork_resolvers@.contains_key(uuid),
        layer.fork_resolvers@.contains_key(uuid) ==> layer@.forks[uuid] == pending(
            layer.fork_resolvers@[uuid],
        ),
        layer@.completions.contains_key(uuid) == layer.completion_resolvers@.contains_key(uuid),
        layer.completion_resolvers@.contains_key(uuid) ==> layer@.completions[uuid] == pending(
            layer.completion_resolvers@[uuid],
        ),
{
}

/// Whatever the state, a line that carries the process ID of a process, which it alone has,
/// is handled as a message of that process, and where it is no message, it is printed under
/// the name of the process, all of it.
pub proof fn law_line_goes_to_the_process_with_its_pid(
    state: LayerState,
    uuid: Seq<char>,
    stream_name: Seq<char>,
    content: Seq<char>,
    message: Option<Message>,
)
    requires
        state.order.contains(uuid),
        state.processes[uuid] >= 0,
        forall|other: Seq<char>| #[trigger]
            state.order.contains(other) && state.processes[other] == state.processes[uuid] ==> other
                == uuid,
        stream_name.len() > 0,
        !stream_name.contains(':'),
        first_at(stream_name, "] "@, 0) is None,
    ensures
        ({
            let line = line_of(state.processes[uuid], stream_name, content);
            let (after, result) = handled(state, content, Some(uuid), message);
            let name = if state.names.contains_key(uuid) {
                state.names[uuid]
            } else {
                "unknown"@
            };
            processed(state, line, message) == (
                after,
                if result is Ok {
                    Effect::Handled
                } else {
                    Effect::Print(
                        "["@ + ("\x1b[1m\x1b[36m"@ + name + "\x1b[39m\x1b[0m"@) + "]: "@ + content,
                    )
                },
            )
        }),
{
    let pid = state.processes[uuid];
    law_reported_pid_is_looked_up(pid);
    law_line_reads_back(pid as u32, stream_name, content);
    assert(line_of(pid, stream_name, content) == written_line(
        decimal(pid as u32 as nat),
        stream_name,
        content,
    ));
    law_sole_holder_is_owner(state.order, state.processes, pid, uuid);
    law_highlighted_text_is_kept(printed_name(state.names, uuid));
}

/// A line that carries a process ID which no process has is printed with that process ID
/// and the name of the stream, all of it, and changes nothing, whatever it says.
pub proof fn law_line_of_nobody_is_printed_with_its_pid(
    state: LayerState,
    pid: i32,
    stream_name: Seq<char>,
    content: Seq<char>,
    message: Option<Message>,
)
    requires
        pid >= 0,
        forall|other: Seq<char>| #[trigger]
            state.order.contains(other) ==> state.processes[other] != pid,
        stream_name.len() > 0,
        !stream_name.contains(':'),
        first_at(stream_name, "] "@, 0) is None,
    ensures
        processed(state, line_of(pid, stream_name, content), message) == (
            state,
            Effect::Print(
                "Unmatched log: ["@ + ("\x1b[1m\x1b[36m"@ + (decimal(pid as nat) + ":"@
                    + stream_name) + "\x1b[39m\x1b[0m"@) + "] "@ + content,
            ),
        ),
{
    law_reported_pid_is_looked_up(pid);
    law_line_reads_back(pid as u32, stream_name, content);
    assert(line_of(pid, stream_name, content) == written_line(
        decimal(pid as u32 as nat),
        stream_name,
        content,
    ));
    law_owner_has_the_pid(state.order, state.processes, pid);
    law_highlighted_text_is_kept(decimal(pid as nat) + ":"@ + stream_name);
}

} // verus!
