//! What holds of the isolated processes of a runner, entry by entry: which are stopped,
//! registered, answered for and shown.
use vstd::prelude::*;

use crate::ast::{scanned, Project};
use crate::environment::{
    answer, answer_view, boots, communicated, delivered, delivered_all, executes, imports_all,
    lemma_entries_stay, loaded, no_processes, registers, report_of, reported,
    requests, shown_line, stop_target, stops, text_view, update_outcome, update_view, updated,
    with_process, awaiting, ImportRunner, Isolated, Layer, ProcessResult, Report,
    Update,
};
use crate::ids::is_random_uuid;
use crate::layer_laws::line_of;
use crate::line_laws::law_reported_pid_is_looked_up;
use crate::loader::{booted, LoaderEvent};
use crate::loader_laws::{
    law_first_word_on_the_boot_decides, law_first_word_on_the_fork_decides,
    law_fork_carries_data_and_script, speaks_of_boot, speaks_of_fork,
};
use crate::messages::{ForkRequest, Message};
use crate::multiplex_logs::{law_line_reads_back, parsed_line, written_line};
use crate::processes::{law_owner_has_the_pid, law_sole_holder_is_owner};
use crate::text::{decimal, first_at, stands_at};

verus! {

/// Whether one of the processes has the process ID `pid`.
pub open spec fn is_one_of(processes: Map<Seq<char>, i32>, pid: i32) -> bool {
    exists|uuid: Seq<char>| #[trigger] processes.contains_key(uuid) && processes[uuid] == pid
}

/// A restart stops every process: the process ID of each registered process is among those
/// that are stopped, there are as many of them as processes, and each belongs to one.
pub proof fn law_restart_stops_every_process(runner: ImportRunner, project: Project)
    requires
        runner.wf(),
        update_outcome(runner, project) matches Ok(Some(_)),
    ensures
        ({
            let pids = update_outcome(runner, project)->Ok_0->0;
            match runner.layer {
                Some(layer) => {
                    let processes = layer.forked_processes@;
                    &&& forall|uuid: Seq<char>| #[trigger]
                        processes.contains_key(uuid) ==> pids.contains(processes[uuid])
                    &&& pids.len() == processes.dom().len()
                    &&& forall|i: int|
                        0 <= i < pids.len() ==> is_one_of(processes, #[trigger] pids[i])
                },
                None => pids.len() == 0,
            }
        }),
{
    let pids = update_outcome(runner, project)->Ok_0->0;
    if let Some(layer) = runner.layer {
        let processes = layer.forked_processes@;
        let order = layer.forked_processes.keys();
        layer.forked_processes.lemma_keys();
        assert(pids.len() == order.len());
        assert forall|i: int| 0 <= i < pids.len() implies #[trigger] pids[i]
            == processes[order[i]] by {}
        assert forall|uuid: Seq<char>| #[trigger] processes.contains_key(uuid) implies pids.contains(
            processes[uuid],
        ) by {
            assert(order.contains(uuid));
            let i = order.index_of(uuid);
            assert(order[i] == uuid);
            assert(pids[i] == processes[uuid]);
        }
        assert forall|i: int| 0 <= i < pids.len() implies is_one_of(
            processes,
            #[trigger] pids[i],
        ) by {
            assert(order.contains(order[i]));
            assert(processes.contains_key(order[i]));
        }
        assert forall|uuid: Seq<char>| processes.dom().contains(uuid) == order.to_set().contains(
            uuid,
        ) by {
            assert(processes.contains_key(uuid) <==> order.contains(uuid));
        }
        assert(processes.dom() =~= order.to_set());
        order.unique_seq_to_set();
    }
}

/// A restart forgets every process, and without a restart the layer is left as it is.
pub proof fn law_restart_forgets_every_process(
    before: ImportRunner,
    after: ImportRunner,
    project: Project,
    uuid: Seq<char>,
)
    requires
        updated(before, after, project),
    ensures
        match update_outcome(before, project) {
            Ok(Some(_)) => match after.layer {
                Some(layer) => {
                    &&& before.layer is Some
                    &&& !layer.forked_processes@.contains_key(uuid)
                    &&& !layer.result_map@.contains_key(uuid)
                },
                None => before.layer is None,
            },
            _ => after.layer == before.layer,
        },
        after.id == before.id,
        after.first_scan == before.first_scan,
{
    if let Ok(Some(_)) = update_outcome(before, project) {
        if let Some(layer) = after.layer {
            assert(layer@.results == Map::<Seq<char>, Option<Report>>::empty());
            assert(layer@.results.contains_key(uuid) == layer.result_map@.contains_key(uuid));
        }
    }
}

/// An update of a project that was not scanned comes to nothing; a fault is explained; and
/// where the imports are those that were known, nothing is done.
pub proof fn law_update_without_change_does_nothing(runner: ImportRunner, project: Project)
    ensures
        !runner.first_scan ==> update_outcome(runner, project) == Ok::<
            Option<Seq<i32>>,
            Seq<char>,
        >(None),
        runner.first_scan ==> match scanned(
            runner.ast_manager.known(),
            runner.ast_manager.package_in(project.top),
            project.sources@,
        ).1 {
            Err(fault) => update_outcome(runner, project) == Err::<Option<Seq<i32>>, Seq<char>>(
                "Failed to compute import delta: "@ + crate::ast::fault_text(fault),
            ),
            Ok(modules) => (update_outcome(runner, project) matches Ok(None)) <==> modules
                == crate::ast::known_modules(
                runner.ast_manager.known(),
                runner.ast_manager.package(),
            ),
        },
{
}

/// An update stands for what it holds: nothing, or all of the process IDs.
pub proof fn law_update_is_what_it_holds(update: Result<Update, String>)
    ensures
        match update {
            Ok(Update::Unchanged) => update_view(update) == Ok::<Option<Seq<i32>>, Seq<char>>(None),
            Ok(Update::Restart(pids)) => update_view(update) == Ok::<Option<Seq<i32>>, Seq<char>>(
                Some(pids@),
            ),
            Err(why) => update_view(update) == Err::<Option<Seq<i32>>, Seq<char>>(why@),
        },
{
}

/// A process that is registered has its process ID and no result yet, is the last in the
/// order, and changes nothing of the others; where there is no process ID, nothing is
/// registered.
pub proof fn law_registered_process_is_there(
    state: Isolated,
    uuid: Seq<char>,
    pid: i32,
    other: Seq<char>,
)
    requires
        other != uuid,
    ensures
        ({
            let after = with_process(state, uuid, Some(pid));
            &&& after.processes.contains_key(uuid)
            &&& after.processes[uuid] == pid
            &&& after.results.contains_key(uuid)
            &&& after.results[uuid] is None
            &&& !state.processes.contains_key(uuid) ==> after.order == state.order + seq![uuid]
            &&& state.processes.contains_key(uuid) ==> after.order == state.order
            &&& after.processes.contains_key(other) == state.processes.contains_key(other)
            &&& after.processes[other] == state.processes[other]
            &&& after.results.contains_key(other) == state.results.contains_key(other)
            &&& after.results[other] == state.results[other]
        }),
        with_process(state, uuid, None) == state,
{
    assert(state.order.push(uuid) =~= state.order + seq![uuid]);
}

/// A process that was forked is registered under a new identifier, with the process ID that
/// the first word of the loader process on it gives; that identifier is the result, and
/// nothing else changes. Where the loader process says why there is none, that is the
/// error; and without a layer nothing can be forked.
pub proof fn law_fork_is_registered_with_its_pid(
    before: ImportRunner,
    after: ImportRunner,
    output: Seq<LoaderEvent>,
    result: Result<Seq<char>, Seq<char>>,
    at: int,
)
    requires
        executes(before, after, output, result),
        0 <= at <= output.len(),
        forall|i: int| 0 <= i < at ==> !speaks_of_fork(#[trigger] output[i]),
        at < output.len() ==> speaks_of_fork(output[at]),
    ensures
        after.id == before.id,
        after.ast_manager == before.ast_manager,
        after.first_scan == before.first_scan,
        before.state() is None ==> result == Err::<Seq<char>, Seq<char>>(
            "Layer not initialized. Call boot_main first."@,
        ) && after.layer is None,
        before.state() matches Some(state) ==> {
            if at == output.len() {
                &&& result is Ok
                &&& is_random_uuid(result->Ok_0)
                &&& after.state() == before.state()
            } else {
                match output[at] {
                    LoaderEvent::Message(Message::ForkResponse(response)) => {
                        &&& result is Ok
                        &&& is_random_uuid(result->Ok_0)
                        &&& after.state() is Some
                        &&& after.state()->0.processes == state.processes.insert(
                            result->Ok_0,
                            response.child_pid,
                        )
                        &&& after.state()->0.results == state.results.insert(result->Ok_0, None)
                    },
                    LoaderEvent::Message(Message::ChildError(error)) => {
                        &&& result == Err::<Seq<char>, Seq<char>>("Fork error: "@ + error.error@)
                        &&& after.layer == before.layer
                    },
                    LoaderEvent::ReadError(why) => {
                        &&& result == Err::<Seq<char>, Seq<char>>("Failed to read line: "@ + why@)
                        &&& after.layer == before.layer
                    },
                    _ => false,
                }
            }
        },
{
    law_first_word_on_the_fork_decides(output, at);
}

/// A process is registered under the identifier that is given for it, all of it, unless it
/// is empty.
pub proof fn law_given_identifier_is_registered(
    before: ImportRunner,
    after: ImportRunner,
    process_uuid: Seq<char>,
    output: Seq<LoaderEvent>,
    result: Result<Seq<char>, Seq<char>>,
    at: int,
)
    requires
        registers(before, after, process_uuid, output, result),
        before.layer is Some,
        0 <= at < output.len(),
        forall|i: int| 0 <= i < at ==> !speaks_of_fork(#[trigger] output[i]),
        output[at] matches LoaderEvent::Message(Message::ForkResponse(_)),
    ensures
        process_uuid.len() > 0 ==> {
            &&& result == Ok::<Seq<char>, Seq<char>>(process_uuid)
            &&& after.state() is Some
            &&& after.state()->0.processes.contains_key(process_uuid)
            &&& after.state()->0.processes[process_uuid]
                == output[at]->Message_0->ForkResponse_0.child_pid
        },
        process_uuid.len() == 0 ==> {
            &&& result == Err::<Seq<char>, Seq<char>>(
                "Failed to get process UUID from fork operation"@,
            )
            &&& after.layer == before.layer
        },
{
    assert(speaks_of_fork(output[at]));
    law_first_word_on_the_fork_decides(output, at);
}

/// The request for a fork carries all of the data and all of the script, each in its place,
/// and there is one exactly where there is a layer.
pub proof fn law_request_carries_data_and_script(
    runner: ImportRunner,
    pickled_data: Seq<char>,
    script: Seq<char>,
    request: Result<ForkRequest, String>,
)
    requires
        requests(runner, pickled_data, script, request),
    ensures
        request is Ok <==> runner.layer is Some,
        request matches Ok(request) ==> {
            let code = request.code@;
            let middle: int = 16 + pickled_data.len() as int;
            let end: int = middle + 2 + script.len() as int;
            &&& code.len() == end + 13
            &&& stands_at(code, 0, "\npickled_str = \""@)
            &&& stands_at(code, 16, pickled_data)
            &&& stands_at(code, middle, "\"\n"@)
            &&& stands_at(code, middle + 2, script)
            &&& stands_at(code, end, "\n            "@)
        },
        request matches Err(why) ==> why@ == "Layer not initialized. Call boot_main first."@,
{
    if let Ok(request) = request {
        reveal_strlit("\npickled_str = \"");
        reveal_strlit("\"\n");
        reveal_strlit("\n            ");
        law_fork_carries_data_and_script(pickled_data, script);
        let code = request.code@;
        let end: int = 18 + pickled_data.len() as int + script.len() as int;
        assert(code.subrange(end, end + 13) =~= code.skip(end));
    }
}

/// To stop a process takes it, and it alone, out of the tables; it was there exactly if the
/// answer says so; and the signals go to its process ID.
pub proof fn law_stop_takes_one_process(state: Isolated, uuid: Seq<char>, other: Seq<char>)
    requires
        other != uuid,
    ensures
        stops(None, uuid) == (
            None::<Isolated>,
            Err::<bool, Seq<char>>("Layer not initialized. Call boot_main first."@),
        ),
        stop_target(None, uuid) == Err::<Option<i32>, Seq<char>>(
            "Layer not initialized. Call boot_main first."@,
        ),
        stops(Some(state), uuid).1 == Ok::<bool, Seq<char>>(state.processes.contains_key(uuid)),
        stop_target(Some(state), uuid) == Ok::<Option<i32>, Seq<char>>(
            if state.processes.contains_key(uuid) {
                Some(state.processes[uuid])
            } else {
                None
            },
        ),
        stops(Some(state), uuid).0 matches Some(after) && {
            &&& !after.processes.contains_key(uuid)
            &&& state.processes.contains_key(uuid) ==> !after.results.contains_key(uuid)
            &&& after.processes.contains_key(other) == state.processes.contains_key(other)
            &&& after.processes[other] == state.processes[other]
            &&& after.results.contains_key(other) == state.results.contains_key(other)
            &&& after.results[other] == state.results[other]
        },
{
}

/// What a message reports of the end of a process is what it holds: the value of a process
/// that completed, the error of one that failed, with its traceback; other messages report
/// nothing.
pub proof fn law_message_reports_what_it_holds(message: Message)
    ensures
        match message {
            Message::ChildComplete(complete) => reported(message) == Some(
                Report::Complete(
                    match complete.result {
                        Some(value) => Some(value@),
                        None => None,
                    },
                ),
            ),
            Message::ChildError(error) => reported(message) == Some(
                Report::Error(
                    match error.traceback {
                        Some(traceback) => error.error@ + "\n\n"@ + traceback@,
                        None => error.error@,
                    },
                ),
            ),
            _ => reported(message) is None,
        },
{
}

/// A report reaches every process that has an entry, and makes none; any other message
/// leaves every entry as it is.
pub proof fn law_report_reaches_every_entry(
    results: Map<Seq<char>, Option<Report>>,
    message: Message,
    uuid: Seq<char>,
)
    ensures
        delivered(results, message).contains_key(uuid) == results.contains_key(uuid),
        results.contains_key(uuid) ==> delivered(results, message)[uuid] == if message is ChildComplete
            || message is ChildError {
            reported(message)
        } else {
            results[uuid]
        },
{
}

/// Messages that come one after the other are delivered one after the other.
pub proof fn law_messages_are_delivered_in_turn(
    results: Map<Seq<char>, Option<Report>>,
    messages: Seq<Message>,
    message: Message,
)
    ensures
        delivered_all(results, Seq::<Message>::empty()) == results,
        delivered_all(results, messages.push(message)) == delivered(
            delivered_all(results, messages),
            message,
        ),
{
    assert(messages.push(message).drop_last() =~= messages);
}

/// A known process is answered with what was last reported: the value, all of it, or the
/// error with its traceback; what it was before, where nothing was reported since; and
/// nothing, where nothing was ever reported or the last was a log. An unknown one is
/// refused, and so is everyone where there is no layer.
pub proof fn law_process_is_answered_with_its_report(
    state: Isolated,
    uuid: Seq<char>,
    pending: Seq<Message>,
    last: Message,
)
    requires
        state.processes.contains_key(uuid),
    ensures
        match last {
            Message::ChildComplete(complete) => communicated(
                Some(state),
                uuid,
                pending.push(last),
            ).1 == Ok::<Option<Seq<char>>, Seq<char>>(
                match complete.result {
                    Some(value) => Some(value@),
                    None => None,
                },
            ),
            Message::ChildError(error) => communicated(Some(state), uuid, pending.push(last)).1
                == Err::<Option<Seq<char>>, Seq<char>>(
                match error.traceback {
                    Some(traceback) => error.error@ + "\n\n"@ + traceback@,
                    None => error.error@,
                },
            ),
            _ => communicated(Some(state), uuid, pending.push(last)).1 == communicated(
                Some(state),
                uuid,
                pending,
            ).1,
        },
        communicated(Some(state), uuid, Seq::empty()).1 == match (
            state.results.contains_key(uuid),
            state.results[uuid],
        ) {
            (true, Some(Report::Complete(value))) => Ok::<Option<Seq<char>>, Seq<char>>(value),
            (true, Some(Report::Error(why))) => Err(why),
            _ => Ok(None),
        },
        communicated(None, uuid, pending) == (
            None::<Isolated>,
            Err::<Option<Seq<char>>, Seq<char>>("No layer available for communication"@),
        ),
{
    let results = awaiting(state, uuid).results;
    lemma_entries_stay(results, pending);
    assert(pending.push(last).drop_last() =~= pending);
    assert(delivered_all(results, pending).contains_key(uuid));
}

/// To ask for the result of a process changes no process, and of the results those alone of
/// processes that have an entry or are asked for.
pub proof fn law_asking_changes_no_process(
    state: Isolated,
    uuid: Seq<char>,
    pending: Seq<Message>,
    other: Seq<char>,
)
    requires
        other != uuid,
    ensures
        communicated(Some(state), uuid, pending).0 matches Some(after) && {
            &&& after.order == state.order
            &&& after.processes == state.processes
            &&& after.results.contains_key(other) == state.results.contains_key(other)
            &&& pending.len() == 0 ==> after.results[other] == state.results[other]
            &&& state.processes.contains_key(uuid) ==> after.results.contains_key(uuid)
            &&& !state.processes.contains_key(uuid) ==> after == state
        },
        !state.processes.contains_key(uuid) ==> communicated(Some(state), uuid, pending).1 == Err::<
            Option<Seq<char>>,
            Seq<char>,
        >("Process "@ + uuid + " does not exist"@),
{
    let results = awaiting(state, uuid).results;
    lemma_entries_stay(results, pending);
    if state.processes.contains_key(uuid) {
        let after = communicated(Some(state), uuid, pending).0->0;
        assert(after.results.contains_key(other) == results.contains_key(other));
        assert(after.results.contains_key(uuid) == results.contains_key(uuid));
    }
}

/// What a process prints is shown with its identifier and the name of the stream, and all
/// of it, where it alone has its process ID.
pub proof fn law_output_is_shown_with_its_process(
    state: Isolated,
    uuid: Seq<char>,
    stream_name: Seq<char>,
    content: Seq<char>,
)
    requires
        state.order.contains(uuid),
        state.processes[uuid] >= 0,
        forall|other: Seq<char>| #[trigger]
            state.order.contains(other) && state.processes[other] == state.processes[uuid] ==> other
                == uuid,
        stream_name.len() > 0,
        !stream_name.contains(':'),
        first_at(stream_name, "] "@, 0) is None,
    ensures
        shown_line(state, line_of(state.processes[uuid], stream_name, content)) == "["@ + uuid
            + ":"@ + stream_name + "] "@ + content,
{
    let pid = state.processes[uuid];
    law_reported_pid_is_looked_up(pid);
    law_line_reads_back(pid as u32, stream_name, content);
    assert(line_of(pid, stream_name, content) == written_line(
        decimal(pid as u32 as nat),
        stream_name,
        content,
    ));
    law_sole_holder_is_owner(state.order, state.processes, pid, uuid);
}

/// What an unknown process prints is shown with its process ID, and a line of no process as
/// it is.
pub proof fn law_other_output_is_shown_too(
    state: Isolated,
    pid: i32,
    stream_name: Seq<char>,
    content: Seq<char>,
    line: Seq<char>,
)
    requires
        pid >= 0,
        forall|other: Seq<char>| #[trigger]
            state.order.contains(other) ==> state.processes[other] != pid,
        stream_name.len() > 0,
        !stream_name.contains(':'),
        first_at(stream_name, "] "@, 0) is None,
    ensures
        shown_line(state, line_of(pid, stream_name, content)) == "Unmatched log: ["@ + decimal(
            pid as nat,
        ) + ":"@ + stream_name + "] "@ + content,
        parsed_line(line) is Err ==> shown_line(state, line) == "Raw output: "@ + line,
{
    law_reported_pid_is_looked_up(pid);
    law_line_reads_back(pid as u32, stream_name, content);
    assert(line_of(pid, stream_name, content) == written_line(
        decimal(pid as u32 as nat),
        stream_name,
        content,
    ));
    law_owner_has_the_pid(state.order, state.processes, pid);
}

/// A runner that loads its project knows what the scan left, and the code that it gives
/// imports just the modules that the scan found; a fault is explained. Its layer and its
/// identifier stay.
pub proof fn law_loading_follows_the_scan(
    before: ImportRunner,
    after: ImportRunner,
    project: Project,
    code: Result<Seq<char>, Seq<char>>,
)
    requires
        loaded(before, after, project, code),
    ensures
        ({
            let (known, modules) = scanned(
                before.ast_manager.known(),
                before.ast_manager.package_in(project.top),
                project.sources@,
            );
            &&& after.ast_manager.known() == known
            &&& code is Ok <==> modules is Ok
            &&& modules matches Ok(found) ==> imports_all(code->Ok_0, found)
            &&& modules matches Err(fault) ==> code == Err::<Seq<char>, Seq<char>>(
                "Failed to process Python files: "@ + crate::ast::fault_text(fault),
            )
            &&& after.ast_manager.package() == before.ast_manager.package_in(project.top)
            &&& after.ast_manager.path() == before.ast_manager.path()
            &&& after.id == before.id
            &&& after.layer == before.layer
            &&& after.first_scan == before.first_scan
        }),
{
}

/// A boot gives a layer without processes where the first word of the loader process is
/// that the imports were loaded, and leaves the layer as it is everywhere else.
pub proof fn law_boot_gives_an_empty_layer(
    before: ImportRunner,
    after: ImportRunner,
    output: Seq<LoaderEvent>,
    at: int,
    uuid: Seq<char>,
)
    requires
        boots(before, after, output),
        0 <= at <= output.len(),
        forall|i: int| 0 <= i < at ==> !speaks_of_boot(#[trigger] output[i]),
        at < output.len() ==> speaks_of_boot(output[at]),
    ensures
        at < output.len() && (output[at] matches LoaderEvent::Message(Message::ImportComplete(_)))
            ==> {
            &&& after.layer is Some
            &&& !after.layer->0.forked_processes@.contains_key(uuid)
            &&& !after.layer->0.result_map@.contains_key(uuid)
            &&& after.first_scan
        },
        !(at < output.len() && (output[at] matches LoaderEvent::Message(
            Message::ImportComplete(_),
        ))) ==> after.layer == before.layer && after.first_scan == before.first_scan,
        after.id == before.id,
        after.ast_manager == before.ast_manager,
{
    law_first_word_on_the_boot_decides(output, at);
    if booted(output) is Ok {
        let layer = after.layer->0;
        assert(layer@ == no_processes());
        assert(layer@.results.contains_key(uuid) == layer.result_map@.contains_key(uuid));
    }
}

/// A layer, a result and an answer stand for what they hold.
pub proof fn law_environment_values_stand_for_what_they_hold(
    layer: Layer,
    uuid: Seq<char>,
    result: ProcessResult,
    text: Result<String, String>,
    answered: Result<Option<String>, String>,
)
    ensures
        layer@.order == layer.forked_processes.keys(),
        layer@.processes == layer.forked_processes@,
        layer@.results.contains_key(uuid) == layer.result_map@.contains_key(uuid),
        layer.result_map@.contains_key(uuid) ==> match layer.result_map@[uuid] {
            Some(result) => layer@.results[uuid] == Some(result@),
            None => layer@.results[uuid] is None,
        },
        report_of(Some(result)) == Some(result@),
        match result {
            ProcessResult::Complete(Some(value)) => result@ == Report::Complete(Some(value@)),
            ProcessResult::Complete(None) => result@ == Report::Complete(None),
            ProcessResult::Error(why) => result@ == Report::Error(why@),
            ProcessResult::Log(line) => result@ == Report::Log(line@),
        },
        match text {
            Ok(value) => text_view(text) == Ok::<Seq<char>, Seq<char>>(value@),
            Err(why) => text_view(text) == Err::<Seq<char>, Seq<char>>(why@),
        },
        match answered {
            Ok(Some(value)) => answer_view(answered) == Ok::<Option<Seq<char>>, Seq<char>>(
                Some(value@),
            ),
            Ok(None) => answer_view(answered) == Ok::<Option<Seq<char>>, Seq<char>>(None),
            Err(why) => answer_view(answered) == Err::<Option<Seq<char>>, Seq<char>>(why@),
        },
{
}

/// What is done to the layer of a runner leaves its identifier, what it knows of its project
/// and whether that was scanned as they are.
pub proof fn law_layer_is_changed_alone(before: ImportRunner, after: ImportRunner)
    requires
        before.same_but_layer(after),
    ensures
        after.id == before.id,
        after.ast_manager == before.ast_manager,
        after.first_scan == before.first_scan,
{
}

/// Where there are no processes, none is listed, none has a process ID and none a result.
pub proof fn law_no_processes_are_none(uuid: Seq<char>)
    ensures
        no_processes().order.len() == 0,
        !no_processes().processes.contains_key(uuid),
        !no_processes().results.contains_key(uuid),
{
}

} // verus!
