//! What holds of the isolated processes of a runner, and of its updates.
use vstd::prelude::*;

use crate::ast::{
    imports_at, known_modules, scanned, third_party, Fault, Known, Project, SourceFile,
};
use crate::environment::{
    answer, awaiting, boots, communicated, delivered, delivered_all, lemma_entries_stay, loaded,
    no_processes, pids_of, reported, update_outcome, updated, with_process, without_process,
    ImportRunner, Isolated, Report,
};
use crate::loader::{booted, LoaderEvent};
use crate::messages::Message;
use crate::scan_laws::{
    all_known, distinct_paths, law_delta_leads_to_current, law_known_modules_after_scan,
    law_new_import_is_added, law_no_change_no_delta,
};

verus! {

/// The processes are listed each once, and only they have an entry for a result.
pub open spec fn tidy(state: Isolated) -> bool {
    &&& state.order.no_duplicates()
    &&& forall|uuid: Seq<char>|
        #![trigger state.order.contains(uuid)]
        #![trigger state.processes.contains_key(uuid)]
        state.order.contains(uuid) <==> state.processes.contains_key(uuid)
    &&& forall|uuid: Seq<char>| #[trigger]
        state.results.contains_key(uuid) ==> state.processes.contains_key(uuid)
}

/// A layer without processes is tidy.
pub proof fn law_no_processes_is_tidy()
    ensures
        tidy(no_processes()),
{
}

/// A fork leaves the processes tidy.
pub proof fn law_fork_stays_tidy(state: Isolated, uuid: Seq<char>, pid: Option<i32>)
    requires
        tidy(state),
    ensures
        tidy(with_process(state, uuid, pid)),
{
    let after = with_process(state, uuid, pid);
    if pid is Some && !state.processes.contains_key(uuid) {
        assert(!state.order.contains(uuid));
        assert forall|other: Seq<char>|
            #![trigger after.order.contains(other)]
            #![trigger after.processes.contains_key(other)]
            after.order.contains(other) <==> after.processes.contains_key(other) by {
            assert(after.order[state.order.len() as int] == uuid);
            if state.order.contains(other) {
                assert(after.order[state.order.index_of(other)] == other);
            }
            if after.order.contains(other) {
                let i = after.order.index_of(other);
                if i < state.order.len() {
                    assert(state.order[i] == other);
                }
            }
        }
    }
}

/// To stop a process leaves the processes tidy.
pub proof fn law_stop_stays_tidy(state: Isolated, uuid: Seq<char>)
    requires
        tidy(state),
    ensures
        tidy(without_process(state, uuid)),
{
    let after = without_process(state, uuid);
    if state.processes.contains_key(uuid) {
        assert(state.order.contains(uuid));
        let at = state.order.index_of(uuid);
        assert(state.order[at] == uuid);
        assert forall|other: Seq<char>|
            #![trigger after.order.contains(other)]
            #![trigger after.processes.contains_key(other)]
            after.order.contains(other) <==> after.processes.contains_key(other) by {
            if after.order.contains(other) {
                let i = after.order.index_of(other);
                let j = if i < at { i } else { i + 1 };
                assert(state.order[j] == other);
            }
            if after.processes.contains_key(other) {
                assert(state.order.contains(other));
                let j = state.order.index_of(other);
                let i = if j < at { j } else { j - 1 };
                assert(after.order[i] == other);
            }
        }
    }
}

/// To ask for a result leaves the processes tidy, and registers and stops none.
pub proof fn law_communication_stays_tidy(
    state: Isolated,
    uuid: Seq<char>,
    pending: Seq<Message>,
)
    requires
        tidy(state),
    ensures
        ({
            let after = communicated(Some(state), uuid, pending).0;
            &&& after is Some
            &&& tidy(after->0)
            &&& after->0.order == state.order
            &&& after->0.processes == state.processes
        }),
{
    lemma_entries_stay(awaiting(state, uuid).results, pending);
}

/// To stop a process undoes its fork, where it was not there before.
pub proof fn law_stop_undoes_fork(state: Isolated, uuid: Seq<char>, pid: i32)
    requires
        tidy(state),
        !state.processes.contains_key(uuid),
    ensures
        without_process(with_process(state, uuid, Some(pid)), uuid) == state,
{
    let forked = with_process(state, uuid, Some(pid));
    assert(!state.order.contains(uuid));
    assert(!state.results.contains_key(uuid));
    let last = state.order.len() as int;
    assert(forked.order[last] == uuid);
    assert(forked.order.contains(uuid));
    let at = forked.order.index_of(uuid);
    assert(forked.order[at] == uuid);
    if at < last {
        assert(state.order[at] == uuid);
    }
    let after = without_process(forked, uuid);
    assert(after.order =~= state.order);
    assert(after.processes =~= state.processes);
    assert(after.results =~= state.results);
}

/// A process that was stopped is gone: to communicate with it fails, to stop it again
/// finds nothing, and no other process was touched.
pub proof fn law_stopped_process_is_gone(
    state: Isolated,
    uuid: Seq<char>,
    pending: Seq<Message>,
    other: Seq<char>,
)
    ensures
        ({
            let after = without_process(state, uuid);
            &&& !after.processes.contains_key(uuid)
            &&& without_process(after, uuid) == after
            &&& communicated(Some(after), uuid, pending) == (
                Some(after),
                Err::<Option<Seq<char>>, Seq<char>>("Process "@ + uuid + " does not exist"@),
            )
            &&& other != uuid ==> {
                &&& after.processes.contains_key(other) == state.processes.contains_key(other)
                &&& after.processes[other] == state.processes[other]
                &&& after.results.contains_key(other) == state.results.contains_key(other)
                &&& after.results[other] == state.results[other]
            }
        }),
{
}

/// Once the environment was stopped, there is no process with which to communicate.
pub proof fn law_nothing_runs_after_stop(uuid: Seq<char>, pending: Seq<Message>)
    ensures
        communicated(Some(no_processes()), uuid, pending) == (
            Some(no_processes()),
            Err::<Option<Seq<char>>, Seq<char>>("Process "@ + uuid + " does not exist"@),
        ),
        without_process(no_processes(), uuid) == no_processes(),
{
}

/// A process that was just forked has no result yet.
pub proof fn law_forked_process_has_no_result(state: Isolated, uuid: Seq<char>, pid: i32)
    ensures
        communicated(Some(with_process(state, uuid, Some(pid))), uuid, Seq::empty()) == (
            Some(with_process(state, uuid, Some(pid))),
            Ok::<Option<Seq<char>>, Seq<char>>(None),
        ),
{
}

/// What was reported last of the end of a process is what a known process is answered
/// with: its value where it completed, its error with the traceback where it failed.
pub proof fn law_last_report_is_answered(
    state: Isolated,
    uuid: Seq<char>,
    pending: Seq<Message>,
    message: Message,
)
    requires
        state.processes.contains_key(uuid),
        reported(message) is Some,
    ensures
        communicated(Some(state), uuid, pending.push(message)).1 == answer(reported(message)),
{
    let results = awaiting(state, uuid).results;
    lemma_entries_stay(results, pending);
    assert(pending.push(message).drop_last() =~= pending);
    assert(delivered_all(results, pending).contains_key(uuid));
}

/// A message that reports no end of a process changes no result.
pub proof fn law_other_messages_change_no_result(
    results: Map<Seq<char>, Option<Report>>,
    message: Message,
)
    requires
        !(message is ChildComplete),
        !(message is ChildError),
    ensures
        delivered(results, message) == results,
{
}

/// Whoever asks again, with no further messages, gets the same answer, and nothing
/// changes any more.
pub proof fn law_answer_stays(state: Option<Isolated>, uuid: Seq<char>, pending: Seq<Message>)
    ensures
        ({
            let (after, reply) = communicated(state, uuid, pending);
            communicated(after, uuid, Seq::empty()) == (after, reply)
        }),
{
    if let Some(state) = state {
        let results = awaiting(state, uuid).results;
        lemma_entries_stay(results, pending);
        if state.processes.contains_key(uuid) {
            assert(delivered_all(results, pending).contains_key(uuid));
        }
    }
}

/// Where nothing changed on disk since a scan that met no fault, an update restarts
/// nothing: the modules that it finds are the known ones.
pub proof fn law_unchanged_project_is_not_restarted(
    known: Known,
    package: Option<Seq<char>>,
    files: Seq<SourceFile>,
)
    requires
        distinct_paths(files),
        scanned(known, package, files).1 is Ok,
    ensures
        ({
            let after = scanned(known, package, files).0;
            scanned(after, package, files).1 == Ok::<Set<Seq<char>>, Fault>(
                known_modules(after, package),
            )
        }),
{
    law_no_change_no_delta(known, package, files);
    let after = scanned(known, package, files).0;
    law_delta_leads_to_current(
        known_modules(after, package),
        scanned(after, package, files).1->Ok_0,
    );
}

/// A new file that imports a third-party module that was not known makes an update
/// restart the environment: the modules that it finds are not the known ones.
pub proof fn law_new_import_restarts(
    known: Known,
    package: Option<Seq<char>>,
    files: Seq<SourceFile>,
    file: SourceFile,
    module: Seq<char>,
)
    requires
        all_known(known, files),
        file.content is Ok,
        imports_at(known, file.path@, file.content->Ok_0@) is Ok,
        third_party(imports_at(known, file.path@, file.content->Ok_0@)->Ok_0, package).contains(
            module,
        ),
        !known_modules(known, package).contains(module),
    ensures
        scanned(known, package, files.push(file)).1 is Ok,
        scanned(known, package, files.push(file)).1->Ok_0 != known_modules(known, package),
{
    law_new_import_is_added(known, package, files, file, module);
}

/// What was forked from the layer of a runner when it is updated.
pub open spec fn running_pids(runner: ImportRunner) -> Seq<i32> {
    match runner.state() {
        Some(state) => pids_of(state),
        None => Seq::empty(),
    }
}

/// A runner whose environment was booted is restarted exactly where the third-party
/// modules of its project changed: `fresh` is any runner, such as a new one, `scanned_for`
/// what it became by the scan of the project `first`, `running` what that became by a
/// boot, and `later` what it is when the project has become `second`, whatever was forked
/// and stopped in between. A restart stops every process, and the layer that is then
/// booted has none.
pub proof fn law_booted_runner_restarts_where_modules_changed(
    fresh: ImportRunner,
    scanned_for: ImportRunner,
    running: ImportRunner,
    later: ImportRunner,
    first: Project,
    second: Project,
    code: Seq<char>,
    output: Seq<LoaderEvent>,
)
    requires
        distinct_paths(first.sources@),
        loaded(fresh, scanned_for, first, Ok(code)),
        boots(scanned_for, running, output),
        booted(output) is Ok,
        running.same_but_layer(later),
        later.ast_manager.package_in(second.top) == later.ast_manager.package(),
        scanned(
            later.ast_manager.known(),
            later.ast_manager.package(),
            second.sources@,
        ).1 is Ok,
    ensures
        ({
            let package = later.ast_manager.package();
            let loaded_modules = scanned(
                fresh.ast_manager.known(),
                package,
                first.sources@,
            ).1->Ok_0;
            let modules = scanned(later.ast_manager.known(), package, second.sources@).1->Ok_0;
            update_outcome(later, second) == Ok::<Option<Seq<i32>>, Seq<char>>(
                if modules != loaded_modules {
                    Some(running_pids(later))
                } else {
                    None
                },
            )
        }),
        running.state() == Some(no_processes()),
{
    law_known_modules_after_scan(
        fresh.ast_manager.known(),
        later.ast_manager.package(),
        first.sources@,
    );
}

/// After an update that restarts an environment, the processes are gone, and where the
/// new loader process has loaded the imports, the layer is new, nothing was forked from
/// it, and the next change is seen again.
pub proof fn law_restart_leads_to_a_new_layer(
    before: ImportRunner,
    stopped: ImportRunner,
    reloaded: ImportRunner,
    after: ImportRunner,
    project: Project,
    again: Project,
    code: Seq<char>,
    output: Seq<LoaderEvent>,
)
    requires
        update_outcome(before, project) matches Ok(Some(_)),
        updated(before, stopped, project),
        loaded(stopped, reloaded, again, Ok(code)),
        boots(reloaded, after, output),
        booted(output) is Ok,
    ensures
        stopped.state() == if before.layer is Some {
            Some(no_processes())
        } else {
            None
        },
        after.state() == Some(no_processes()),
        after.first_scan,
        after.id == before.id,
{
}

} // verus!
