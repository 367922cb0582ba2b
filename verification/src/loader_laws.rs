//! What holds of what a loader process is told, and of what its answers decide.
use vstd::prelude::*;

use crate::environment::imports_all;
use crate::loader::{
    banner, boot_verdict, booted, fork_outcome, fork_verdict, import_code, isolated_code,
    outcome_view, LoaderEvent,
};
use crate::messages::Message;
use crate::text::{decimal, stands_at};

verus! {

/// The line that imports `module`.
pub open spec fn import_line(module: Seq<char>) -> Seq<char> {
    "__import__('"@ + module + "')\n"@
}

/// Whether line `i` is what stands in `code` from `starts[i]` up to `starts[i + 1]`.
pub open spec fn has_line(
    code: Seq<char>,
    lines: Seq<Seq<char>>,
    starts: Seq<int>,
    i: int,
) -> bool {
    &&& 0 <= starts[i] <= starts[i + 1] <= code.len()
    &&& lines[i] == code.subrange(starts[i], starts[i + 1])
}

/// Whether `code` is nothing but the lines of `lines`, one behind the other: line `i`
/// begins at `starts[i]` and ends where the next one begins.
pub open spec fn made_of(code: Seq<char>, lines: Seq<Seq<char>>, starts: Seq<int>) -> bool {
    &&& starts.len() == lines.len() + 1
    &&& starts[0] == 0
    &&& starts.last() == code.len()
    &&& forall|i: int| 0 <= i < lines.len() ==> #[trigger] has_line(code, lines, starts, i)
}

/// The line of each of `modules`.
pub open spec fn import_lines_of(modules: Seq<Seq<char>>) -> Seq<Seq<char>> {
    Seq::new(modules.len(), |i: int| import_line(modules[i]))
}

/// The line that imports a module holds its full name, between a fixed start and a fixed
/// end.
pub proof fn law_import_line_holds_the_full_name(module: Seq<char>)
    ensures
        import_line(module).len() == 12 + module.len() + 3,
        import_line(module).subrange(0, 12) == "__import__('"@,
        import_line(module).subrange(12, 12 + module.len() as int) == module,
        import_line(module).skip(12 + module.len() as int) == "')\n"@,
{
    reveal_strlit("__import__('");
    reveal_strlit("')\n");
    let line = import_line(module);
    assert(line.subrange(0, 12) =~= "__import__('"@);
    assert(line.subrange(12, 12 + module.len() as int) =~= module);
    assert(line.skip(12 + module.len() as int) =~= "')\n"@);
}

/// The code that imports modules is that of the first ones and then that of the others,
/// the code for one module is its line, and for none there is none.
pub proof fn law_import_code_goes_line_by_line(
    first: Seq<Seq<char>>,
    second: Seq<Seq<char>>,
    module: Seq<char>,
)
    ensures
        import_code(Seq::<Seq<char>>::empty()) == Seq::<char>::empty(),
        import_code(seq![module]) == "__import__('"@ + module + "')\n"@,
        import_code(first + second) == import_code(first) + import_code(second),
    decreases second.len(),
{
    let one = seq![module];
    assert(one.drop_last() =~= Seq::<Seq<char>>::empty());
    assert(import_code(one.drop_last()) =~= Seq::<char>::empty());
    assert(one.last() == module);
    assert(import_code(one) =~= "__import__('"@ + module + "')\n"@);
    if second.len() == 0 {
        assert(first + second =~= first);
        assert(import_code(first) + import_code(second) =~= import_code(first));
    } else {
        let both = first + second;
        law_import_code_goes_line_by_line(first, second.drop_last(), module);
        assert(both.drop_last() =~= first + second.drop_last());
        assert(both.last() == second.last());
        assert(import_code(both) =~= import_code(first) + import_code(second));
    }
}

proof fn lemma_code_is_made_of_lines(modules: Seq<Seq<char>>) -> (starts: Seq<int>)
    ensures
        made_of(import_code(modules), import_lines_of(modules), starts),
    decreases modules.len(),
{
    let code = import_code(modules);
    let lines = import_lines_of(modules);
    if modules.len() == 0 {
        seq![0]
    } else {
        let shorter = modules.drop_last();
        let before = import_code(shorter);
        let earlier = import_lines_of(shorter);
        let begins = lemma_code_is_made_of_lines(shorter);
        let starts = begins.push(code.len() as int);
        let last = import_line(modules.last());
        law_import_code_goes_line_by_line(shorter, seq![modules.last()], modules.last());
        assert(shorter + seq![modules.last()] =~= modules);
        assert(code == before + last);
        assert forall|i: int| 0 <= i < lines.len() implies #[trigger] has_line(
            code,
            lines,
            starts,
            i,
        ) by {
            if i < shorter.len() {
                assert(has_line(before, earlier, begins, i));
                assert(starts[i] == begins[i] && starts[i + 1] == begins[i + 1]);
                assert(earlier[i] == import_line(modules[i]));
                assert(code.subrange(starts[i], starts[i + 1]) =~= before.subrange(
                    begins[i],
                    begins[i + 1],
                ));
            } else {
                assert(begins.last() == before.len());
                assert(starts[i] == begins[i]);
                assert(code.subrange(starts[i], starts[i + 1]) =~= last);
            }
        }
        assert(starts[0] == begins[0]);
        assert(starts.last() == code.len());
        starts
    }
}

/// Code that imports a set of modules is one line for each module in the set, each once
/// and with its full name, and nothing else.
pub proof fn law_import_code_is_one_line_per_module(code: Seq<char>, modules: Set<Seq<char>>)
    requires
        imports_all(code, modules),
    ensures
        exists|listed: Seq<Seq<char>>, starts: Seq<int>| #[trigger]
            made_of(code, import_lines_of(listed), starts) && listed.no_duplicates() && forall|
                module: Seq<char>,
            | modules.contains(module) <==> listed.contains(module),
{
    let listed = choose|listed: Seq<Seq<char>>|
        listed.no_duplicates() && listed.to_set() == modules && code == #[trigger] import_code(
            listed,
        );
    let starts = lemma_code_is_made_of_lines(listed);
    assert forall|module: Seq<char>| modules.contains(module) <==> listed.contains(module) by {
        assert(listed.to_set().contains(module) <==> listed.contains(module));
    }
    assert(made_of(code, import_lines_of(listed), starts));
}

/// The line of each module in the set stands in the code, with the full name of the
/// module, and at the beginning of a line.
pub proof fn law_each_module_is_imported(
    code: Seq<char>,
    modules: Set<Seq<char>>,
    module: Seq<char>,
)
    requires
        imports_all(code, modules),
        modules.contains(module),
    ensures
        exists|at: int|
            #[trigger] stands_at(code, at, "__import__('"@ + module + "')\n"@) && (at == 0
                || code[at - 1] == '\n'),
{
    law_import_code_is_one_line_per_module(code, modules);
    let (listed, starts): (Seq<Seq<char>>, Seq<int>) = choose|
        listed: Seq<Seq<char>>,
        starts: Seq<int>,
    | #[trigger]
        made_of(code, import_lines_of(listed), starts) && listed.no_duplicates() && forall|
            module: Seq<char>,
        | modules.contains(module) <==> listed.contains(module);
    let lines = import_lines_of(listed);
    assert(listed.contains(module));
    let i = listed.index_of(module);
    assert(listed[i] == module);
    assert(lines[i] == import_line(module));
    assert(has_line(code, lines, starts, i));
    assert(lines[i].len() == starts[i + 1] - starts[i]);
    assert(stands_at(code, starts[i], "__import__('"@ + module + "')\n"@));
    if i > 0 {
        reveal_strlit("')\n");
        let previous = lines[i - 1];
        assert(has_line(code, lines, starts, i - 1));
        let part = code.subrange(starts[i - 1], starts[i]);
        assert(part == previous);
        assert(part.last() == '\n');
        assert(part[part.len() - 1] == code[starts[i] - 1]);
    }
}

/// The code of a fork carries all of the data and all of the script: it is a fixed start,
/// the data, a fixed middle, the script and a fixed end.
pub proof fn law_fork_carries_data_and_script(pickled_data: Seq<char>, script: Seq<char>)
    ensures
        ({
            let code = isolated_code(pickled_data, script);
            let data_end: int = 16 + pickled_data.len() as int;
            let script_end: int = data_end + 2 + script.len() as int;
            &&& code.len() == script_end + 13
            &&& code.subrange(0, 16) == "\npickled_str = \""@
            &&& code.subrange(16, data_end) == pickled_data
            &&& code.subrange(data_end, data_end + 2) == "\"\n"@
            &&& code.subrange(data_end + 2, script_end) == script
            &&& code.skip(script_end) == "\n            "@
        }),
{
    reveal_strlit("\npickled_str = \"");
    reveal_strlit("\"\n");
    reveal_strlit("\n            ");
    let code = isolated_code(pickled_data, script);
    let data_end: int = 16 + pickled_data.len() as int;
    let script_end: int = data_end + 2 + script.len() as int;
    assert(code.subrange(0, 16) =~= "\npickled_str = \""@);
    assert(code.subrange(16, data_end) =~= pickled_data);
    assert(code.subrange(data_end, data_end + 2) =~= "\"\n"@);
    assert(code.subrange(data_end + 2, script_end) =~= script);
    assert(code.skip(script_end) =~= "\n            "@);
}

/// Whether an event says something of the loading of the imports.
pub open spec fn speaks_of_boot(event: LoaderEvent) -> bool {
    match event {
        LoaderEvent::Message(message) => message is ImportComplete || message is ImportError,
        LoaderEvent::ReadError(_) => true,
        LoaderEvent::Output => false,
    }
}

/// Whether an event says something of a fork.
pub open spec fn speaks_of_fork(event: LoaderEvent) -> bool {
    match event {
        LoaderEvent::Message(message) => message is ForkResponse || message is ChildError,
        LoaderEvent::ReadError(_) => true,
        LoaderEvent::Output => false,
    }
}

/// The first event that speaks of the loading of the imports decides: they are loaded
/// where it says so; else the error says what it says, with the traceback; and where no
/// event speaks of it, they are not loaded.
pub proof fn law_first_word_on_the_boot_decides(events: Seq<LoaderEvent>, at: int)
    requires
        0 <= at <= events.len(),
        forall|i: int| 0 <= i < at ==> !speaks_of_boot(#[trigger] events[i]),
        at < events.len() ==> speaks_of_boot(events[at]),
    ensures
        at == events.len() ==> booted(events) == Err::<(), Seq<char>>(
            "Python loader did not report successful imports"@,
        ),
        at < events.len() ==> match events[at] {
            LoaderEvent::Message(Message::ImportComplete(_)) => booted(events) is Ok,
            LoaderEvent::Message(Message::ImportError(error)) => booted(events) == Err::<
                (),
                Seq<char>,
            >(
                "Import error: "@ + error.error@ + ": "@ + match error.traceback {
                    Some(traceback) => traceback@,
                    None => Seq::<char>::empty(),
                },
            ),
            LoaderEvent::ReadError(why) => booted(events) == Err::<(), Seq<char>>(
                "Failed to read line: "@ + why@,
            ),
            _ => false,
        },
    decreases at,
{
    if at > 0 {
        let rest = events.drop_first();
        assert(!speaks_of_boot(events[0]));
        assert forall|i: int| 0 <= i < at - 1 implies !speaks_of_boot(#[trigger] rest[i]) by {
            assert(rest[i] == events[i + 1]);
        }
        law_first_word_on_the_boot_decides(rest, at - 1);
    }
}

/// The first event that speaks of a fork decides: it gives the process ID of a fork that
/// was answered, and says why where there was none; where no event speaks of it, there is
/// no process ID.
pub proof fn law_first_word_on_the_fork_decides(events: Seq<LoaderEvent>, at: int)
    requires
        0 <= at <= events.len(),
        forall|i: int| 0 <= i < at ==> !speaks_of_fork(#[trigger] events[i]),
        at < events.len() ==> speaks_of_fork(events[at]),
    ensures
        at == events.len() ==> fork_outcome(events) == Ok::<Option<i32>, Seq<char>>(None),
        at < events.len() ==> match events[at] {
            LoaderEvent::Message(Message::ForkResponse(response)) => fork_outcome(events) == Ok::<
                Option<i32>,
                Seq<char>,
            >(Some(response.child_pid)),
            LoaderEvent::Message(Message::ChildError(error)) => fork_outcome(events) == Err::<
                Option<i32>,
                Seq<char>,
            >("Fork error: "@ + error.error@),
            LoaderEvent::ReadError(why) => fork_outcome(events) == Err::<Option<i32>, Seq<char>>(
                "Failed to read line: "@ + why@,
            ),
            _ => false,
        },
    decreases at,
{
    if at > 0 {
        let rest = events.drop_first();
        assert(!speaks_of_fork(events[0]));
        assert forall|i: int| 0 <= i < at - 1 implies !speaks_of_fork(#[trigger] rest[i]) by {
            assert(rest[i] == events[i + 1]);
        }
        law_first_word_on_the_fork_decides(rest, at - 1);
    }
}

/// An event decides the loading of the imports exactly if it speaks of it, and then as a
/// list that holds nothing else; and likewise for a fork.
pub proof fn law_single_events_decide_as_lists_of_one(event: LoaderEvent)
    ensures
        boot_verdict(event) is Some <==> speaks_of_boot(event),
        speaks_of_boot(event) ==> boot_verdict(event) == Some(booted(seq![event])),
        fork_verdict(event) is Some <==> speaks_of_fork(event),
        speaks_of_fork(event) ==> match fork_verdict(event)->0 {
            Ok(pid) => fork_outcome(seq![event]) == Ok::<Option<i32>, Seq<char>>(Some(pid)),
            Err(why) => fork_outcome(seq![event]) == Err::<Option<i32>, Seq<char>>(why),
        },
{
    assert(seq![event][0] == event);
}

/// An outcome stands for its value, or for all of the text of its error.
pub proof fn law_outcome_is_its_value_or_its_error<T>(outcome: Result<T, String>)
    ensures
        match outcome {
            Ok(value) => outcome_view(outcome) == Ok::<T, Seq<char>>(value),
            Err(why) => outcome_view(outcome) == Err::<T, Seq<char>>(why@),
        },
{
}

/// The banner shows the time and the identifier, and the time in seconds above a second;
/// up to a second the seconds are not shown.
pub proof fn law_banner_shows_time_and_identifier(
    elapsed_ms: nat,
    seconds: Seq<char>,
    other: Seq<char>,
    id: Seq<char>,
)
    ensures
        ({
            let start = "\n\x1b[1m\x1b[32m\u{2713}\x1b[39m\x1b[0m \x1b[1m\x1b[37mImport environment booted in\x1b[39m\x1b[0m \x1b[1m\x1b[33m"@;
            let unit = "\x1b[39m\x1b[0m \x1b[1m\x1b[37mms\x1b[39m\x1b[0m"@;
            let in_seconds = if elapsed_ms > 1000 {
                " \x1b[3m\x1b[36m"@ + seconds + "\x1b[39m\x1b[0m"@
            } else {
                Seq::<char>::empty()
            };
            banner(elapsed_ms, seconds, id) == start + decimal(elapsed_ms) + unit + in_seconds
                + " \x1b[1m\x1b[37mwith ID: "@ + id + "\x1b[39m\x1b[0m\n"@
        }),
        elapsed_ms <= 1000 ==> banner(elapsed_ms, seconds, id) == banner(elapsed_ms, other, id),
{
    reveal_strlit("\n\x1b[1m\x1b[32m\u{2713}\x1b[39m\x1b[0m \x1b[1m\x1b[37mImport environment booted in\x1b[39m\x1b[0m \x1b[1m\x1b[33m");
    reveal_strlit("\x1b[39m\x1b[0m \x1b[1m\x1b[37mms\x1b[39m\x1b[0m");
    reveal_strlit(" \x1b[3m\x1b[36m");
    reveal_strlit("\x1b[39m\x1b[0m");
    reveal_strlit(" \x1b[1m\x1b[37mwith ID: ");
    reveal_strlit("\x1b[39m\x1b[0m\n");
    reveal_strlit("\n");
    reveal_strlit(" ");
    reveal_strlit("\u{2713}");
    reveal_strlit("Import environment booted in");
    reveal_strlit("ms");
    reveal_strlit("with ID: ");
    reveal_strlit("\x1b[1m");
    reveal_strlit("\x1b[0m");
    reveal_strlit("\x1b[3m");
    reveal_strlit("\x1b[32m");
    reveal_strlit("\x1b[33m");
    reveal_strlit("\x1b[36m");
    reveal_strlit("\x1b[37m");
    reveal_strlit("\x1b[39m");
    let start = "\n\x1b[1m\x1b[32m\u{2713}\x1b[39m\x1b[0m \x1b[1m\x1b[37mImport environment booted in\x1b[39m\x1b[0m \x1b[1m\x1b[33m"@;
    let unit = "\x1b[39m\x1b[0m \x1b[1m\x1b[37mms\x1b[39m\x1b[0m"@;
    let in_seconds = if elapsed_ms > 1000 {
        " \x1b[3m\x1b[36m"@ + seconds + "\x1b[39m\x1b[0m"@
    } else {
        Seq::<char>::empty()
    };
    assert(banner(elapsed_ms, seconds, id) =~= start + decimal(elapsed_ms) + unit + in_seconds
        + " \x1b[1m\x1b[37mwith ID: "@ + id + "\x1b[39m\x1b[0m\n"@);
}

} // verus!
