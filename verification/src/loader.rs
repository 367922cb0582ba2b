//! The conversation with a loader process: what it is told to import, and what its
//! answers decide.
use vstd::prelude::*;

use crate::messages::Message;
use crate::module_set::ModuleSet;
use crate::style::{bold, cyan, green, italic, styled, white, yellow};
use crate::text::{decimal, decimal_text, joined, view_of};

verus! {

/// What is read from a loader process: one for each line of its output.
#[derive(Debug)]
pub enum LoaderEvent {
    /// A line that is a message.
    Message(Message),
    /// A line that is not a message.
    Output,
    /// The line could not be read; the text says why.
    ReadError(String),
}

/// The code that imports the modules, in their order.
pub open spec fn import_code(modules: Seq<Seq<char>>) -> Seq<char>
    decreases modules.len(),
{
    if modules.len() == 0 {
        Seq::empty()
    } else {
        import_code(modules.drop_last()) + "__import__('"@ + modules.last() + "')\n"@
    }
}

/// The code that imports the modules, in the order in which they came.
pub fn import_lines(modules: &ModuleSet) -> (code: String)
    ensures
        code@ == import_code(modules.listed()),
{
    let ghost names = modules.listed();
    let mut code = String::new();
    let mut at: usize = 0;
    while at < modules.len()
        invariant
            at <= names.len(),
            names == modules.listed(),
            code@ == import_code(names.take(at as int)),
        decreases names.len() - at,
    {
        let line = joined("__import__('", modules.name_at(at).as_str());
        let line = joined(line.as_str(), "')\n");
        let ghost before = code@;
        code = joined(code.as_str(), line.as_str());
        proof {
            let longer = names.take(at + 1);
            assert(longer.drop_last() =~= names.take(at as int));
            assert(code@ =~= before + "__import__('"@ + longer.last() + "')\n"@);
        }
        at = at + 1;
    }
    assert(names.take(at as int) =~= names);
    code
}

/// The text of a traceback, which is empty where there is none.
pub open spec fn traceback_text(traceback: Option<Seq<char>>) -> Seq<char> {
    match traceback {
        Some(traceback) => traceback,
        None => Seq::empty(),
    }
}

/// Whether an event decides that the imports were loaded, or that they were not and
/// why.
pub open spec fn boot_verdict(event: LoaderEvent) -> Option<Result<(), Seq<char>>> {
    match event {
        LoaderEvent::Message(Message::ImportComplete(_)) => Some(Ok(())),
        LoaderEvent::Message(Message::ImportError(error)) => Some(
            Err(
                "Import error: "@ + error.error@ + ": "@ + traceback_text(
                    view_of(error.traceback),
                ),
            ),
        ),
        LoaderEvent::ReadError(why) => Some(Err("Failed to read line: "@ + why@)),
        _ => None,
    }
}

/// Whether the imports were loaded, as the first event that decides it says. Where
/// the output ends without one, they were not.
pub open spec fn booted(events: Seq<LoaderEvent>) -> Result<(), Seq<char>>
    decreases events.len(),
{
    if events.len() == 0 {
        Err("Python loader did not report successful imports"@)
    } else {
        match boot_verdict(events[0]) {
            Some(verdict) => verdict,
            None => booted(events.drop_first()),
        }
    }
}

/// Whether an event decides that a process was forked, with its process ID, or that
/// none was and why.
pub open spec fn fork_verdict(event: LoaderEvent) -> Option<Result<i32, Seq<char>>> {
    match event {
        LoaderEvent::Message(Message::ForkResponse(response)) => Some(Ok(response.child_pid)),
        LoaderEvent::Message(Message::ChildError(error)) => Some(
            Err("Fork error: "@ + error.error@),
        ),
        LoaderEvent::ReadError(why) => Some(Err("Failed to read line: "@ + why@)),
        _ => None,
    }
}

/// The process ID that the first event that decides it gives. Where the output ends
/// without one, there is no process ID.
pub open spec fn fork_outcome(events: Seq<LoaderEvent>) -> Result<Option<i32>, Seq<char>>
    decreases events.len(),
{
    if events.len() == 0 {
        Ok(None)
    } else {
        match fork_verdict(events[0]) {
            Some(Ok(pid)) => Ok(Some(pid)),
            Some(Err(why)) => Err(why),
            None => fork_outcome(events.drop_first()),
        }
    }
}

/// What a result with a text for its error stands for.
pub open spec fn outcome_view<T>(outcome: Result<T, String>) -> Result<T, Seq<char>> {
    match outcome {
        Ok(value) => Ok(value),
        Err(why) => Err(why@),
    }
}

/// What an event decides of the loading of the imports, if anything.
pub fn boot_step(event: &LoaderEvent) -> (verdict: Option<Result<(), String>>)
    ensures
        match verdict {
            Some(verdict) => boot_verdict(*event) == Some(outcome_view(verdict)),
            None => boot_verdict(*event) is None,
        },
{
    match event {
        LoaderEvent::Message(Message::ImportComplete(_)) => Some(Ok(())),
        LoaderEvent::Message(Message::ImportError(error)) => {
            let start = joined(
                joined("Import error: ", error.error.as_str()).as_str(),
                ": ",
            );
            let text = match &error.traceback {
                Some(traceback) => joined(start.as_str(), traceback.as_str()),
                None => {
                    assert(start@ + Seq::<char>::empty() =~= start@);
                    start
                },
            };
            Some(Err(text))
        },
        LoaderEvent::ReadError(why) => Some(Err(joined("Failed to read line: ", why.as_str()))),
        _ => None,
    }
}

/// What the output of a loader process says of the loading of the imports.
pub fn boot_outcome(events: &Vec<LoaderEvent>) -> (outcome: Result<(), String>)
    ensures
        outcome_view(outcome) == booted(events@),
{
    let mut at: usize = 0;
    assert(events@.skip(0) =~= events@);
    while at < events.len()
        invariant
            at <= events@.len(),
            booted(events@) == booted(events@.skip(at as int)),
        decreases events@.len() - at,
    {
        assert(events@.skip(at as int).drop_first() =~= events@.skip(at + 1));
        if let Some(verdict) = boot_step(&events[at]) {
            return verdict;
        }
        at = at + 1;
    }
    Err("Python loader did not report successful imports".to_owned())
}

/// What an event decides of a fork, if anything.
pub fn fork_step(event: &LoaderEvent) -> (verdict: Option<Result<i32, String>>)
    ensures
        match verdict {
            Some(verdict) => fork_verdict(*event) == Some(outcome_view(verdict)),
            None => fork_verdict(*event) is None,
        },
{
    match event {
        LoaderEvent::Message(Message::ForkResponse(response)) => Some(Ok(response.child_pid)),
        LoaderEvent::Message(Message::ChildError(error)) => Some(
            Err(joined("Fork error: ", error.error.as_str())),
        ),
        LoaderEvent::ReadError(why) => Some(Err(joined("Failed to read line: ", why.as_str()))),
        _ => None,
    }
}

/// The process ID that the output of a loader process gives, if any.
pub fn forked_pid(events: &Vec<LoaderEvent>) -> (outcome: Result<Option<i32>, String>)
    ensures
        outcome_view(outcome) == fork_outcome(events@),
{
    let mut at: usize = 0;
    assert(events@.skip(0) =~= events@);
    while at < events.len()
        invariant
            at <= events@.len(),
            fork_outcome(events@) == fork_outcome(events@.skip(at as int)),
        decreases events@.len() - at,
    {
        assert(events@.skip(at as int).drop_first() =~= events@.skip(at + 1));
        match fork_step(&events[at]) {
            Some(Ok(pid)) => {
                return Ok(Some(pid));
            },
            Some(Err(why)) => {
                return Err(why);
            },
            None => {},
        }
        at = at + 1;
    }
    Ok(None)
}

/// The code that a forked process executes: `pickled_data` as a string, and the
/// script that runs it.
pub open spec fn isolated_code(pickled_data: Seq<char>, script: Seq<char>) -> Seq<char> {
    "\npickled_str = \""@ + pickled_data + "\"\n"@ + script + "\n            "@
}

/// The code that a forked process executes.
pub fn exec_code(pickled_data: &str, script: &str) -> (code: String)
    ensures
        code@ == isolated_code(pickled_data@, script@),
{
    let code = joined("\npickled_str = \"", pickled_data);
    let code = joined(code.as_str(), "\"\n");
    let code = joined(code.as_str(), script);
    joined(code.as_str(), "\n            ")
}

/// A text in bold and in a colour, which `colour` starts.
pub open spec fn bold_in(colour: Seq<char>, text: Seq<char>) -> Seq<char> {
    styled("\x1b[1m"@, styled(colour, text, "\x1b[39m"@), "\x1b[0m"@)
}

/// What is shown when the imports were loaded in `elapsed_ms` milliseconds:
/// `seconds` says the same in seconds and is shown from the second second on.
pub open spec fn banner(elapsed_ms: nat, seconds: Seq<char>, id: Seq<char>) -> Seq<char> {
    let in_seconds = if elapsed_ms > 1000 {
        " "@ + styled("\x1b[3m"@, styled("\x1b[36m"@, seconds, "\x1b[39m"@), "\x1b[0m"@)
    } else {
        Seq::empty()
    };
    "\n"@ + bold_in("\x1b[32m"@, "\u{2713}"@) + " "@ + bold_in(
        "\x1b[37m"@,
        "Import environment booted in"@,
    ) + " "@ + bold_in("\x1b[33m"@, decimal(elapsed_ms)) + " "@ + bold_in("\x1b[37m"@, "ms"@)
        + in_seconds + " "@ + bold_in("\x1b[37m"@, "with ID: "@ + id) + "\n"@
}

/// What is shown when the imports were loaded.
pub fn boot_banner(elapsed_ms: u128, seconds: &str, id: &str) -> (text: String)
    ensures
        text@ == banner(elapsed_ms as nat, seconds@, id@),
{
    let text = joined("\n", bold(green("\u{2713}").as_str()).as_str());
    let text = joined(text.as_str(), " ");
    let part = bold(white("Import environment booted in").as_str());
    let text = joined(text.as_str(), part.as_str());
    let text = joined(text.as_str(), " ");
    let part = bold(yellow(decimal_text(elapsed_ms).as_str()).as_str());
    let text = joined(text.as_str(), part.as_str());
    let text = joined(text.as_str(), " ");
    let text = joined(text.as_str(), bold(white("ms").as_str()).as_str());
    let in_seconds = if elapsed_ms > 1000 {
        joined(" ", italic(cyan(seconds).as_str()).as_str())
    } else {
        String::new()
    };
    let text = joined(text.as_str(), in_seconds.as_str());
    let text = joined(text.as_str(), " ");
    let part = bold(white(joined("with ID: ", id).as_str()).as_str());
    let text = joined(text.as_str(), part.as_str());
    joined(text.as_str(), "\n")
}

/// The signals by which a process is stopped.
#[derive(Debug, Clone, Copy, PartialEq, Eq, Structural)]
pub enum Signal {
    Terminate,
    Kill,
}

/// The signal to send to a process that is to be stopped, after the signal that was
/// sent last, if any: it is asked to end, and killed where it could not be asked.
pub fn next_signal(last: Option<Signal>, delivered: bool) -> (signal: Option<Signal>)
    ensures
        signal == match last {
            None => Some(Signal::Terminate),
            Some(Signal::Terminate) => if delivered {
                None
            } else {
                Some(Signal::Kill)
            },
            Some(Signal::Kill) => None,
        },
{
    match last {
        None => Some(Signal::Terminate),
        Some(Signal::Terminate) => if delivered {
            None
        } else {
            Some(Signal::Kill)
        },
        Some(Signal::Kill) => None,
    }
}

/// What comes behind the event that decides the loading of the imports changes
/// nothing.
pub proof fn law_boot_decides_once(events: Seq<LoaderEvent>, more: Seq<LoaderEvent>)
    requires
        exists|i: int| 0 <= i < events.len() && boot_verdict(#[trigger] events[i]) is Some,
    ensures
        booted(events + more) == booted(events),
    decreases events.len(),
{
    assert((events + more)[0] == events[0]);
    if boot_verdict(events[0]) is None {
        let i = choose|i: int| 0 <= i < events.len() && boot_verdict(#[trigger] events[i]) is Some;
        assert(events.drop_first()[i - 1] == events[i]);
        law_boot_decides_once(events.drop_first(), more);
        assert((events + more).drop_first() =~= events.drop_first() + more);
    }
}

/// What comes behind the event that decides a fork changes nothing.
pub proof fn law_fork_decides_once(events: Seq<LoaderEvent>, more: Seq<LoaderEvent>)
    requires
        exists|i: int| 0 <= i < events.len() && fork_verdict(#[trigger] events[i]) is Some,
    ensures
        fork_outcome(events + more) == fork_outcome(events),
    decreases events.len(),
{
    assert((events + more)[0] == events[0]);
    if fork_verdict(events[0]) is None {
        let i = choose|i: int| 0 <= i < events.len() && fork_verdict(#[trigger] events[i]) is Some;
        assert(events.drop_first()[i - 1] == events[i]);
        law_fork_decides_once(events.drop_first(), more);
        assert((events + more).drop_first() =~= events.drop_first() + more);
    }
}

} // verus!
