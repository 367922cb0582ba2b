//! What holds of the registry of the runners, of captured output, of messages in a stream,
//! and of a value that several wait for.
use vstd::prelude::*;

use crate::ast::{fault_text, scanned, FileFacts, Project};
use crate::async_resolve::{after, Step};
use crate::messages::io::{message_in, message_line};
use crate::messages::{type_of, Message, MessageType};
use crate::package_name::detected_name;
use crate::redirect::{captured_of, goes_on, PipeRead};
use crate::runners::{explained, no_runner, package_scan, ImportRunners};

verus! {

/// A runner that is not there is named in full, and an error is explained by what stands
/// before it, all of it kept; what is no error is kept as it is.
pub proof fn law_errors_of_the_registry_are_told_in_full<T>(
    id: Seq<char>,
    start: Seq<char>,
    value: T,
    why: Seq<char>,
)
    ensures
        no_runner(id) == "No import runner found with ID: "@ + id,
        explained(start, Ok::<T, Seq<char>>(value)) == Ok::<T, Seq<char>>(value),
        explained(start, Err::<T, Seq<char>>(why)) == Err::<T, Seq<char>>(start + why),
{
}

/// The scan of a package finds what a scan of its files finds that starts from nothing
/// known, under the name that the project gives; a fault goes before a missing name.
pub proof fn law_package_scan_starts_from_nothing(project: Project)
    ensures
        ({
            let name = detected_name(
                project.top.files@,
                match project.top.directory {
                    Some(directory) => Some(directory@),
                    None => None,
                },
            );
            match scanned(Map::<Seq<char>, FileFacts>::empty(), name, project.sources@).1 {
                Ok(modules) => package_scan(project) == if name is Some {
                    Ok::<Set<Seq<char>>, Seq<char>>(modules)
                } else {
                    Err("Could not determine package name"@)
                },
                Err(fault) => package_scan(project) == Err::<Set<Seq<char>>, Seq<char>>(
                    "Failed to process Python files: "@ + fault_text(fault),
                ),
            }
        }),
{
}

/// Whatever is done to one runner, every other runner stays what it is.
pub proof fn law_other_runners_stay(
    before: ImportRunners,
    later: ImportRunners,
    id: Seq<char>,
    other: Seq<char>,
)
    requires
        before.same_but(later, id),
        other != id,
    ensures
        later.runners@.contains_key(id),
        later.runners@.contains_key(other) == before.runners@.contains_key(other),
        later.runners@[other] == before.runners@[other],
{
    assert(later@.contains_key(other) == before@.contains_key(other));
    assert(later@[other] == before@[other]);
}

/// Bytes that come out of a pipe are captured one behind the other, all of them, up to the
/// end of the stream or the first failure; what comes behind that is not.
pub proof fn law_capture_ends_with_the_stream(
    reads: Seq<PipeRead>,
    more: Seq<PipeRead>,
    bytes: Vec<u8>,
    end: PipeRead,
)
    requires
        forall|i: int|
            0 <= i < reads.len() ==> (#[trigger] reads[i] matches PipeRead::Data(data)
                && data@.len() > 0),
        bytes@.len() > 0,
        end is Failed || end->Data_0@.len() == 0,
    ensures
        captured_of(reads + more) == captured_of(reads) + captured_of(more),
        captured_of(seq![PipeRead::Data(bytes)]) == bytes@,
        captured_of(seq![end] + more) == Seq::<u8>::empty(),
        captured_of(Seq::<PipeRead>::empty()) == Seq::<u8>::empty(),
        goes_on(PipeRead::Data(bytes)),
        !goes_on(end),
    decreases reads.len(),
{
    let one = seq![PipeRead::Data(bytes)];
    assert(one[0] == PipeRead::Data(bytes));
    assert(one.drop_first() =~= Seq::<PipeRead>::empty());
    assert(captured_of(one.drop_first()) =~= Seq::<u8>::empty());
    assert(captured_of(one) =~= bytes@);
    assert((seq![end] + more)[0] == end);
    if reads.len() == 0 {
        assert(reads + more =~= more);
        assert(captured_of(reads) + captured_of(more) =~= captured_of(more));
    } else {
        let rest = reads.drop_first();
        assert(reads[0] is Data);
        assert forall|i: int| 0 <= i < rest.len() implies (#[trigger] rest[i] matches PipeRead::Data(
            data,
        ) && data@.len() > 0) by {
            assert(rest[i] == reads[i + 1]);
        }
        law_capture_ends_with_the_stream(rest, more, bytes, end);
        assert((reads + more)[0] == reads[0]);
        assert((reads + more).drop_first() =~= rest + more);
        assert(captured_of(reads + more) =~= captured_of(reads) + captured_of(more));
    }
}

/// A message stands in a stream as a line of its own, all of it; and what was read is the
/// message, unless nothing was read.
pub proof fn law_message_is_a_line(json: Seq<char>, buffer: Seq<char>)
    ensures
        message_line(json).len() == json.len() + 1,
        message_line(json).take(json.len() as int) == json,
        message_line(json).last() == '\n',
        buffer.len() > 0 ==> message_in(buffer) == Some(buffer),
        message_in(Seq::<char>::empty()) is None,
{
    assert(message_line(json).take(json.len() as int) =~= json);
}

/// Each kind of message has a type of its own.
pub proof fn law_each_message_has_its_type(message: Message)
    ensures
        message is ForkRequest <==> type_of(message) == MessageType::ForkRequest,
        message is ForkResponse <==> type_of(message) == MessageType::ForkResponse,
        message is ChildComplete <==> type_of(message) == MessageType::ChildComplete,
        message is ChildError <==> type_of(message) == MessageType::ChildError,
        message is UnknownCommand <==> type_of(message) == MessageType::UnknownCommand,
        message is UnknownError <==> type_of(message) == MessageType::UnknownError,
        message is ImportError <==> type_of(message) == MessageType::ImportError,
        message is ImportComplete <==> type_of(message) == MessageType::ImportComplete,
        message is ExitRequest <==> type_of(message) == MessageType::ExitRequest,
{
}

/// What is stored is there at once, whether or not those who wait were told; to tell them
/// changes no value; and nothing is there before something was stored.
pub proof fn law_stored_value_is_there<T>(steps: Seq<Step<T>>, value: T)
    ensures
        after(Seq::<Step<T>>::empty()) == (None::<T>, false),
        after(steps.push(Step::Store(value))) == (Some(value), after(steps).1),
        after(steps.push(Step::Complete)) == (after(steps).0, true),
{
    assert(steps.push(Step::Store(value)).drop_last() =~= steps);
    assert(steps.push(Step::Complete).drop_last() =~= steps);
}

} // verus!
