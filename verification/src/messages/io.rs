//! How messages stand in a stream: one to a line.
use vstd::prelude::*;

use crate::text::view_of;

verus! {

/// The line that carries a message whose encoded form is `json`.
pub open spec fn message_line(json: Seq<char>) -> Seq<char> {
    json.push('\n')
}

/// The encoded message in what was read from a stream, if anything was read.
pub open spec fn message_in(buffer: Seq<char>) -> Option<Seq<char>> {
    if buffer.len() == 0 {
        None
    } else {
        Some(buffer)
    }
}

/// The line that carries a message whose encoded form is `json`.
pub fn write_message(json: &str) -> (line: String)
    ensures
        line@ == message_line(json@),
{
    let mut line = json.to_owned();
    line.push('\n');
    line
}

/// The encoded message in what was read from a stream up to its end; there is none
/// where nothing was read.
pub fn read_message(buffer: &str) -> (json: Option<String>)
    ensures
        view_of(json) == message_in(buffer@),
{
    if buffer.is_empty() {
        None
    } else {
        Some(buffer.to_owned())
    }
}

/// A message that was written reads back, with nothing but the end of its line behind
/// it.
pub proof fn law_written_message_reads_back(json: Seq<char>)
    ensures
        message_in(message_line(json)) == Some(json.push('\n')),
{
}

} // verus!
