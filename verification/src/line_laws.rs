//! What holds of lines of output, of process IDs, and of whose they are.
use vstd::prelude::*;

use crate::multiplex_logs::{
    line_view, parsed_line, pid_error_text, pid_of, sole_colon, written_line,
    LogLine, LogLineFault, MultiplexedLogLine, MultiplexedLogLineError, PidError,
};
use crate::multiplex_logs::{is_digit, leading_digits, number, unsigned};
use crate::processes::{first_owner, table_pid};
use crate::text::{first_at, lemma_first_at, lemma_is_first_at, stands_at};

verus! {

/// A process ID that fits stands in the table as the number that it is, and one that does
/// not wraps round; two different ones never share an entry.
pub proof fn law_table_holds_the_pid(pid: u32, other: u32)
    ensures
        pid <= i32::MAX ==> table_pid(pid) as int == pid as int,
        pid > i32::MAX ==> table_pid(pid) as int == pid as int - 0x1_0000_0000,
        table_pid(pid) == table_pid(other) ==> pid == other,
{
}

/// The process ID that a loader reports is the entry under which lines with that number
/// are looked up.
pub proof fn law_reported_pid_is_looked_up(child_pid: i32)
    requires
        child_pid >= 0,
    ensures
        table_pid(child_pid as u32) == child_pid,
{
}

/// The owner of a process ID is the first process that has it.
pub proof fn law_owner_is_the_first_holder(
    keys: Seq<Seq<char>>,
    processes: Map<Seq<char>, i32>,
    pid: i32,
    at: int,
)
    requires
        0 <= at < keys.len(),
        processes[keys[at]] == pid,
        forall|i: int| 0 <= i < at ==> processes[#[trigger] keys[i]] != pid,
    ensures
        first_owner(keys, processes, pid) == Some(keys[at]),
    decreases at,
{
    if at > 0 {
        let rest = keys.drop_first();
        assert(processes[keys[0]] != pid);
        assert forall|i: int| 0 <= i < at - 1 implies processes[#[trigger] rest[i]] != pid by {
            assert(rest[i] == keys[i + 1]);
        }
        law_owner_is_the_first_holder(rest, processes, pid, at - 1);
    }
}

/// A line that is written is its five parts.
pub proof fn law_written_line_is_its_parts(
    pid: Seq<char>,
    stream_name: Seq<char>,
    content: Seq<char>,
)
    ensures
        ({
            let line = written_line(pid, stream_name, content);
            let colon: int = 5 + pid.len() as int;
            let close: int = colon + 1 + stream_name.len() as int;
            &&& line.len() == close + 2 + content.len()
            &&& line.subrange(0, 5) == seq!['[', 'P', 'I', 'D', ':']
            &&& line.subrange(5, colon) == pid
            &&& line[colon] == ':'
            &&& line.subrange(colon + 1, close) == stream_name
            &&& line[close] == ']'
            &&& line[close + 1] == ' '
            &&& line.skip(close + 2) == content
        }),
{
    reveal_strlit("[PID:");
    reveal_strlit(":");
    reveal_strlit("] ");
    let line = written_line(pid, stream_name, content);
    let colon: int = 5 + pid.len() as int;
    let close: int = colon + 1 + stream_name.len() as int;
    assert(line.subrange(0, 5) =~= seq!['[', 'P', 'I', 'D', ':']);
    assert(line.subrange(5, colon) =~= pid);
    assert(line.subrange(colon + 1, close) =~= stream_name);
    assert(line.skip(close + 2) =~= content);
}

/// A line that does not begin with `[PID:` is refused for that.
pub proof fn law_line_without_start_is_refused(line: Seq<char>)
    requires
        !(line.len() >= 5 && line[0] == '[' && line[1] == 'P' && line[2] == 'I' && line[3] == 'D'
            && line[4] == ':'),
    ensures
        parsed_line(line) == Err::<LogLine, LogLineFault>(
            LogLineFault::InvalidFormat("Line does not start with [PID:"@),
        ),
{
    reveal_strlit("[PID:");
    let start = "[PID:"@;
    if start.is_prefix_of(line) {
        let head = line.subrange(0, 5);
        assert(head == start);
        assert(head[0] == line[0] && head[1] == line[1] && head[2] == line[2] && head[3] == line[3]
            && head[4] == line[4]);
    }
}

/// A line that begins with `[PID:` and holds no `]` before a space is refused for that.
pub proof fn law_line_without_end_of_prefix_is_refused(line: Seq<char>)
    requires
        line.len() >= 5,
        line.subrange(0, 5) == "[PID:"@,
        forall|i: int| 0 <= i < line.len() - 1 ==> !(#[trigger] line[i] == ']' && line[i + 1] == ' '),
    ensures
        parsed_line(line) == Err::<LogLine, LogLineFault>(
            LogLineFault::InvalidFormat("Missing closing bracket after prefix"@),
        ),
{
    reveal_strlit("[PID:");
    reveal_strlit("] ");
    lemma_first_at(line, "] "@, 0);
    if let Some(place) = first_at(line, "] "@, 0) {
        let part = line.subrange(place, place + 2);
        assert(part[0] == line[place] && part[1] == line[place + 1]);
    }
}

proof fn lemma_close_of_prefix(prefix: Seq<char>, content: Seq<char>)
    requires
        forall|i: int|
            0 <= i < prefix.len() - 1 ==> !(#[trigger] prefix[i] == ']' && prefix[i + 1] == ' '),
    ensures
        ({
            let line = "[PID:"@ + prefix + "] "@ + content;
            &&& "[PID:"@.is_prefix_of(line)
            &&& first_at(line, "] "@, 0) == Some(5 + prefix.len() as int)
            &&& line.subrange(5, 5 + prefix.len() as int) == prefix
            &&& line.skip(5 + prefix.len() as int + 2) == content
        }),
{
    reveal_strlit("[PID:");
    reveal_strlit("] ");
    let line = "[PID:"@ + prefix + "] "@ + content;
    let close: int = 5 + prefix.len() as int;
    assert("[PID:"@ =~= line.subrange(0, 5));
    assert(line.subrange(close, close + 2) =~= "] "@);
    assert forall|i: int| 0 <= i < close implies !stands_at(line, i, "] "@) by {
        if stands_at(line, i, "] "@) {
            let part = line.subrange(i, i + 2);
            assert(part[0] == line[i] && part[1] == line[i + 1]);
            if i >= 5 {
                assert(line[i] == prefix[i - 5]);
                if i + 1 < close {
                    assert(line[i + 1] == prefix[i - 4]);
                }
            }
        }
    }
    lemma_is_first_at(line, "] "@, 0, close);
    assert(line.subrange(5, close) =~= prefix);
    assert(line.skip(close + 2) =~= content);
}

/// The prefix of a line is split at its only colon: the process ID has to be one, and the
/// stream has to have a name. Whatever the prefix is, all of the content is kept.
pub proof fn law_prefix_is_split_at_its_colon(
    pid: Seq<char>,
    stream_name: Seq<char>,
    content: Seq<char>,
)
    requires
        !pid.contains(':'),
        !stream_name.contains(':'),
        forall|i: int|
            0 <= i < (pid + ":"@ + stream_name).len() - 1 ==> !(#[trigger] (pid + ":"@
                + stream_name)[i] == ']' && (pid + ":"@ + stream_name)[i + 1] == ' '),
    ensures
        ({
            let line = "[PID:"@ + pid + ":"@ + stream_name + "] "@ + content;
            match pid_of(pid) {
                Err(why) => parsed_line(line) == Err::<LogLine, LogLineFault>(
                    LogLineFault::PidParseError(why),
                ),
                Ok(number) => if stream_name.len() == 0 {
                    parsed_line(line) == Err::<LogLine, LogLineFault>(
                        LogLineFault::MissingComponent("Stream name is empty"@),
                    )
                } else {
                    &&& parsed_line(line) is Ok
                    &&& parsed_line(line)->Ok_0.pid == number
                    &&& parsed_line(line)->Ok_0.stream_name == stream_name
                    &&& parsed_line(line)->Ok_0.content == content
                },
            }
        }),
{
    reveal_strlit(":");
    let prefix = pid + ":"@ + stream_name;
    let line = "[PID:"@ + pid + ":"@ + stream_name + "] "@ + content;
    assert(line =~= "[PID:"@ + prefix + "] "@ + content);
    lemma_close_of_prefix(prefix, content);
    let colon = pid.len() as int;
    assert(sole_colon(prefix, colon)) by {
        assert forall|i: int| 0 <= i < prefix.len() implies (#[trigger] prefix[i] == ':' <==> i
            == colon) by {
            if i < colon {
                assert(prefix[i] == pid[i]);
                assert(pid.contains(pid[i]));
            } else if i > colon {
                assert(prefix[i] == stream_name[i - colon - 1]);
                assert(stream_name.contains(stream_name[i - colon - 1]));
            }
        }
    }
    let at = choose|at: int| sole_colon(prefix, at);
    assert(prefix[at] == ':' && prefix[colon] == ':');
    assert(prefix.take(colon) =~= pid);
    assert(prefix.skip(colon + 1) =~= stream_name);
}

/// A prefix without a colon, or with two of them, is refused, and all of it is shown.
pub proof fn law_prefix_without_a_sole_colon_is_refused(prefix: Seq<char>, content: Seq<char>)
    requires
        !prefix.contains(':') || exists|i: int, j: int|
            0 <= i < j < prefix.len() && #[trigger] prefix[i] == ':' && #[trigger] prefix[j] == ':',
        forall|i: int|
            0 <= i < prefix.len() - 1 ==> !(#[trigger] prefix[i] == ']' && prefix[i + 1] == ' '),
    ensures
        parsed_line("[PID:"@ + prefix + "] "@ + content) == Err::<LogLine, LogLineFault>(
            LogLineFault::InvalidFormat(
                "Expected format [PID:pid:stream_name], got [PID:"@ + prefix + "]"@,
            ),
        ),
{
    lemma_close_of_prefix(prefix, content);
    if exists|at: int| sole_colon(prefix, at) {
        let at = choose|at: int| sole_colon(prefix, at);
        assert(prefix[at] == ':');
        assert(prefix.contains(':'));
        let (i, j): (int, int) = choose|i: int, j: int|
            0 <= i < j < prefix.len() && #[trigger] prefix[i] == ':' && #[trigger] prefix[j]
                == ':';
        assert(i == at && j == at);
    }
}

proof fn lemma_all_digits(text: Seq<char>)
    requires
        forall|i: int| 0 <= i < text.len() ==> is_digit(#[trigger] text[i]),
    ensures
        leading_digits(text) == text.len(),
    decreases text.len(),
{
    if text.len() > 0 {
        assert(is_digit(text[0]));
        let rest = text.drop_first();
        assert forall|i: int| 0 <= i < rest.len() implies is_digit(#[trigger] rest[i]) by {
            assert(rest[i] == text[i + 1]);
        }
        lemma_all_digits(rest);
    }
}

proof fn lemma_leading_upto(text: Seq<char>, upto: int)
    requires
        0 <= upto < text.len(),
        forall|i: int| 0 <= i < upto ==> is_digit(#[trigger] text[i]),
        !is_digit(text[upto]),
    ensures
        leading_digits(text) == upto,
    decreases upto,
{
    if upto > 0 {
        assert(is_digit(text[0]));
        let rest = text.drop_first();
        assert forall|i: int| 0 <= i < upto - 1 implies is_digit(#[trigger] rest[i]) by {
            assert(rest[i] == text[i + 1]);
        }
        lemma_leading_upto(rest, upto - 1);
    }
}

/// A digit behind the digits of a process ID makes ten times the ID and the digit, where
/// that fits, and is too large where it does not; a digit alone is its value; a plus sign
/// before digits changes nothing.
pub proof fn law_pid_is_read_digit_by_digit(text: Seq<char>, d: nat)
    requires
        d < 10,
        forall|i: int| 0 <= i < text.len() ==> '0' <= #[trigger] text[i] <= '9',
    ensures
        pid_of(seq![(48 + d) as char]) == Ok::<u32, PidError>(d as u32),
        text.len() > 0 ==> match pid_of(text) {
            Ok(pid) => pid_of(text.push((48 + d) as char)) == if 10 * pid + d <= u32::MAX {
                Ok::<u32, PidError>((10 * pid + d) as u32)
            } else {
                Err(PidError::PosOverflow)
            },
            Err(why) => why == PidError::PosOverflow && pid_of(text.push((48 + d) as char))
                == Err::<u32, PidError>(PidError::PosOverflow),
        },
        text.len() > 0 ==> pid_of(seq!['+'] + text) == pid_of(text),
{
    let c = (48 + d) as char;
    let one = seq![c];
    assert(one.drop_last() =~= Seq::<char>::empty());
    assert(number(one.drop_last()) == 0);
    assert(one.last() == c);
    assert(one[0] == c);
    lemma_all_digits(one);
    assert(one.take(1) =~= one);
    assert(unsigned(one) == one);
    if text.len() > 0 {
        let longer = text.push(c);
        assert('0' <= text[0] <= '9');
        assert forall|i: int| 0 <= i < longer.len() implies is_digit(#[trigger] longer[i]) by {
            if i < text.len() {
                assert(longer[i] == text[i]);
            }
        }
        assert(longer[0] == text[0]);
        lemma_all_digits(text);
        lemma_all_digits(longer);
        assert(text.take(text.len() as int) =~= text);
        assert(longer.take(longer.len() as int) =~= longer);
        assert(longer.drop_last() =~= text);
        assert(number(longer) == number(text) * 10 + d);
        let signed = seq!['+'] + text;
        assert(signed[0] == '+');
        assert(signed.drop_first() =~= text);
        assert(unsigned(signed) == text);
    }
}

/// What is no number is no process ID: nothing at all, and a text in which something else
/// than a digit stands behind digits that fit, whatever comes behind it.
pub proof fn law_other_characters_make_no_pid(digits: Seq<char>, c: char, rest: Seq<char>)
    requires
        forall|i: int| 0 <= i < digits.len() ==> '0' <= #[trigger] digits[i] <= '9',
        digits.len() > 0 ==> pid_of(digits) is Ok,
        !('0' <= c <= '9'),
        digits.len() > 0 || c != '+' || rest.len() == 0,
    ensures
        pid_of(Seq::<char>::empty()) == Err::<u32, PidError>(PidError::Empty),
        pid_of(digits + seq![c] + rest) == Err::<u32, PidError>(PidError::InvalidDigit),
{
    let text = digits + seq![c] + rest;
    let n = digits.len() as int;
    assert(text[n] == c);
    assert forall|i: int| 0 <= i < n implies is_digit(#[trigger] text[i]) by {
        assert(text[i] == digits[i]);
    }
    assert(unsigned(text) == text);
    lemma_leading_upto(text, n);
    assert(text.take(n) =~= digits);
    if n > 0 {
        assert('0' <= digits[0] <= '9');
        lemma_all_digits(digits);
        assert(digits.take(n) =~= digits);
    } else {
        assert(number(digits) == 0);
    }
}

/// The text of each error.
pub proof fn law_texts_of_pid_errors()
    ensures
        pid_error_text(PidError::Empty) == "cannot parse integer from empty string"@,
        pid_error_text(PidError::InvalidDigit) == "invalid digit found in string"@,
        pid_error_text(PidError::PosOverflow) == "number too large to fit in target type"@,
{
}

/// A parsed line and an error stand for what they hold.
pub proof fn law_parsed_line_is_what_it_holds(
    line: MultiplexedLogLine,
    error: MultiplexedLogLineError,
)
    ensures
        line_view(Ok(line)) == Ok::<LogLine, LogLineFault>(
            LogLine { pid: line.pid, stream_name: line.stream_name@, content: line.content@ },
        ),
        line_view(Err(error)) == Err::<LogLine, LogLineFault>(
            match error {
                MultiplexedLogLineError::InvalidFormat(why) => LogLineFault::InvalidFormat(why@),
                MultiplexedLogLineError::PidParseError(why) => LogLineFault::PidParseError(why),
                MultiplexedLogLineError::MissingComponent(why) => LogLineFault::MissingComponent(
                    why@,
                ),
            },
        ),
{
}

} // verus!
