//! The lines into which the outputs of several processes are multiplexed.
use vstd::prelude::*;

use crate::text::{
    chars_of, decimal, digit, find, first_at, joined, lemma_first_at, lemma_is_first_at, stands_at,
    starts_with, text_between,
};

verus! {

/// Represents the parsed components of a multiplexed log line
#[derive(Debug, PartialEq)]
pub struct MultiplexedLogLine {
    /// Process ID that generated the log
    pub pid: u32,
    /// Stream name (stdout or stderr)
    pub stream_name: String,
    /// The actual log content (without the prefix)
    pub content: String,
}

/// What a `MultiplexedLogLine` stands for.
pub struct LogLine {
    pub pid: u32,
    pub stream_name: Seq<char>,
    pub content: Seq<char>,
}

impl View for MultiplexedLogLine {
    type V = LogLine;

    open spec fn view(&self) -> LogLine {
        LogLine { pid: self.pid, stream_name: self.stream_name@, content: self.content@ }
    }
}

impl Clone for MultiplexedLogLine {
    fn clone(&self) -> (line: Self)
        ensures
            line@ == self@,
    {
        MultiplexedLogLine {
            pid: self.pid,
            stream_name: self.stream_name.clone(),
            content: self.content.clone(),
        }
    }
}

/// Why a text is not a process ID.
#[derive(Debug, Clone, Copy, PartialEq, Eq, Structural)]
pub enum PidError {
    /// There is no text.
    Empty,
    /// Something stands in it that is not a digit.
    InvalidDigit,
    /// The number is too large.
    PosOverflow,
}

/// The text of why a text is not a process ID.
pub open spec fn pid_error_text(error: PidError) -> Seq<char> {
    match error {
        PidError::Empty => "cannot parse integer from empty string"@,
        PidError::InvalidDigit => "invalid digit found in string"@,
        PidError::PosOverflow => "number too large to fit in target type"@,
    }
}

impl PidError {
    /// The text of the error.
    pub fn message(&self) -> (text: String)
        ensures
            text@ == pid_error_text(*self),
    {
        match self {
            PidError::Empty => "cannot parse integer from empty string".to_owned(),
            PidError::InvalidDigit => "invalid digit found in string".to_owned(),
            PidError::PosOverflow => "number too large to fit in target type".to_owned(),
        }
    }
}

/// Error types that can occur during parsing of multiplexed log lines
#[derive(Debug)]
pub enum MultiplexedLogLineError {
    InvalidFormat(String),
    PidParseError(PidError),
    MissingComponent(String),
}

/// What a `MultiplexedLogLineError` stands for.
pub enum LogLineFault {
    InvalidFormat(Seq<char>),
    PidParseError(PidError),
    MissingComponent(Seq<char>),
}

impl View for MultiplexedLogLineError {
    type V = LogLineFault;

    open spec fn view(&self) -> LogLineFault {
        match self {
            MultiplexedLogLineError::InvalidFormat(why) => LogLineFault::InvalidFormat(why@),
            MultiplexedLogLineError::PidParseError(why) => LogLineFault::PidParseError(*why),
            MultiplexedLogLineError::MissingComponent(why) => LogLineFault::MissingComponent(why@),
        }
    }
}

impl MultiplexedLogLineError {
    /// The text of the error.
    pub fn message(&self) -> (text: String)
        ensures
            text@ == match self@ {
                LogLineFault::InvalidFormat(why) => "Invalid log format: "@ + why,
                LogLineFault::PidParseError(why) => "Failed to parse PID: "@ + pid_error_text(why),
                LogLineFault::MissingComponent(why) => "Missing component: "@ + why,
            },
    {
        match self {
            MultiplexedLogLineError::InvalidFormat(why) => joined(
                "Invalid log format: ",
                why.as_str(),
            ),
            MultiplexedLogLineError::PidParseError(why) => joined(
                "Failed to parse PID: ",
                why.message().as_str(),
            ),
            MultiplexedLogLineError::MissingComponent(why) => joined(
                "Missing component: ",
                why.as_str(),
            ),
        }
    }

    /// The error that this one comes from.
    pub fn source(&self) -> (source: Option<&PidError>)
        ensures
            match source {
                Some(why) => self@ == LogLineFault::PidParseError(*why),
                None => !(self@ is PidParseError),
            },
    {
        match self {
            MultiplexedLogLineError::PidParseError(why) => Some(why),
            _ => None,
        }
    }
}

/// A decimal digit.
pub open spec fn is_digit(c: char) -> bool {
    '0' <= c <= '9'
}

/// The number that a decimal digit stands for.
pub open spec fn digit_value(c: char) -> nat {
    (c as u32 - 48) as nat
}

/// The number that a row of decimal digits stands for.
pub open spec fn number(digits: Seq<char>) -> nat
    decreases digits.len(),
{
    if digits.len() == 0 {
        0
    } else {
        number(digits.drop_last()) * 10 + digit_value(digits.last())
    }
}

/// How many digits `text` begins with.
pub open spec fn leading_digits(text: Seq<char>) -> nat
    decreases text.len(),
{
    if text.len() == 0 || !is_digit(text[0]) {
        0
    } else {
        1 + leading_digits(text.drop_first())
    }
}

/// The text behind the sign that may stand before the digits.
pub open spec fn unsigned(text: Seq<char>) -> Seq<char> {
    if text.len() > 1 && text[0] == '+' {
        text.drop_first()
    } else {
        text
    }
}

/// The process ID that `text` stands for.
pub open spec fn pid_of(text: Seq<char>) -> Result<u32, PidError> {
    let digits = unsigned(text);
    let leading = leading_digits(digits) as int;
    if text.len() == 0 {
        Err(PidError::Empty)
    } else if number(digits.take(leading)) > u32::MAX {
        Err(PidError::PosOverflow)
    } else if leading < digits.len() {
        Err(PidError::InvalidDigit)
    } else {
        Ok(number(digits) as u32)
    }
}

/// Whether the only colon of `prefix` stands at `at`.
pub open spec fn sole_colon(prefix: Seq<char>, at: int) -> bool {
    &&& 0 <= at < prefix.len()
    &&& forall|i: int| 0 <= i < prefix.len() ==> (#[trigger] prefix[i] == ':' <==> i == at)
}

/// What the line `[PID:prefix] content` stands for.
pub open spec fn parsed_parts(prefix: Seq<char>, content: Seq<char>) -> Result<
    LogLine,
    LogLineFault,
> {
    if exists|at: int| sole_colon(prefix, at) {
        let at = choose|at: int| sole_colon(prefix, at);
        match pid_of(prefix.take(at)) {
            Err(why) => Err(LogLineFault::PidParseError(why)),
            Ok(pid) => if at + 1 == prefix.len() {
                Err(LogLineFault::MissingComponent("Stream name is empty"@))
            } else {
                Ok(LogLine { pid, stream_name: prefix.skip(at + 1), content })
            },
        }
    } else {
        Err(
            LogLineFault::InvalidFormat(
                "Expected format [PID:pid:stream_name], got [PID:"@ + prefix + "]"@,
            ),
        )
    }
}

/// What a line stands for.
pub open spec fn parsed_line(line: Seq<char>) -> Result<LogLine, LogLineFault> {
    if !"[PID:"@.is_prefix_of(line) {
        Err(LogLineFault::InvalidFormat("Line does not start with [PID:"@))
    } else {
        match first_at(line, "] "@, 0) {
            None => Err(LogLineFault::InvalidFormat("Missing closing bracket after prefix"@)),
            Some(close) => parsed_parts(line.subrange(5, close), line.skip(close + 2)),
        }
    }
}

/// What the result of parsing a line stands for.
pub open spec fn line_view(
    result: Result<MultiplexedLogLine, MultiplexedLogLineError>,
) -> Result<LogLine, LogLineFault> {
    match result {
        Ok(line) => Ok(line@),
        Err(error) => Err(error@),
    }
}

proof fn lemma_number_grows(digits: Seq<char>, upto: int)
    requires
        0 <= upto <= digits.len(),
    ensures
        number(digits.take(upto)) <= number(digits),
    decreases digits.len(),
{
    if upto == digits.len() {
        assert(digits.take(upto) =~= digits);
    } else {
        lemma_number_grows(digits.drop_last(), upto);
        assert(digits.drop_last().take(upto) =~= digits.take(upto));
    }
}

proof fn lemma_leading_digits(text: Seq<char>, upto: int)
    requires
        0 <= upto <= text.len(),
        forall|i: int| 0 <= i < upto ==> is_digit(#[trigger] text[i]),
        upto < text.len() ==> !is_digit(text[upto]),
    ensures
        leading_digits(text) == upto,
    decreases upto,
{
    if upto > 0 {
        let rest = text.drop_first();
        assert(is_digit(text[0]));
        assert forall|i: int| 0 <= i < upto - 1 implies is_digit(#[trigger] rest[i]) by {
            assert(rest[i] == text[i + 1]);
        }
        if upto < text.len() {
            assert(rest[upto - 1] == text[upto]);
        }
        lemma_leading_digits(rest, upto - 1);
    }
}

/// At least as many digits as are known to begin the text do so.
proof fn lemma_leading_at_least(text: Seq<char>, upto: int)
    requires
        0 <= upto <= text.len(),
        forall|i: int| 0 <= i < upto ==> is_digit(#[trigger] text[i]),
    ensures
        upto <= leading_digits(text) <= text.len(),
    decreases text.len(),
{
    if text.len() > 0 && is_digit(text[0]) {
        let rest = text.drop_first();
        let shorter = if upto > 0 { upto - 1 } else { 0 };
        assert forall|i: int| 0 <= i < shorter implies is_digit(#[trigger] rest[i]) by {
            assert(rest[i] == text[i + 1]);
        }
        lemma_leading_at_least(rest, shorter);
    }
}

fn digit_number(c: char) -> (value: Option<u32>)
    ensures
        match value {
            Some(value) => is_digit(c) && value == digit_value(c) && value < 10,
            None => !is_digit(c),
        },
{
    if '0' <= c && c <= '9' {
        Some(c as u32 - 48)
    } else {
        None
    }
}

/// The process ID that `text` stands for: decimal digits, behind a plus sign at
/// will.
pub fn parse_pid(text: &str) -> (pid: Result<u32, PidError>)
    ensures
        pid == pid_of(text@),
{
    let chars = chars_of(text);
    if chars.len() == 0 {
        return Err(PidError::Empty);
    }
    let from: usize = if chars.len() > 1 && chars[0] == '+' {
        1
    } else {
        0
    };
    let ghost digits = unsigned(text@);
    assert(digits =~= chars@.skip(from as int));
    let mut value: u32 = 0;
    let mut at: usize = from;
    while at < chars.len()
        invariant
            from <= at <= chars@.len(),
            chars@ == text@,
            chars@.len() > 0,
            digits == unsigned(text@),
            digits == chars@.skip(from as int),
            value == number(digits.take(at - from)),
            forall|i: int| 0 <= i < at - from ==> is_digit(#[trigger] digits[i]),
        decreases chars@.len() - at,
    {
        let ghost n = at - from;
        assert(digits[n] == chars@[at as int]);
        let d = match digit_number(chars[at]) {
            Some(d) => d,
            None => {
                proof {
                    lemma_leading_digits(digits, n);
                }
                return Err(PidError::InvalidDigit);
            },
        };
        proof {
            assert(digits.take(n + 1).drop_last() =~= digits.take(n));
            assert forall|i: int| 0 <= i < n + 1 implies is_digit(#[trigger] digits[i]) by {}
            lemma_leading_at_least(digits, n + 1);
            let leading = leading_digits(digits) as int;
            lemma_number_grows(digits.take(leading), n + 1);
            assert(digits.take(leading).take(n + 1) =~= digits.take(n + 1));
        }
        let next: u64 = value as u64 * 10 + d as u64;
        if next > 0xffff_ffff {
            return Err(PidError::PosOverflow);
        }
        value = next as u32;
        at = at + 1;
    }
    proof {
        lemma_leading_digits(digits, digits.len() as int);
        assert(digits.take(digits.len() as int) =~= digits);
    }
    Ok(value)
}

fn find_sole_colon(prefix: &Vec<char>) -> (place: Option<usize>)
    ensures
        match place {
            Some(place) => sole_colon(prefix@, place as int),
            None => forall|at: int| !sole_colon(prefix@, at),
        },
{
    let mut place: Option<usize> = None;
    let mut at: usize = 0;
    while at < prefix.len()
        invariant
            at <= prefix@.len(),
            match place {
                Some(place) => place < at && forall|i: int|
                    0 <= i < at ==> (#[trigger] prefix@[i] == ':' <==> i == place),
                None => forall|i: int| 0 <= i < at ==> #[trigger] prefix@[i] != ':',
            },
        decreases prefix@.len() - at,
    {
        if prefix[at] == ':' {
            if let Some(first) = place {
                assert forall|other: int| !sole_colon(prefix@, other) by {
                    assert(prefix@[first as int] == ':');
                    assert(prefix@[at as int] == ':');
                }
                return None;
            }
            place = Some(at);
        }
        at = at + 1;
    }
    proof {
        if place is None {
            assert forall|other: int| !sole_colon(prefix@, other) by {
                if sole_colon(prefix@, other) {
                    assert(prefix@[other] == ':');
                }
            }
        }
    }
    place
}

proof fn lemma_close_is_behind_start(line: Seq<char>)
    requires
        "[PID:"@.is_prefix_of(line),
    ensures
        first_at(line, "] "@, 0) matches Some(close) ==> 5 <= close && close + 2 <= line.len(),
{
    reveal_strlit("[PID:");
    reveal_strlit("] ");
    lemma_first_at(line, "] "@, 0);
    if let Some(close) = first_at(line, "] "@, 0) {
        assert(line.subrange(close, close + 2)[0] == line[close]);
        assert(line.subrange(0, 5) == "[PID:"@);
        if close < 5 {
            assert(line.subrange(0, 5)[close] == line[close]);
        }
    }
}

/// Robustly parses a line using our multiplex logging convention
/// Format: [PID:{pid}:{stream_name}] {content}
///
/// # Returns
/// - `Ok(MultiplexedLogLine)` if the line matches the expected format
/// - `Err(MultiplexedLogLineError)` if parsing fails
pub fn parse_multiplexed_line(line: &str) -> (parsed: Result<
    MultiplexedLogLine,
    MultiplexedLogLineError,
>)
    ensures
        line_view(parsed) == parsed_line(line@),
{
    if !starts_with(line, "[PID:") {
        return Err(
            MultiplexedLogLineError::InvalidFormat("Line does not start with [PID:".to_owned()),
        );
    }
    let chars = chars_of(line);
    let close = match find(&chars, "] ") {
        Some(close) => close,
        None => {
            return Err(
                MultiplexedLogLineError::InvalidFormat(
                    "Missing closing bracket after prefix".to_owned(),
                ),
            );
        },
    };
    proof {
        lemma_close_is_behind_start(line@);
    }
    let prefix_text = text_between(&chars, 5, close);
    let prefix = chars_of(prefix_text.as_str());
    let colon = match find_sole_colon(&prefix) {
        Some(colon) => colon,
        None => {
            let start = joined(
                "Expected format [PID:pid:stream_name], got [PID:",
                prefix_text.as_str(),
            );
            return Err(MultiplexedLogLineError::InvalidFormat(joined(start.as_str(), "]")));
        },
    };
    proof {
        let at = choose|at: int| sole_colon(prefix@, at);
        assert(prefix@[at] == ':' && prefix@[colon as int] == ':');
        assert(at == colon);
        assert(prefix@.take(at) =~= prefix@.subrange(0, at));
        assert(prefix@.skip(at + 1) =~= prefix@.subrange(at + 1, prefix@.len() as int));
        assert(line@.skip(close + 2) =~= line@.subrange(close + 2, line@.len() as int));
    }
    let pid = match parse_pid(text_between(&prefix, 0, colon).as_str()) {
        Ok(pid) => pid,
        Err(why) => {
            return Err(MultiplexedLogLineError::PidParseError(why));
        },
    };
    let stream_name = text_between(&prefix, colon + 1, prefix.len());
    if stream_name.as_str().is_empty() {
        return Err(MultiplexedLogLineError::MissingComponent("Stream name is empty".to_owned()));
    }
    let len: usize = chars.len();
    let content = text_between(&chars, close + 2, len);
    Ok(MultiplexedLogLine { pid, stream_name, content })
}

/// The line that carries `content` of a stream of the process `pid`, whose ID is
/// written as `pid`.
pub open spec fn written_line(
    pid: Seq<char>,
    stream_name: Seq<char>,
    content: Seq<char>,
) -> Seq<char> {
    "[PID:"@ + pid + ":"@ + stream_name + "] "@ + content
}

proof fn lemma_decimal_digits(n: nat)
    ensures
        decimal(n).len() > 0,
        forall|i: int| 0 <= i < decimal(n).len() ==> is_digit(#[trigger] decimal(n)[i]),
        number(decimal(n)) == n,
    decreases n,
{
    if n < 10 {
        assert(decimal(n).drop_last() =~= seq![]);
        assert(digit_value(digit(n)) == n);
        assert(number(decimal(n)) == number(decimal(n).drop_last()) * 10 + digit_value(
            decimal(n).last(),
        ));
    } else {
        lemma_decimal_digits(n / 10);
        assert(decimal(n).drop_last() =~= decimal(n / 10));
        assert(digit_value(digit(n % 10)) == n % 10);
    }
}

/// Whatever process ID is written in decimal reads back as the same.
pub proof fn law_pid_reads_back(pid: u32)
    ensures
        pid_of(decimal(pid as nat)) == Ok::<u32, PidError>(pid),
{
    let digits = decimal(pid as nat);
    lemma_decimal_digits(pid as nat);
    assert(is_digit(digits[0]));
    assert(unsigned(digits) == digits);
    lemma_leading_digits(digits, digits.len() as int);
    assert(digits.take(digits.len() as int) =~= digits);
}

/// A line reads back as what was written into it, as long as the name of the
/// stream is not empty and neither a colon nor a closing bracket before a space
/// stands in it.
pub proof fn law_line_reads_back(pid: u32, stream_name: Seq<char>, content: Seq<char>)
    requires
        stream_name.len() > 0,
        !stream_name.contains(':'),
        first_at(stream_name, "] "@, 0) is None,
    ensures
        parsed_line(written_line(decimal(pid as nat), stream_name, content)) == Ok::<
            LogLine,
            LogLineFault,
        >(LogLine { pid, stream_name, content }),
{
    reveal_strlit("[PID:");
    reveal_strlit(":");
    reveal_strlit("] ");
    let digits = decimal(pid as nat);
    lemma_decimal_digits(pid as nat);
    law_pid_reads_back(pid);
    let line = written_line(digits, stream_name, content);
    let colon = digits.len() as int;
    let close: int = 6 + colon + stream_name.len();
    assert(line.subrange(0, 5) =~= "[PID:"@);
    assert("[PID:"@.is_prefix_of(line));
    assert(line.subrange(close, close + 2) =~= "] "@);
    assert(stands_at(line, close, "] "@));
    lemma_first_at(stream_name, "] "@, 0);
    assert forall|i: int| 0 <= i < close implies !stands_at(line, i, "] "@) by {
        if stands_at(line, i, "] "@) {
            assert(line.subrange(i, i + 2)[0] == line[i]);
            assert(line.subrange(i, i + 2)[1] == line[i + 1]);
            if i < 5 {
                assert(line[i] == "[PID:"@[i]);
            } else if i < 5 + colon {
                assert(line[i] == digits[i - 5]);
                assert(is_digit(digits[i - 5]));
            } else if i == 5 + colon {
                assert(line[i] == ':');
            } else {
                let k = i - 6 - colon;
                assert(line[i] == stream_name[k]);
                if k + 1 < stream_name.len() {
                    assert(line[i + 1] == stream_name[k + 1]);
                    assert(stream_name.subrange(k, k + 2) =~= "] "@);
                    assert(stands_at(stream_name, k, "] "@));
                } else {
                    assert(line[i + 1] == ']');
                }
            }
        }
    }
    lemma_is_first_at(line, "] "@, 0, close);
    let prefix = line.subrange(5, close);
    assert(prefix =~= digits + ":"@ + stream_name);
    assert(line.skip(close + 2) =~= content);
    assert(sole_colon(prefix, colon)) by {
        assert forall|i: int| 0 <= i < prefix.len() implies (#[trigger] prefix[i] == ':' <==> i
            == colon) by {
            if i < colon {
                assert(prefix[i] == digits[i]);
                assert(is_digit(digits[i]));
            } else if i > colon {
                assert(prefix[i] == stream_name[i - colon - 1]);
                assert(stream_name.contains(stream_name[i - colon - 1]));
            }
        }
    }
    let at = choose|at: int| sole_colon(prefix, at);
    assert(prefix[at] == ':' && prefix[colon] == ':');
    assert(prefix.take(colon) =~= digits);
    assert(prefix.skip(colon + 1) =~= stream_name);
}

/// A line that parses is put together from its parts: the process ID in some way
/// of writing it, the name of the stream, which is not empty, and the content.
pub proof fn law_parsed_line_is_its_parts(line: Seq<char>)
    ensures
        parsed_line(line) matches Ok(parts) ==> parts.stream_name.len() > 0 && exists|
            pid: Seq<char>,
        | #[trigger]
            pid_of(pid) == Ok::<u32, PidError>(parts.pid) && line == written_line(
                pid,
                parts.stream_name,
                parts.content,
            ),
{
    if let Ok(parts) = parsed_line(line) {
        reveal_strlit("[PID:");
        reveal_strlit(":");
        reveal_strlit("] ");
        lemma_close_is_behind_start(line);
        lemma_first_at(line, "] "@, 0);
        let close = first_at(line, "] "@, 0)->0;
        let prefix = line.subrange(5, close);
        let at = choose|at: int| sole_colon(prefix, at);
        let pid = prefix.take(at);
        assert(pid_of(pid) == Ok::<u32, PidError>(parts.pid));
        assert(prefix[at] == ':');
        assert(prefix =~= pid + ":"@ + parts.stream_name);
        assert(line.subrange(0, 5) =~= "[PID:"@);
        assert(line.subrange(close, close + 2) =~= "] "@);
        assert(line =~= line.subrange(0, 5) + prefix + line.subrange(close, close + 2)
            + line.skip(close + 2));
        assert(line =~= written_line(pid, parts.stream_name, parts.content));
    }
}

} // verus!
