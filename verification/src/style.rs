//! Text with colours and styles for a terminal.
use owo_colors::OwoColorize;
use vstd::prelude::*;

verus! {

/// `text` between the escape sequences `start` and `end`.
pub open spec fn styled(start: Seq<char>, text: Seq<char>, end: Seq<char>) -> Seq<char> {
    start + text + end
}

/// `owo_colors::OwoColorize::green`, displayed: the text stands between the escape
/// sequences for the colour green and for the default colour.
#[verifier::external_body]
pub(crate) fn green(text: &str) -> (shown: String)
    ensures
        shown@ == styled("\x1b[32m"@, text@, "\x1b[39m"@),
{
    text.green().to_string()
}

/// `owo_colors::OwoColorize::white`, displayed: the text stands between the escape
/// sequences for the colour white and for the default colour.
#[verifier::external_body]
pub(crate) fn white(text: &str) -> (shown: String)
    ensures
        shown@ == styled("\x1b[37m"@, text@, "\x1b[39m"@),
{
    text.white().to_string()
}

/// `owo_colors::OwoColorize::yellow`, displayed: the text stands between the escape
/// sequences for the colour yellow and for the default colour.
#[verifier::external_body]
pub(crate) fn yellow(text: &str) -> (shown: String)
    ensures
        shown@ == styled("\x1b[33m"@, text@, "\x1b[39m"@),
{
    text.yellow().to_string()
}

/// `owo_colors::OwoColorize::cyan`, displayed: the text stands between the escape
/// sequences for the colour cyan and for the default colour.
#[verifier::external_body]
pub(crate) fn cyan(text: &str) -> (shown: String)
    ensures
        shown@ == styled("\x1b[36m"@, text@, "\x1b[39m"@),
{
    text.cyan().to_string()
}

/// `owo_colors::OwoColorize::bold`, displayed: the text stands between the escape
/// sequences for bold type and for no style.
#[verifier::external_body]
pub(crate) fn bold(text: &str) -> (shown: String)
    ensures
        shown@ == styled("\x1b[1m"@, text@, "\x1b[0m"@),
{
    text.bold().to_string()
}

/// `owo_colors::OwoColorize::italic`, displayed: the text stands between the escape
/// sequences for italic type and for no style.
#[verifier::external_body]
pub(crate) fn italic(text: &str) -> (shown: String)
    ensures
        shown@ == styled("\x1b[3m"@, text@, "\x1b[0m"@),
{
    text.italic().to_string()
}

} // verus!
