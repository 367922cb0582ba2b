//! How a project is told the name of its package.
use vstd::prelude::*;

use crate::text::{same_text, stands_at, view_of};

verus! {

/// What gives the package its name in a `setup.py`.
pub const SETUP_NAME: &'static str = r#"name=["']([^"']+)["']"#;

/// What gives the package its name in a `pyproject.toml`.
pub const PYPROJECT_NAME: &'static str =
    r#"(?:\[project\]|\[tool\.poetry\])(?:.*?|(?:.|\n+[^\[\n])*?\n\s*)name\s*=\s*["']([^"']+)["']"#;

/// A file near the top of a project: the last part of its path, and its text
/// where it could be read.
#[derive(Debug)]
pub struct ProjectFile {
    pub file_name: String,
    pub content: Option<String>,
}

/// A quotation mark.
pub open spec fn is_quote(c: char) -> bool {
    c == '"' || c == '\''
}

/// White space as Unicode defines it.
pub open spec fn is_space(c: char) -> bool {
    let u = c as u32;
    ||| 0x09 <= u <= 0x0d
    ||| u == 0x20
    ||| u == 0x85
    ||| u == 0xa0
    ||| u == 0x1680
    ||| 0x2000 <= u <= 0x200a
    ||| u == 0x2028
    ||| u == 0x2029
    ||| u == 0x202f
    ||| u == 0x205f
    ||| u == 0x3000
}

/// Whether the characters of `text` from `from` up to `to` are white space.
pub open spec fn spaces_between(text: Seq<char>, from: int, to: int) -> bool {
    forall|k: int| from <= k < to ==> is_space(#[trigger] text[k])
}

/// Whether something stands in quotes that open at `open` and close at `close`,
/// with at least one character and no quotation mark in between.
pub open spec fn quoted(text: Seq<char>, open: int, close: int) -> bool {
    &&& 0 <= open
    &&& open + 1 < close < text.len()
    &&& is_quote(text[open])
    &&& is_quote(text[close])
    &&& forall|k: int| open < k < close ==> !is_quote(#[trigger] text[k])
}

/// What stands in the quotes that open at `open` and close at `close`.
pub open spec fn within(text: Seq<char>, open: int, close: int) -> Seq<char> {
    text.subrange(open + 1, close)
}

/// Whether `name=".."` stands in `text` at `at`, the quotes closing at `close`.
pub open spec fn keyword_at(text: Seq<char>, at: int, close: int) -> bool {
    stands_at(text, at, "name="@) && quoted(text, at + 5, close)
}

/// The name of the first `name=".."` at or behind `at`.
pub open spec fn keyword_name(text: Seq<char>, at: int) -> Option<Seq<char>>
    decreases text.len() - at,
{
    if at >= text.len() {
        None
    } else if exists|close: int| keyword_at(text, at, close) {
        Some(within(text, at + 5, choose|close: int| keyword_at(text, at, close)))
    } else {
        keyword_name(text, at + 1)
    }
}

/// The name that the text of a `setup.py` gives to the package.
pub open spec fn setup_name(text: Seq<char>) -> Option<Seq<char>> {
    keyword_name(text, 0)
}

/// Whether `name = ".."` stands in `text` at `at`, with white space at will round
/// the `=` at `equals`, and with quotes that open at `open` and close at `close`.
pub open spec fn field_at(text: Seq<char>, at: int, equals: int, open: int, close: int) -> bool {
    &&& stands_at(text, at, "name"@)
    &&& at + 4 <= equals < open
    &&& spaces_between(text, at + 4, equals)
    &&& text[equals] == '='
    &&& spaces_between(text, equals + 1, open)
    &&& quoted(text, open, close)
}

/// Whether `at` is in the line of the section header that ends at `head`.
pub open spec fn in_header_line(text: Seq<char>, head: int, at: int) -> bool {
    forall|k: int| head <= k < at ==> #[trigger] text[k] != '\n'
}

/// Whether a line behind the section header that ends at `head` begins at `at`, but for
/// white space.
pub open spec fn begins_line(text: Seq<char>, head: int, at: int) -> bool {
    exists|k: int| head <= k < at && #[trigger] text[k] == '\n' && spaces_between(text, k + 1, at)
}

/// Whether the header of another section, a `[` at the very beginning of a line, stands
/// at `at`, behind the section header that ends at `head`.
pub open spec fn next_header(text: Seq<char>, head: int, at: int) -> bool {
    head < at < text.len() && text[at - 1] == '\n' && text[at] == '['
}

/// The name of the first `name = ".."` at or behind `at` in the section whose header ends
/// at `head`: in the line of the header, or at the beginning of a line before the header
/// of the next section.
pub open spec fn field_name(text: Seq<char>, head: int, at: int) -> Option<Seq<char>>
    decreases text.len() - at,
{
    if at >= text.len() || next_header(text, head, at) {
        None
    } else if (in_header_line(text, head, at) || begins_line(text, head, at)) && exists|
        equals: int,
        open: int,
        close: int,
    | field_at(text, at, equals, open, close) {
        let (equals, open, close): (int, int, int) = choose|equals: int, open: int, close: int|
            field_at(text, at, equals, open, close);
        Some(within(text, open, close))
    } else {
        field_name(text, head, at + 1)
    }
}

/// The name in the section whose header ends at `head`.
pub open spec fn name_behind(text: Seq<char>, head: int) -> Option<Seq<char>> {
    field_name(text, head, head)
}

/// Where the header of a project section that begins at `at` ends.
pub open spec fn header_end(text: Seq<char>, at: int) -> Option<int> {
    if stands_at(text, at, "[project]"@) {
        Some(at + 9)
    } else if stands_at(text, at, "[tool.poetry]"@) {
        Some(at + 13)
    } else {
        None
    }
}

/// The name in the first project section at or behind `at` that has one.
pub open spec fn section_name(text: Seq<char>, at: int) -> Option<Seq<char>>
    decreases text.len() - at,
{
    if at >= text.len() {
        None
    } else if header_end(text, at) is Some && name_behind(text, header_end(text, at)->0) is Some {
        name_behind(text, header_end(text, at)->0)
    } else {
        section_name(text, at + 1)
    }
}

/// The name that the text of a `pyproject.toml` gives to the package.
pub open spec fn pyproject_name(text: Seq<char>) -> Option<Seq<char>> {
    section_name(text, 0)
}

/// `regex::Regex::captures`: the text of the first group of the leftmost match of
/// one of the two patterns, where there is a match. `.` stands for all characters
/// but the line feed, `*?` for as few repetitions as will do, and `\s` for white space
/// as Unicode defines it; of two alternatives the first that leads to a match is taken.
#[verifier::external_body]
fn first_group(pattern: &str, text: &str) -> (name: Option<String>)
    requires
        pattern@ == SETUP_NAME@ || pattern@ == PYPROJECT_NAME@,
    ensures
        pattern@ == SETUP_NAME@ ==> view_of(name) == setup_name(text@),
        pattern@ == PYPROJECT_NAME@ ==> view_of(name) == pyproject_name(text@),
{
    regex::Regex::new(pattern).unwrap().captures(text).map(|found| found[1].to_string())
}

/// The name that a file gives to the package.
pub open spec fn name_in(file_name: Seq<char>, content: Option<Seq<char>>) -> Option<Seq<char>> {
    match content {
        Some(text) => if file_name == "setup.py"@ {
            setup_name(text)
        } else if file_name == "pyproject.toml"@ {
            pyproject_name(text)
        } else {
            None
        },
        None => None,
    }
}

/// The name that the first of `files` that gives one gives to the package, else
/// the name of the directory.
pub open spec fn detected_name(files: Seq<ProjectFile>, directory: Option<Seq<char>>) -> Option<
    Seq<char>,
>
    decreases files.len(),
{
    if files.len() == 0 {
        directory
    } else {
        match name_in(files[0].file_name@, view_of(files[0].content)) {
            Some(name) => Some(name),
            None => detected_name(files.drop_first(), directory),
        }
    }
}

/// Whether the name of the package may stand in a file of this name.
pub fn may_name_package(file_name: &str) -> (may: bool)
    ensures
        may == (file_name@ == "setup.py"@ || file_name@ == "pyproject.toml"@),
{
    same_text(file_name, "setup.py") || same_text(file_name, "pyproject.toml")
}

/// The name that a file gives to the package.
pub fn package_name_in(file: &ProjectFile) -> (name: Option<String>)
    ensures
        view_of(name) == name_in(file.file_name@, view_of(file.content)),
{
    match &file.content {
        Some(text) => if same_text(file.file_name.as_str(), "setup.py") {
            first_group(SETUP_NAME, text.as_str())
        } else if same_text(file.file_name.as_str(), "pyproject.toml") {
            first_group(PYPROJECT_NAME, text.as_str())
        } else {
            None
        },
        None => None,
    }
}

/// Detect the current package name by looking for setup.py or pyproject.toml among
/// the files at the top of a project, in the order in which they were found. The
/// fallback is the name of the directory.
pub fn detect_package_name(files: &Vec<ProjectFile>, directory: &Option<String>) -> (name: Option<
    String,
>)
    ensures
        view_of(name) == detected_name(files@, view_of(*directory)),
{
    let mut at: usize = 0;
    assert(files@.skip(0) =~= files@);
    while at < files.len()
        invariant
            at <= files@.len(),
            detected_name(files@, view_of(*directory)) == detected_name(
                files@.skip(at as int),
                view_of(*directory),
            ),
        decreases files@.len() - at,
    {
        let name = package_name_in(&files[at]);
        assert(files@.skip(at as int).drop_first() =~= files@.skip(at + 1));
        if name.is_some() {
            return name;
        }
        at = at + 1;
    }
    directory.clone()
}

proof fn lemma_keyword_name(text: Seq<char>, at: int)
    ensures
        keyword_name(text, at) matches Some(name) ==> name.len() > 0 && forall|k: int|
            0 <= k < name.len() ==> !is_quote(#[trigger] name[k]),
    decreases text.len() - at,
{
    if at < text.len() {
        if exists|close: int| keyword_at(text, at, close) {
        } else {
            lemma_keyword_name(text, at + 1);
        }
    }
}

proof fn lemma_field_name(text: Seq<char>, head: int, at: int)
    ensures
        field_name(text, head, at) matches Some(name) ==> name.len() > 0 && forall|k: int|
            0 <= k < name.len() ==> !is_quote(#[trigger] name[k]),
    decreases text.len() - at,
{
    if at < text.len() {
        lemma_field_name(text, head, at + 1);
    }
}

proof fn lemma_section_name(text: Seq<char>, at: int)
    ensures
        section_name(text, at) matches Some(name) ==> name.len() > 0 && forall|k: int|
            0 <= k < name.len() ==> !is_quote(#[trigger] name[k]),
    decreases text.len() - at,
{
    if at < text.len() {
        if header_end(text, at) is Some {
            let head = header_end(text, at)->0;
            lemma_field_name(text, head, head);
        }
        lemma_section_name(text, at + 1);
    }
}

/// A name that a file gives to the package is not empty, and no quotation mark
/// stands in it.
pub proof fn law_name_in_is_a_word(file_name: Seq<char>, content: Option<Seq<char>>)
    ensures
        name_in(file_name, content) matches Some(name) ==> name.len() > 0 && forall|k: int|
            0 <= k < name.len() ==> !is_quote(#[trigger] name[k]),
{
    if let Some(text) = content {
        lemma_keyword_name(text, 0);
        lemma_section_name(text, 0);
    }
}

/// The detected name is not empty, unless it is that of a directory with an empty
/// name.
pub proof fn law_detected_name_is_not_empty(
    files: Seq<ProjectFile>,
    directory: Option<Seq<char>>,
)
    requires
        directory matches Some(name) ==> name.len() > 0,
    ensures
        detected_name(files, directory) matches Some(name) ==> name.len() > 0,
    decreases files.len(),
{
    if files.len() > 0 {
        law_name_in_is_a_word(files[0].file_name@, view_of(files[0].content));
        law_detected_name_is_not_empty(files.drop_first(), directory);
    }
}

proof fn lemma_skips(text: Seq<char>, head: int, at: int, place: int)
    requires
        head <= at <= place < text.len(),
        forall|k: int| at <= k < place ==> !stands_at(text, k, "name"@),
        forall|k: int| at <= k <= place ==> !(#[trigger] next_header(text, head, k)),
    ensures
        field_name(text, head, at) == field_name(text, head, place),
    decreases place - at,
{
    if at < place {
        assert(!next_header(text, head, at));
        assert(!stands_at(text, at, "name"@));
        lemma_skips(text, head, at + 1, place);
    }
}

/// In the text of a `pyproject.toml` that begins with the header of a project section, a
/// `name = ".."` that begins a line of the section, and before which no `name` stands in
/// the section, gives the package its name.
pub proof fn law_name_stands_on_its_own_line(
    text: Seq<char>,
    head: int,
    place: int,
    equals: int,
    open: int,
    close: int,
)
    requires
        header_end(text, 0) == Some(head),
        head < place < text.len(),
        text[place - 1] == '\n',
        forall|k: int| head <= k < place ==> !stands_at(text, k, "name"@),
        forall|k: int| head <= k < place ==> !(#[trigger] next_header(text, head, k)),
        field_at(text, place, equals, open, close),
    ensures
        pyproject_name(text) == Some(within(text, open, close)),
{
    reveal_strlit("name");
    assert(text.subrange(place, place + 4)[0] == text[place]);
    assert("name"@[0] == 'n');
    assert(!next_header(text, head, place));
    lemma_skips(text, head, head, place);
    assert(text[place - 1] == '\n' && spaces_between(text, place, place));
    assert(begins_line(text, head, place));
    let (e, o, c): (int, int, int) = choose|e: int, o: int, c: int|
        field_at(text, place, e, o, c);
    assert(field_at(text, place, e, o, c));
    lemma_field_is_unique(text, place, equals, open, close, e, o, c);
    assert(field_name(text, head, place) == Some(within(text, open, close)));
}

proof fn lemma_field_is_unique(
    text: Seq<char>,
    at: int,
    equals: int,
    open: int,
    close: int,
    e: int,
    o: int,
    c: int,
)
    requires
        field_at(text, at, equals, open, close),
        field_at(text, at, e, o, c),
    ensures
        equals == e,
        open == o,
        close == c,
{
    if equals < e {
        assert(is_space(text[equals]));
    } else if e < equals {
        assert(is_space(text[e]));
    }
    if open < o {
        assert(is_space(text[open]));
    } else if o < open {
        assert(is_space(text[o]));
    }
    if close < c {
        assert(!is_quote(text[close]));
    } else if c < close {
        assert(!is_quote(text[c]));
    }
}

} // verus!
