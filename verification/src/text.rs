//! Text as sequences of characters.
use vstd::prelude::*;
use vstd::string::StringExecFns;

verus! {

/// `String::push` puts one character behind the text.
pub assume_specification[ String::push ](text: &mut String, c: char)
    ensures
        final(text)@ == old(text)@.push(c),
;

/// The text of each of `texts`.
pub open spec fn views(texts: Seq<String>) -> Seq<Seq<char>> {
    texts.map_values(|text: String| text@)
}

/// The text in `text`, where there is one.
pub open spec fn view_of(text: Option<String>) -> Option<Seq<char>> {
    match text {
        Some(text) => Some(text@),
        None => None,
    }
}

/// The characters of `text`.
pub fn chars_of(text: &str) -> (chars: Vec<char>)
    ensures
        chars@ == text@,
{
    let mut chars: Vec<char> = Vec::new();
    for c in it: text.chars()
        invariant
            chars@ == it.seq().take(it.index()),
            it.seq() == text@,
    {
        chars.push(c);
    }
    chars
}

/// The text of the characters from `from` up to, but without, `to`.
pub fn text_between(chars: &Vec<char>, from: usize, to: usize) -> (text: String)
    requires
        from <= to <= chars@.len(),
    ensures
        text@ == chars@.subrange(from as int, to as int),
{
    let mut text = String::new();
    let mut at: usize = from;
    while at < to
        invariant
            from <= at <= to <= chars@.len(),
            text@ == chars@.subrange(from as int, at as int),
        decreases to - at,
    {
        text.push(chars[at]);
        at = at + 1;
    }
    text
}

/// Whether two texts hold the same characters.
pub fn same_text(left: &str, right: &str) -> (same: bool)
    ensures
        same == (left@ == right@),
{
    left.to_owned() == right.to_owned()
}

/// Whether `text` begins with `prefix`.
pub fn starts_with(text: &str, prefix: &str) -> (starts: bool)
    ensures
        starts == prefix@.is_prefix_of(text@),
{
    let all = chars_of(text);
    let head = chars_of(prefix);
    if head.len() > all.len() {
        return false;
    }
    let mut at: usize = 0;
    while at < head.len()
        invariant
            all@ == text@,
            head@ == prefix@,
            at <= head@.len() <= all@.len(),
            forall|i: int| 0 <= i < at ==> head@[i] == all@[i],
        decreases head@.len() - at,
    {
        if head[at] != all[at] {
            assert(all@.subrange(0, head@.len() as int)[at as int] != head@[at as int]);
            return false;
        }
        at = at + 1;
    }
    assert(head@ =~= all@.subrange(0, head@.len() as int));
    true
}

/// The text of `left` with that of `right` behind it.
pub fn joined(left: &str, right: &str) -> (text: String)
    ensures
        text@ == left@ + right@,
{
    let mut text = left.to_owned();
    text.append(right);
    text
}

/// Whether `word` stands in `text` from `at` on.
pub open spec fn stands_at(text: Seq<char>, at: int, word: Seq<char>) -> bool {
    &&& 0 <= at
    &&& at + word.len() <= text.len()
    &&& text.subrange(at, at + word.len()) == word
}

/// Where `word` first stands in `text` at or behind `at`.
pub open spec fn first_at(text: Seq<char>, word: Seq<char>, at: int) -> Option<int>
    decreases text.len() + 1 - at,
{
    if at > text.len() {
        None
    } else if stands_at(text, at, word) {
        Some(at)
    } else {
        first_at(text, word, at + 1)
    }
}

/// The first place of a word is one where it stands, and it stands nowhere before.
pub proof fn lemma_first_at(text: Seq<char>, word: Seq<char>, at: int)
    requires
        0 <= at,
    ensures
        match first_at(text, word, at) {
            Some(place) => {
                &&& at <= place
                &&& stands_at(text, place, word)
                &&& forall|i: int| at <= i < place ==> !stands_at(text, i, word)
            },
            None => forall|i: int| at <= i ==> !stands_at(text, i, word),
        },
    decreases text.len() + 1 - at,
{
    if at <= text.len() && !stands_at(text, at, word) {
        lemma_first_at(text, word, at + 1);
    }
}

/// A place where a word stands, and before which it does not, is the first one.
pub proof fn lemma_is_first_at(text: Seq<char>, word: Seq<char>, at: int, place: int)
    requires
        0 <= at <= place,
        stands_at(text, place, word),
        forall|i: int| at <= i < place ==> !stands_at(text, i, word),
    ensures
        first_at(text, word, at) == Some(place),
{
    lemma_first_at(text, word, at);
}

fn stands(text: &Vec<char>, at: usize, word: &Vec<char>) -> (found: bool)
    requires
        at <= text@.len(),
    ensures
        found == stands_at(text@, at as int, word@),
{
    let len: usize = text.len();
    if word.len() > len - at {
        return false;
    }
    let mut i: usize = 0;
    while i < word.len()
        invariant
            len == text@.len(),
            i <= word@.len() <= len - at,
            forall|k: int| 0 <= k < i ==> text@[at + k] == word@[k],
        decreases word@.len() - i,
    {
        if text[at + i] != word[i] {
            assert(text@.subrange(at as int, at + word@.len())[i as int] != word@[i as int]);
            return false;
        }
        i = i + 1;
    }
    assert(text@.subrange(at as int, at + word@.len()) =~= word@);
    true
}

/// Where `word` first stands in `text`.
pub fn find(text: &Vec<char>, word: &str) -> (place: Option<usize>)
    ensures
        match place {
            Some(place) => first_at(text@, word@, 0) == Some(place as int),
            None => first_at(text@, word@, 0) is None,
        },
{
    let wanted = chars_of(word);
    let mut at: usize = 0;
    loop
        invariant
            at <= text@.len(),
            wanted@ == word@,
            first_at(text@, word@, 0) == first_at(text@, word@, at as int),
        decreases text@.len() - at,
    {
        if stands(text, at, &wanted) {
            return Some(at);
        }
        if at == text.len() {
            assert(first_at(text@, word@, at + 1) is None);
            return None;
        }
        at = at + 1;
    }
}

/// The decimal digit of a number below ten.
pub open spec fn digit(d: nat) -> char {
    (48 + d) as char
}

/// How a number is written in decimal, without a sign and without leading zeros.
pub open spec fn decimal(n: nat) -> Seq<char>
    decreases n,
{
    if n < 10 {
        seq![digit(n)]
    } else {
        decimal(n / 10).push(digit(n % 10))
    }
}

/// How a number is written in decimal, behind a minus sign where it is negative.
pub open spec fn signed_decimal(n: int) -> Seq<char> {
    if n < 0 {
        seq!['-'] + decimal((-n) as nat)
    } else {
        decimal(n as nat)
    }
}

fn digit_char(d: u128) -> (c: char)
    requires
        d < 10,
    ensures
        c == digit(d as nat),
{
    match d {
        0 => '0',
        1 => '1',
        2 => '2',
        3 => '3',
        4 => '4',
        5 => '5',
        6 => '6',
        7 => '7',
        8 => '8',
        _ => '9',
    }
}

/// The decimal text of `n`.
pub fn decimal_text(n: u128) -> (text: String)
    ensures
        text@ == decimal(n as nat),
    decreases n,
{
    if n < 10 {
        let mut text = String::new();
        text.push(digit_char(n));
        text
    } else {
        let mut text = decimal_text(n / 10);
        text.push(digit_char(n % 10));
        text
    }
}

/// The decimal text of `n`, with its sign where it is negative.
pub fn signed_decimal_text(n: i32) -> (text: String)
    ensures
        text@ == signed_decimal(n as int),
{
    if n >= 0 {
        decimal_text(n as u128)
    } else {
        let mut text = String::new();
        text.push('-');
        let size: i64 = -(n as i64);
        text.append(decimal_text(size as u128).as_str());
        text
    }
}

} // verus!
