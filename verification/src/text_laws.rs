//! What holds of texts: of numbers that are written out, of places where words stand,
//! and of what stands for optional texts and lists of them.
use vstd::arithmetic::power::pow;
use vstd::prelude::*;

use crate::text::{decimal, first_at, lemma_first_at, signed_decimal, stands_at, view_of, views};

verus! {

/// An optional text stands for its characters, all of them, or for none.
pub proof fn law_optional_text_is_its_characters(text: Option<String>)
    ensures
        view_of(text) is Some <==> text is Some,
        text matches Some(inner) ==> view_of(text)->0.len() == inner@.len() && forall|i: int|
            0 <= i < inner@.len() ==> #[trigger] view_of(text)->0[i] == inner@[i],
{
}

/// A list of texts stands for the characters of each of them, in their order.
pub proof fn law_texts_are_their_characters(texts: Seq<String>)
    ensures
        views(texts).len() == texts.len(),
        forall|i: int| 0 <= i < texts.len() ==> #[trigger] views(texts)[i] == texts[i]@,
{
}

/// A word stands at a place exactly if its characters are there, one after the other.
pub proof fn law_word_stands_where_its_characters_are(text: Seq<char>, at: int, word: Seq<char>)
    ensures
        stands_at(text, at, word) <==> 0 <= at && at + word.len() <= text.len() && forall|k: int|
            0 <= k < word.len() ==> text[at + k] == #[trigger] word[k],
{
    if stands_at(text, at, word) {
        let part = text.subrange(at, at + word.len());
        assert forall|k: int| 0 <= k < word.len() implies text[at + k] == #[trigger] word[k] by {
            assert(part[k] == text[at + k]);
        }
    }
    if 0 <= at && at + word.len() <= text.len() && forall|k: int|
        0 <= k < word.len() ==> text[at + k] == #[trigger] word[k] {
        assert(text.subrange(at, at + word.len()) =~= word);
    }
}

/// A word is found at its first place, and is not found exactly where it is nowhere.
pub proof fn law_first_place_of_a_word(text: Seq<char>, word: Seq<char>, place: int)
    ensures
        first_at(text, word, 0) == Some(place) <==> 0 <= place && stands_at(text, place, word)
            && forall|i: int| 0 <= i < place ==> !(#[trigger] stands_at(text, i, word)),
        first_at(text, word, 0) is None <==> forall|i: int|
            0 <= i ==> !(#[trigger] stands_at(text, i, word)),
{
    lemma_first_at(text, word, 0);
    if let Some(found) = first_at(text, word, 0) {
        if 0 <= place && stands_at(text, place, word) && forall|i: int|
            0 <= i < place ==> !(#[trigger] stands_at(text, i, word)) {
            assert(!(found < place));
            assert(!(place < found));
        }
    }
}

/// A number below ten is written as one digit, and a digit behind the digits of a number
/// other than zero makes ten times the number and the digit.
pub proof fn law_digits_are_put_behind_each_other(n: nat, d: nat)
    requires
        d < 10,
    ensures
        decimal(d) == seq![(48 + d) as char],
        n > 0 ==> decimal(10 * n + d) == decimal(n).push((48 + d) as char),
{
    assert((10 * n + d) / 10 == n);
    assert((10 * n + d) % 10 == d);
}

/// The digits of a number, each weighed by its place, make up the number: the digit at
/// place `i` from the right is the remainder by ten of the number divided by that power
/// of ten, and there are no leading zeros.
pub proof fn law_digits_make_up_the_number(n: nat)
    ensures
        decimal(n).len() > 0,
        n < pow(10, decimal(n).len()),
        n >= 10 ==> pow(10, (decimal(n).len() - 1) as nat) <= n,
        n < 10 ==> decimal(n).len() == 1,
        forall|i: int|
            0 <= i < decimal(n).len() ==> #[trigger] decimal(n)[i] as int == 48 + (n as int / pow(
                10,
                (decimal(n).len() - 1 - i) as nat,
            )) % 10,
    decreases n,
{
    reveal(pow);
    vstd::arithmetic::power::lemma_pow0(10);
    vstd::arithmetic::power::lemma_pow1(10);
    if n >= 10 {
        let rest: nat = n / 10;
        let len = decimal(n).len();
        law_digits_make_up_the_number(rest);
        let before = decimal(rest);
        assert(decimal(n) == before.push((48 + n % 10) as char));
        assert(pow(10, len) == 10 * pow(10, (len - 1) as nat));
        assert(pow(10, (len - 1) as nat) == 10 * pow(10, (len - 2) as nat));
        assert forall|i: int| 0 <= i < len implies #[trigger] decimal(n)[i] as int == 48 + (n as int
            / pow(10, (len - 1 - i) as nat)) % 10 by {
            if i == len - 1 {
                assert(pow(10, 0) == 1);
                assert(n as int / 1 == n as int);
            } else {
                let k = (len - 2 - i) as nat;
                assert(decimal(n)[i] == before[i]);
                assert(pow(10, k + 1) == 10 * pow(10, k));
                vstd::arithmetic::power::lemma_pow_positive(10, k);
                vstd::arithmetic::div_mod::lemma_div_denominator(n as int, 10, pow(10, k));
                assert((len - 1 - i) as nat == k + 1);
            }
        }
    }
}

/// A negative number is written as a minus sign and its absolute value, any other one as
/// its value.
pub proof fn law_sign_stands_before_negative_numbers(n: int)
    ensures
        n >= 0 ==> signed_decimal(n) == decimal(n as nat),
        n < 0 ==> signed_decimal(n).len() == decimal((0 - n) as nat).len() + 1
            && signed_decimal(n)[0] == '-' && signed_decimal(n).skip(1) == decimal(
            (0 - n) as nat,
        ),
{
    if n < 0 {
        assert(signed_decimal(n).skip(1) =~= decimal((0 - n) as nat));
    }
}

} // verus!
