//! Identifiers that do not occur twice.
use vstd::prelude::*;

verus! {

/// A lower case hexadecimal digit.
pub open spec fn is_hex_digit(c: char) -> bool {
    '0' <= c <= '9' || 'a' <= c <= 'f'
}

/// A random UUID: 36 characters, with hyphens behind the 8th, 12th, 16th and 20th
/// hexadecimal digit, of version 4 and of the variant of RFC 9562.
pub open spec fn is_random_uuid(text: Seq<char>) -> bool {
    &&& text.len() == 36
    &&& forall|i: int|
        0 <= i < 36 ==> if i == 8 || i == 13 || i == 18 || i == 23 {
            #[trigger] text[i] == '-'
        } else {
            is_hex_digit(text[i])
        }
    &&& text[14] == '4'
    &&& (text[19] == '8' || text[19] == '9' || text[19] == 'a' || text[19] == 'b')
}

/// `uuid::Uuid::new_v4`, displayed: a random UUID in lower case. Which one it is
/// differs from call to call. It panics where the system has no random numbers to give.
#[verifier::external_body]
pub(crate) fn new_id() -> (id: String)
    ensures
        is_random_uuid(id@),
{
    uuid::Uuid::new_v4().to_string()
}

} // verus!
