//! The hash by which a changed file is told from an unchanged one.
use sha2::Digest;
use vstd::prelude::*;

verus! {

/// The SHA-256 digest of `content`, as `sha2::Sha256` computes it.
pub uninterp spec fn sha256(content: Seq<u8>) -> Seq<u8>;

/// `sha2::Sha256` fed with `content`: the digest has 32 bytes.
#[verifier::external_body]
fn sha256_digest(content: &[u8]) -> (digest: Vec<u8>)
    ensures
        digest@ == sha256(content@),
        digest@.len() == 32,
{
    let mut hasher = sha2::Sha256::new();
    hasher.update(content);
    hasher.finalize().to_vec()
}

/// The lower case hexadecimal digit of a number below sixteen.
pub open spec fn hex_digit(d: nat) -> char {
    if d < 10 {
        (48 + d) as char
    } else {
        (87 + d) as char
    }
}

/// `bytes` in lower case hexadecimal, two digits for each byte.
pub open spec fn hex(bytes: Seq<u8>) -> Seq<char>
    decreases bytes.len(),
{
    if bytes.len() == 0 {
        seq![]
    } else {
        hex(bytes.drop_last()).push(hex_digit((bytes.last() / 16) as nat)).push(
            hex_digit((bytes.last() % 16) as nat),
        )
    }
}

/// The hash of a file with this content.
pub open spec fn file_hash(content: Seq<u8>) -> Seq<char> {
    hex(sha256(content))
}

fn hex_char(d: u8) -> (c: char)
    requires
        d < 16,
    ensures
        c == hex_digit(d as nat),
{
    match d {
        0 => '0',
        1 => '1',
        2 => '2',
        3 => '3',
        4 => '4',
        5 => '5',
        6 => '6',
        7 => '7',
        8 => '8',
        9 => '9',
        10 => 'a',
        11 => 'b',
        12 => 'c',
        13 => 'd',
        14 => 'e',
        _ => 'f',
    }
}

/// `bytes` in lower case hexadecimal.
pub fn hex_text(bytes: &Vec<u8>) -> (text: String)
    ensures
        text@ == hex(bytes@),
{
    let mut text = String::new();
    let mut at: usize = 0;
    while at < bytes.len()
        invariant
            at <= bytes@.len(),
            text@ == hex(bytes@.take(at as int)),
        decreases bytes@.len() - at,
    {
        let byte: u8 = bytes[at];
        text.push(hex_char(byte / 16));
        text.push(hex_char(byte % 16));
        assert(bytes@.take(at + 1).drop_last() =~= bytes@.take(at as int));
        at = at + 1;
    }
    assert(bytes@.take(at as int) =~= bytes@);
    text
}

/// The hash of a file with this content: its SHA-256 digest in hexadecimal.
pub fn hash_of(content: &[u8]) -> (hash: String)
    ensures
        hash@ == file_hash(content@),
        hash@.len() == 64,
{
    let digest = sha256_digest(content);
    proof {
        lemma_hex_len(digest@);
    }
    hex_text(&digest)
}

proof fn lemma_hex_len(bytes: Seq<u8>)
    ensures
        hex(bytes).len() == 2 * bytes.len(),
    decreases bytes.len(),
{
    if bytes.len() > 0 {
        lemma_hex_len(bytes.drop_last());
    }
}

/// The hexadecimal text tells any two byte strings apart, so two files have the
/// same hash exactly if they have the same digest.
pub proof fn law_hex_is_injective(left: Seq<u8>, right: Seq<u8>)
    ensures
        hex(left) == hex(right) <==> left == right,
    decreases left.len(),
{
    lemma_hex_len(left);
    lemma_hex_len(right);
    if hex(left) == hex(right) && left.len() > 0 {
        let (l, r) = (left.last(), right.last());
        let n = hex(left).len();
        assert(hex(left)[n - 1] == hex_digit((l % 16) as nat));
        assert(hex(left)[n - 2] == hex_digit((l / 16) as nat));
        assert(hex(right)[n - 1] == hex_digit((r % 16) as nat));
        assert(hex(right)[n - 2] == hex_digit((r / 16) as nat));
        assert(l == r);
        assert(hex(left.drop_last()) =~= hex(left).take(n - 2));
        assert(hex(right.drop_last()) =~= hex(right).take(n - 2));
        law_hex_is_injective(left.drop_last(), right.drop_last());
        assert(left =~= left.drop_last().push(l));
        assert(right =~= right.drop_last().push(r));
    } else if hex(left) == hex(right) {
        assert(left =~= right);
    }
}

} // verus!
