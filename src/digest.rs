//! SHA-256 digests of text, written as lowercase hex.
use vstd::prelude::*;

verus! {

/// Name for the SHA-256 digest of the UTF-8 encoding of a text.
pub uninterp spec fn sha256_of(s: Seq<char>) -> Seq<u8>;

/// Relies on `sha2::Sha256::digest`: the 32-byte digest of the text's UTF-8
/// bytes, which depends on the text alone.
#[verifier::external_body]
pub fn sha256_digest(s: &str) -> (r: Vec<u8>)
    ensures
        r@ == sha256_of(s@),
        r@.len() == 32,
{
    <sha2::Sha256 as sha2::Digest>::digest(s.as_bytes()).to_vec()
}

/// Lowercase hex digit of a value below 16.
pub open spec fn hex_digit(d: u8) -> char {
    if d < 10 {
        ((d + 48) as char)
    } else {
        ((d - 10 + 97) as char)
    }
}

/// Two lowercase hex digits per byte, high nibble first.
pub open spec fn hex_text(b: Seq<u8>) -> Seq<char>
    decreases b.len(),
{
    if b.len() == 0 {
        Seq::empty()
    } else {
        hex_text(b.drop_last()).push(hex_digit(b.last() / 16)).push(hex_digit(b.last() % 16))
    }
}

/// Relies on `hex::encode`: two lowercase hex digits for each byte, in order.
#[verifier::external_body]
pub fn hex_encode(b: &Vec<u8>) -> (r: String)
    ensures
        r@ == hex_text(b@),
{
    hex::encode(b)
}

/// The hex SHA-256 digest of a text.
pub open spec fn hex_digest(s: Seq<char>) -> Seq<char> {
    hex_text(sha256_of(s))
}

pub proof fn lemma_hex_len(b: Seq<u8>)
    ensures
        hex_text(b).len() == 2 * b.len(),
    decreases b.len(),
{
    if b.len() > 0 {
        lemma_hex_len(b.drop_last());
    }
}

/// The lowercase hex SHA-256 digest of a text: 64 characters.
pub fn sha256_hex(s: &str) -> (r: String)
    ensures
        r@ == hex_digest(s@),
        r@.len() == 64,
{
    let d = sha256_digest(s);
    proof {
        lemma_hex_len(d@);
    }
    hex_encode(&d)
}

} // verus!
