//! The content hash by which the content-addressed provider looks files up:
//! SHA-512, written in lower-case hexadecimal digits.

use vstd::prelude::*;

verus! {

/// The SHA-512 digest that `hmac_sha512::Hash::hash` computes.
pub uninterp spec fn sha512(data: Seq<u8>) -> Seq<u8>;

/// The hexadecimal digit of a number below sixteen.
pub open spec fn hex_digit(n: u8) -> char {
    if n < 10 {
        (48 + n) as char
    } else {
        (87 + n) as char
    }
}

/// Two lower-case hexadecimal digits for each byte, the high half first.
pub open spec fn hex_lower(data: Seq<u8>) -> Seq<char> {
    Seq::new(
        2 * data.len(),
        |i: int|
            if i % 2 == 0 {
                hex_digit(data[i / 2] / 16)
            } else {
                hex_digit(data[i / 2] % 16)
            },
    )
}

/// `hmac_sha512::Hash::hash`: the digest of the bytes, sixty-four bytes long.
/// Inputs that the crate cannot count in bits are left out.
#[verifier::external_body]
pub(crate) fn sha512_digest(data: &[u8]) -> (digest: [u8; 64])
    requires
        data@.len() * 8 <= usize::MAX,
    ensures
        digest@ == sha512(data@),
{
    hmac_sha512::Hash::hash(data)
}

/// `hex::encode`: each byte as two lower-case hexadecimal digits.
#[verifier::external_body]
pub(crate) fn hex_encode(data: &[u8]) -> (text: String)
    ensures
        text@ == hex_lower(data@),
{
    hex::encode(data)
}

/// The content hash of a file: its SHA-512 digest in hexadecimal digits.
pub fn calc_sha512(contents: &[u8]) -> (r: String)
    requires
        contents@.len() * 8 <= usize::MAX,
    ensures
        r@ == hex_lower(sha512(contents@)),
        r@.len() == 128,
{
    let digest = sha512_digest(contents);
    hex_encode(&digest)
}

/// The content hash of a file that is small enough to be hashed; `None` for
/// one that is not.
pub fn try_sha512(contents: &[u8]) -> (r: Option<String>)
    ensures
        match r {
            Some(hash) => contents@.len() * 8 <= usize::MAX && hash@ == hex_lower(sha512(contents@)),
            None => contents@.len() * 8 > usize::MAX,
        },
{
    if contents.len() <= usize::MAX / 8 {
        Some(calc_sha512(contents))
    } else {
        None
    }
}

} // verus!
