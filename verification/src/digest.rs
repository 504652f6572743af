//! Content tags: the quoted lowercase hexadecimal SHA-256 digest of an
//! object's bytes.

use vstd::prelude::*;
use vstd::string::*;
use crate::text::join3;

verus! {

/// The SHA-256 digest of `data`, as the `sha2` crate computes it.
pub uninterp spec fn sha256(data: Seq<u8>) -> Seq<u8>;

/// The lowercase hexadecimal digit for a value below 16.
pub open spec fn hex_digit(n: u8) -> char {
    if n == 0 {
        '0'
    } else if n == 1 {
        '1'
    } else if n == 2 {
        '2'
    } else if n == 3 {
        '3'
    } else if n == 4 {
        '4'
    } else if n == 5 {
        '5'
    } else if n == 6 {
        '6'
    } else if n == 7 {
        '7'
    } else if n == 8 {
        '8'
    } else if n == 9 {
        '9'
    } else if n == 10 {
        'a'
    } else if n == 11 {
        'b'
    } else if n == 12 {
        'c'
    } else if n == 13 {
        'd'
    } else if n == 14 {
        'e'
    } else {
        'f'
    }
}

/// `data` in lowercase hexadecimal: two digits for each byte, the high half
/// first.
pub open spec fn hex_lower(data: Seq<u8>) -> Seq<char> {
    Seq::new(
        2 * data.len(),
        |i: int|
            if i % 2 == 0 {
                hex_digit(data[i / 2] / 16)
            } else {
                hex_digit(data[i / 2] % 16)
            },
    )
}

/// A digest in hexadecimal between double quotes.
pub open spec fn quoted(hex: Seq<char>) -> Seq<char> {
    "\""@ + hex + "\""@
}

/// The content tag of an object that holds `data`.
pub open spec fn etag_of(data: Seq<u8>) -> Seq<char> {
    quoted(hex_lower(sha256(data)))
}

/// `Sha256::digest` of the `sha2` crate: the SHA-256 digest of `data`, which
/// depends on `data` alone and is 32 bytes long.
#[verifier::external_body]
fn sha256_digest(data: &[u8]) -> (digest: Vec<u8>)
    ensures
        digest@ == sha256(data@),
        digest@.len() == 32,
{
    <sha2::Sha256 as sha2::Digest>::digest(data).to_vec()
}

/// `hex::encode`: each byte of `data` as two lowercase hexadecimal digits.
#[verifier::external_body]
fn hex_encode(data: &[u8]) -> (text: String)
    ensures
        text@ == hex_lower(data@),
{
    hex::encode(data)
}

/// Puts a digest in hexadecimal between double quotes.
pub fn quote_digest(hex: &str) -> (etag: String)
    ensures
        etag@ == quoted(hex@),
{
    join3("\"", hex, "\"")
}

/// The content tag of an object that holds `data`: the SHA-256 digest of all
/// of `data`, in lowercase hexadecimal, between double quotes.
pub fn compute_etag(data: &[u8]) -> (etag: String)
    ensures
        etag@ == etag_of(data@),
        etag@.len() == 66,
{
    let digest = sha256_digest(data);
    let hex = hex_encode(digest.as_slice());
    proof {
        reveal_strlit("\"");
    }
    quote_digest(hex.as_str())
}

} // verus!
