//! Content hashing: the SHA-256 digest of a file's bytes, in lower-case
//! hexadecimal.

use vstd::prelude::*;
use crate::bindings::{hex_encode, sha256, sha256_digest};

verus! {

/// Number of hexadecimal characters in a rendered digest.
pub const DIGEST_HEX_LEN: usize = 64;

/// The lower-case hexadecimal digit for `v`, which is below 16.
pub open spec fn hex_digit(v: int) -> char {
    if v < 10 {
        (('0' as u8) + v) as u8 as char
    } else {
        (('a' as u8) + (v - 10)) as u8 as char
    }
}

/// `data` in lower-case hexadecimal: two digits per byte, high half first.
pub open spec fn hex_lower(data: Seq<u8>) -> Seq<char> {
    Seq::new(
        2 * data.len(),
        |i: int|
            if i % 2 == 0 {
                hex_digit(data[i / 2] as int / 16)
            } else {
                hex_digit(data[i / 2] as int % 16)
            },
    )
}

/// What [`content_hash`] returns for `data`.
pub open spec fn content_hash_of(data: Seq<u8>) -> Seq<char> {
    hex_lower(sha256(data))
}

/// The digest of `data` in lower-case hexadecimal.
pub fn content_hash(data: &[u8]) -> (r: String)
    requires
        data@.len() < 0x2000_0000_0000_0000,
    ensures
        r@ == content_hash_of(data@),
        r@.len() == DIGEST_HEX_LEN,
{
    let digest = sha256_digest(data);
    hex_encode(digest.as_slice())
}

/// The digest of a file, given what was read of it: `None` for a file that
/// does not exist, else the digest of its whole contents.
pub fn file_sha256(contents: Option<&[u8]>) -> (r: Option<String>)
    requires
        contents matches Some(data) ==> data@.len() < 0x2000_0000_0000_0000,
    ensures
        contents is None ==> r is None,
        contents matches Some(data) ==> r matches Some(h) && h@ == content_hash_of(data@),
{
    match contents {
        Some(data) => Some(content_hash(data)),
        None => None,
    }
}

} // verus!
