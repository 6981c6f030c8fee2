//! Content digests: SHA-256 over a file's bytes, written in lowercase
//! hexadecimal.

use sha2::{Digest, Sha256};
use vstd::prelude::*;

verus! {

/// Number of bytes in a SHA-256 digest.
pub const DIGEST_LEN: usize = 32;

/// Number of characters in the hexadecimal form of a digest.
pub const HASH_LEN: usize = 64;

/// The SHA-256 digest of `data`.
pub uninterp spec fn sha256(data: Seq<u8>) -> Seq<u8>;

/// The lowercase hexadecimal digit for a value below sixteen.
pub open spec fn hex_digit(nibble: int) -> char {
    if nibble < 10 {
        ('0' as int + nibble) as char
    } else {
        ('a' as int + nibble - 10) as char
    }
}

/// The character at position `i` of the hexadecimal form of `data`: the high
/// half of a byte comes first, then its low half.
pub open spec fn hex_char_at(data: Seq<u8>, i: int) -> char {
    if i % 2 == 0 {
        hex_digit(data[i / 2] as int / 16)
    } else {
        hex_digit(data[i / 2] as int % 16)
    }
}

/// `data` in lowercase hexadecimal, two digits for each byte.
pub open spec fn hex_lower(data: Seq<u8>) -> Seq<char> {
    Seq::new(2 * data.len(), |i: int| hex_char_at(data, i))
}

/// Whether `c` is one of `0`-`9`, `a`-`f`.
pub open spec fn is_hex_char(c: char) -> bool {
    ('0' <= c && c <= '9') || ('a' <= c && c <= 'f')
}

/// The hexadecimal form of the SHA-256 digest of `content`.
pub open spec fn content_hash_of(content: Seq<u8>) -> Seq<char> {
    hex_lower(sha256(content))
}

/// Every character of a hexadecimal form is a lowercase hexadecimal digit.
pub proof fn lemma_hex_chars(data: Seq<u8>)
    ensures
        hex_lower(data).len() == 2 * data.len(),
        forall|i: int| 0 <= i < hex_lower(data).len() ==> is_hex_char(#[trigger] hex_lower(data)[i]),
{
}

/// A hexadecimal form holds none of `.`, `-` and `/`.
pub proof fn lemma_hash_is_plain(data: Seq<u8>)
    ensures
        forall|i: int|
            0 <= i < hex_lower(data).len() ==> (#[trigger] hex_lower(data)[i]) != '.' && hex_lower(
                data,
            )[i] != '-' && hex_lower(data)[i] != '/',
{
    lemma_hex_chars(data);
}

/// Different bytes have different hexadecimal forms.
pub proof fn lemma_hex_injective(first: Seq<u8>, second: Seq<u8>)
    requires
        hex_lower(first) == hex_lower(second),
    ensures
        first == second,
{
    assert(hex_lower(first).len() == 2 * first.len());
    assert forall|i: int| 0 <= i < first.len() implies first[i] == second[i] by {
        assert(hex_lower(first)[2 * i] == hex_digit(first[i] as int / 16));
        assert(hex_lower(first)[2 * i + 1] == hex_digit(first[i] as int % 16));
    }
}

/// Calls `sha2::Sha256::digest` on `data`. Trusted: the result is the
/// SHA-256 digest of `data`, which depends on `data` alone and has 32 bytes.
#[verifier::external_body]
pub(crate) fn sha256_digest(data: &[u8]) -> (digest: Vec<u8>)
    ensures
        digest@ == sha256(data@),
        digest@.len() == DIGEST_LEN,
{
    Sha256::digest(data).to_vec()
}

/// Calls `hex::encode` on `data`. Trusted: the result holds two lowercase
/// hexadecimal digits for each byte, in order, the high half first.
#[verifier::external_body]
pub(crate) fn hex_encode(data: &[u8]) -> (text: String)
    ensures
        text@ == hex_lower(data@),
{
    hex::encode(data)
}

/// The hash of `content` as it appears in file names: its SHA-256 digest in
/// lowercase hexadecimal.
pub fn content_hash(content: &[u8]) -> (hash: String)
    ensures
        hash@ == content_hash_of(content@),
        hash@.len() == HASH_LEN,
{
    let digest = sha256_digest(content);
    hex_encode(digest.as_slice())
}

} // verus!
