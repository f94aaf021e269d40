//! Fingerprints of downloaded bytes.

use sha2::{Digest, Sha256};

use vstd::prelude::*;

use crate::text;

verus! {

/// The SHA-256 digest of the given bytes.
pub uninterp spec fn sha256_digest(data: Seq<u8>) -> Seq<u8>;

/// `Sha256::digest` of the `sha2` crate: the digest of the bytes, 32 bytes long. Which
/// bytes these are is left to that crate.
#[verifier::external_body]
pub(crate) fn sha256(data: &[u8]) -> (digest: Vec<u8>)
    ensures
        digest@ == sha256_digest(data@),
        digest@.len() == 32,
{
    Sha256::digest(data).to_vec()
}

/// The first `count` bytes in hexadecimal, or all of them where there are fewer.
pub open spec fn hex_prefix(digest: Seq<u8>, count: nat) -> Seq<char> {
    text::hex_digits(
        if count <= digest.len() {
            digest.take(count as int)
        } else {
            digest
        },
    )
}

/// The first `count` bytes in hexadecimal, or all of them where there are fewer.
pub fn short_hex(digest: &[u8], count: usize) -> (s: String)
    ensures
        s@ == hex_prefix(digest@, count as nat),
{
    if count <= digest.len() {
        text::hex(vstd::slice::slice_subrange(digest, 0, count))
    } else {
        text::hex(digest)
    }
}

/// The content hash of a body: the first 16 bytes of its SHA-256 digest, which makes 32
/// hexadecimal digits.
pub fn content_hash(bytes: &[u8]) -> (s: String)
    ensures
        s@ == hex_prefix(sha256_digest(bytes@), 16),
        s@.len() == 32,
{
    let digest = sha256(bytes);
    short_hex(digest.as_slice(), 16)
}

/// A fingerprint is made of the first bytes of a digest, in order, each as two of the
/// digits `0123456789abcdef`, the high half first.
pub proof fn fingerprints_are_the_first_bytes(digest: Seq<u8>, count: nat)
    requires
        count <= digest.len(),
    ensures
        hex_prefix(digest, count).len() == 2 * count,
        forall|i: int|
            0 <= i < count ==> {
                &&& hex_prefix(digest, count)[2 * i] == "0123456789abcdef"@[(#[trigger] digest[i]
                    / 16) as int]
                &&& hex_prefix(digest, count)[2 * i + 1] == "0123456789abcdef"@[(digest[i]
                    % 16) as int]
            },
{
    let first = digest.take(count as int);
    text::hex_digits_are_lower_case(first);
    assert forall|i: int| 0 <= i < count implies {
        &&& hex_prefix(digest, count)[2 * i] == "0123456789abcdef"@[(#[trigger] digest[i]
            / 16) as int]
        &&& hex_prefix(digest, count)[2 * i + 1] == "0123456789abcdef"@[(digest[i] % 16) as int]
    } by {
        assert(first[i] == digest[i]);
    }
}

} // verus!
