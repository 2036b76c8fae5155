//! SHA-256 digests and their hexadecimal rendering.

use sha2::{Digest, Sha256};
use vstd::prelude::*;

use crate::text::hex_text;

verus! {

/// The SHA-256 digest of a byte sequence.
pub uninterp spec fn sha256_digest(bytes: Seq<u8>) -> Seq<u8>;

/// Calls `sha2::Sha256::digest`. The result is the thirty-two byte digest of the
/// argument and depends on nothing else.
#[verifier::external_body]
fn sha256(bytes: &[u8]) -> (digest: Vec<u8>)
    ensures
        digest@ == sha256_digest(bytes@),
        digest@.len() == 32,
{
    Sha256::digest(bytes).to_vec()
}

/// The raw digest of `bytes`.
pub fn digest_bytes(bytes: &[u8]) -> (digest: Vec<u8>)
    ensures
        digest@ == sha256_digest(bytes@),
        digest@.len() == 32,
{
    sha256(bytes)
}

/// The digest of `bytes` in lower-case hexadecimal.
pub fn digest_hex(bytes: &[u8]) -> (text: String)
    ensures
        text@ == crate::text::hex_of(sha256_digest(bytes@)),
{
    let digest = sha256(bytes);
    hex_text(digest.as_slice())
}

} // verus!
