//! SHA-256, from which names and delays are derived.
use vstd::prelude::*;

verus! {

/// What `sha2::Sha256` computes for the bytes that it is given.
pub uninterp spec fn sha256(data: Seq<u8>) -> Seq<u8>;

/// The SHA-256 digest of a text in UTF-8.
pub open spec fn text_sha256(text: Seq<char>) -> Seq<u8> {
    sha256(vstd::utf8::encode_utf8(text))
}

/// The SHA-256 digest of `data`.
///
/// Calls `digest` of `sha2::Sha256`. It gives the result a name, and claims that it has 32 bytes.
#[verifier::external_body]
pub(crate) fn sha256_digest(data: &[u8]) -> (r: Vec<u8>)
    ensures
        r@ == sha256(data@),
        r@.len() == 32,
{
    <sha2::Sha256 as sha2::Digest>::digest(data).to_vec()
}

} // verus!
