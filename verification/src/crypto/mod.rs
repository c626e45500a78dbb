//! Key derivation, the password-authenticated key exchange and the
//! authenticated encryption of chunks.
use vstd::prelude::*;

pub mod kdf;
pub mod pake;
pub mod stream;

verus! {

/// What `blake3::hash` returns for an input (a 32-byte digest).
pub uninterp spec fn blake3_hash_spec(input: Seq<u8>) -> Seq<u8>;

/// `blake3::hash`: the BLAKE3 digest of `input`, as its 32 bytes. The digest
/// depends on the input alone.
#[verifier::external_body]
pub(crate) fn blake3_hash(input: &[u8]) -> (h: [u8; 32])
    ensures
        h@ == blake3_hash_spec(input@),
{
    blake3::hash(input).into()
}

} // verus!
