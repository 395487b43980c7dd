//! The message digest used by the engine-backed signature path,
//! treated as an opaque primitive with a named result.

use vstd::prelude::*;

use sha2::Digest;

verus! {

/// The SHA-384 digest of a byte string: a function of the input alone.
pub uninterp spec fn sha384_of(m: Seq<u8>) -> Seq<u8>;

/// Relies on `sha2::Sha384`: the digest depends on the input alone and
/// is 48 bytes long, so the result gets a name.
#[verifier::external_body]
pub(crate) fn sha384(data: &[u8]) -> (r: Vec<u8>)
    ensures
        r@ == sha384_of(data@),
        r@.len() == 48,
{
    let mut h = sha2::Sha384::new();
    h.update(data);
    h.finalize().to_vec()
}

} // verus!
