//! Hashing with BLAKE2b.
use vstd::prelude::*;

verus! {

/// The 32-byte BLAKE2b digest of `data` (unkeyed, digest length 32).
pub uninterp spec fn blake2b_256(data: Seq<u8>) -> Seq<u8>;

/// Computes the 32-byte BLAKE2b digest of `bytes` with `blake2_rfc::blake2b::Blake2b`:
/// a context created with `Blake2b::new(32)`, fed `bytes` with `update`, then
/// `finalize`d. The contract claims only that the result is the named digest of the input;
/// that its length is 32 follows from the array type. `update` panics only when more than
/// `u64::MAX` bytes are fed in, which a slice cannot hold.
#[verifier::external_body]
pub(crate) fn compute_blake2b256(bytes: &[u8]) -> (digest: [u8; 32])
    ensures
        digest@ == blake2b_256(bytes@),
{
    let mut context = blake2_rfc::blake2b::Blake2b::new(32);
    context.update(bytes);
    let mut digest = [0u8; 32];
    digest.copy_from_slice(context.finalize().as_bytes());
    digest
}

} // verus!
