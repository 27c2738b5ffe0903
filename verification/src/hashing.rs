//! The digest primitive that rebinds a loser's identity after battle.

use vstd::prelude::*;

verus! {

/// The 20-byte digest of a byte string, as the chain's hash
/// primitive computes it. Left uninterpreted: the validator only
/// compares it, it never reasons about its bits.
pub uninterp spec fn hash160_of(data: Seq<u8>) -> Seq<u8>;

/// Relies on `blake2b_ref::Blake2bBuilder`: a 32-byte blake2b digest
/// personalized with `ckb-default-hash`, truncated to its first 20
/// bytes. The digest is deterministic in `data` alone.
#[verifier::external_body]
pub(crate) fn blake2b160(data: &Vec<u8>) -> (r: Vec<u8>)
    ensures
        r@ == hash160_of(data@),
        r@.len() == 20,
{
    let mut out = [0u8; 32];
    let mut hasher = blake2b_ref::Blake2bBuilder::new(32).personal(b"ckb-default-hash").build();
    hasher.update(data.as_slice());
    hasher.finalize(&mut out);
    out[0..20].to_vec()
}

} // verus!
