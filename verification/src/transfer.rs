//! The transfer validator: record content must be preserved record
//! for record; only custody (tracked outside) may change.

use crate::error::Error;
use crate::record::{rec_views, NFTData, NFTView};
use vstd::prelude::*;

verus! {

/// Two record views carry the same complete value.
pub open spec fn rec_eq(a: NFTView, b: NFTView) -> bool {
    a.name == b.name && a.hash == b.hash && a.fishes == b.fishes
}

/// The transfer rule: the transition is accepted when the records
/// of each slot carry the same complete value on both sides.
pub open spec fn spec_transfer(ins: Seq<NFTView>, outs: Seq<NFTView>) -> Result<(), Error>
    recommends
        ins.len() == outs.len(),
{
    if exists|i: int| 0 <= i < ins.len() && !rec_eq(#[trigger] ins[i], outs[i]) {
        Err(Error::WrongTransfer)
    } else {
        Ok(())
    }
}

/// Transfer idempotence: a before sequence paired with an identical
/// after sequence of any length always validates as a transfer.
pub proof fn lemma_transfer_idempotent(recs: Seq<NFTView>)
    ensures
        spec_transfer(recs, recs) == Ok::<(), Error>(()),
{
}

/// Validates a pure custody transfer.
pub fn validate_transfer(ins: &Vec<NFTData>, outs: &Vec<NFTData>) -> (r: Result<(), Error>)
    requires
        ins@.len() == outs@.len(),
    ensures
        r == spec_transfer(rec_views(ins@), rec_views(outs@)),
{
    let mut i: usize = 0;
    while i < ins.len()
        invariant
            0 <= i <= ins@.len(),
            ins@.len() == outs@.len(),
            forall|j: int|
                0 <= j < i ==> rec_eq(#[trigger] rec_views(ins@)[j], rec_views(outs@)[j]),
        decreases ins@.len() - i,
    {
        if !ins[i].content_eq(&outs[i]) {
            proof {
                assert(!rec_eq(rec_views(ins@)[i as int], rec_views(outs@)[i as int]));
            }
            return Err(Error::WrongTransfer);
        }
        i += 1;
    }
    Ok(())
}

} // verus!
