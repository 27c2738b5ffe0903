//! Gameplay attributes derived from a record's identity hash.

use vstd::prelude::*;

verus! {

/// The four derived battle attributes. They are never persisted:
/// they are recomputed from the identity hash alone.
#[derive(Clone, Copy, Debug, PartialEq, Eq, Structural)]
pub struct Statistics {
    pub hp: u8,
    pub atk: u8,
    pub def: u8,
    pub lck: u8,
}

/// The attributes a 20-byte identity hash derives: the last byte of
/// each five-byte group, mapped into `[1, 100]`.
pub open spec fn spec_stats(h: Seq<u8>) -> Statistics
    recommends
        h.len() == 20,
{
    Statistics {
        hp: (h[4] % 100 + 1) as u8,
        atk: (h[9] % 100 + 1) as u8,
        def: (h[14] % 100 + 1) as u8,
        lck: (h[19] % 100 + 1) as u8,
    }
}

impl Statistics {
    /// Every attribute lies in `[1, 100]`.
    pub open spec fn wf(&self) -> bool {
        1 <= self.hp <= 100 && 1 <= self.atk <= 100 && 1 <= self.def <= 100 && 1 <= self.lck
            <= 100
    }

    /// Derives the attributes of an identity hash. Total over all
    /// 20-byte inputs, with no failure mode.
    pub fn from_hash(h: &Vec<u8>) -> (r: Statistics)
        requires
            h@.len() == 20,
        ensures
            r == spec_stats(h@),
            r.wf(),
    {
        Statistics {
            hp: h[4] % 100 + 1,
            atk: h[9] % 100 + 1,
            def: h[14] % 100 + 1,
            lck: h[19] % 100 + 1,
        }
    }
}

/// Stat derivation is a pure function of the hash (a spec function
/// cannot say otherwise), and every derived attribute lies in
/// `[1, 100]`.
pub proof fn lemma_stats_in_range(h: Seq<u8>)
    requires
        h.len() == 20,
    ensures
        spec_stats(h).wf(),
{
}

} // verus!
