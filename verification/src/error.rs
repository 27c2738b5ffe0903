//! The error taxonomy of the validator.

use vstd::prelude::*;

verus! {

/// The reason a transition was rejected.
///
/// Every check of the validator is local and terminal: the first
/// violated invariant aborts validation and surfaces its kind here.
#[derive(Clone, Copy, Debug, PartialEq, Eq, Structural)]
pub enum Error {
    /// A record payload has the wrong byte length.
    Encoding,
    /// Before/after cardinality mismatch, or an unexpected extra
    /// combatant next to the two of a battle.
    WrongInputOutput,
    /// Custody changed across a battle, or a combatant is ineligible
    /// because of a negative balance.
    UnmatchPlayer,
    /// A computed quantity (fish balance, identity rebinding, winner
    /// determination) disagrees with the claimed after-state.
    WrongResult,
    /// A non-battle transition changed record content.
    WrongTransfer,
}

} // verus!
