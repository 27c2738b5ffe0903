//! An on-chain transition validator for a small game-asset ledger.
//!
//! Given the "before" and "after" record sets of a transition, the
//! validator decides whether the transition is a sanctioned mint,
//! transfer, or battle, and rejects any other change.

pub mod battle;
pub mod bytes;
pub mod error;
pub mod hashing;
pub mod record;
pub mod stats;
pub mod transfer;
pub mod validate;
