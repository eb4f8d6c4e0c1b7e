//! Error kinds of the settlement engine.
//!
//! Every failure is terminal for the call that raised it and carries a
//! specific kind; a failed operation changes no state.

use vstd::prelude::*;

verus! {

/// Why a settlement operation was rejected.
#[derive(Clone, Copy, Debug, PartialEq, Eq, Structural)]
pub enum GossipError {
    /// The request itself is ill-formed: the text exceeds the length bound,
    /// the payment does not equal the price, or the share already exists.
    InvalidInput,
    /// A reveal was attempted on an already-revealed gossip or share.
    AlreadyRevealed,
    /// The referenced gossip, share or vault does not exist.
    NotFound,
    /// A share was attempted on a gossip that is still hidden.
    NotRevealed,
    /// A withdrawal was attempted by a party other than the vault's owner.
    UnauthorizedWithdraw,
}

impl GossipError {
    /// A short human-readable name of the error kind.
    pub fn describe(&self) -> (r: &'static str)
        ensures
            r@ == match *self {
                GossipError::InvalidInput => "invalid input"@,
                GossipError::AlreadyRevealed => "already revealed"@,
                GossipError::NotFound => "not found"@,
                GossipError::NotRevealed => "not revealed"@,
                GossipError::UnauthorizedWithdraw => "unauthorized withdrawal"@,
            },
    {
        match *self {
            GossipError::InvalidInput => "invalid input",
            GossipError::AlreadyRevealed => "already revealed",
            GossipError::NotFound => "not found",
            GossipError::NotRevealed => "not revealed",
            GossipError::UnauthorizedWithdraw => "unauthorized withdrawal",
        }
    }
}

} // verus!
