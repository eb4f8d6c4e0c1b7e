//! Identities for the entities of the marketplace.
//!
//! All identities are plain values: an opaque fixed-width address for
//! parties, and deterministic composite keys for gossip items, shares and
//! vaults, mirroring how the host derives storage slots.

use vstd::prelude::*;

verus! {

/// An opaque fixed-width address of a party (creator, sharer, buyer, payee).
#[derive(Clone, Copy, Debug, PartialEq, Eq, Structural)]
pub struct Address {
    pub value: u64,
}

/// Identity of a gossip item: the creator together with a per-creator
/// sequence number assigned by the engine at creation.
#[derive(Clone, Copy, Debug, PartialEq, Eq, Structural)]
pub struct GossipId {
    pub creator: Address,
    pub index: u64,
}

/// Identity of a share: the re-shared gossip together with the sharer.
/// One party can hold at most one share of a given gossip.
#[derive(Clone, Copy, Debug, PartialEq, Eq, Structural)]
pub struct ShareId {
    pub original: GossipId,
    pub sharer: Address,
}

/// Identity of an escrow vault, derived from the settlement event that
/// creates it: revealing a gossip funds one vault; revealing a share funds
/// one vault for the original creator and one for the sharer.
#[derive(Clone, Copy, Debug, PartialEq, Eq, Structural)]
pub enum VaultId {
    /// The single vault funded by revealing the gossip itself.
    Gossip(GossipId),
    /// The original creator's vault funded by revealing the share.
    ShareCreator(ShareId),
    /// The sharer's vault funded by revealing the share.
    ShareSharer(ShareId),
}

/// The transfer a successful withdrawal instructs the host ledger to
/// perform: credit `amount` to `to`.
#[derive(Clone, Copy, Debug, PartialEq, Eq, Structural)]
pub struct Withdrawal {
    pub to: Address,
    pub amount: u64,
}

} // verus!
