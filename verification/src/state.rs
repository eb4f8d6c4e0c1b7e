//! The stored records: gossip items, shares and escrow vaults.
//!
//! Each record views as its model counterpart; the engine's contracts are
//! stated over those views.

use vstd::prelude::*;
use crate::ids::{Address, GossipId, ShareId, VaultId};
use crate::model::{GossipModel, ShareModel, VaultModel};

verus! {

/// One piece of gated content: hidden at creation, revealed at most once.
pub struct Gossip {
    /// The creator of the gossip.
    pub maker: Address,
    /// Per-creator sequence number; with `maker` it forms the identity.
    pub index: u64,
    /// The text of the gossip, at most `MAX_TEXT_LEN` characters.
    pub text: String,
    /// The person mentioned in the gossip, if any.
    pub mention: Option<Address>,
    /// Whether the gossip has been revealed.
    pub is_revealed: bool,
    /// The price of the gossip, fixed at creation.
    pub price: u64,
    /// Total amount collected.
    pub total_collected: u64,
}

impl View for Gossip {
    type V = GossipModel;

    open spec fn view(&self) -> GossipModel {
        GossipModel {
            maker: self.maker,
            index: self.index,
            text: self.text@,
            mention: self.mention,
            is_revealed: self.is_revealed,
            price: self.price,
            total_collected: self.total_collected,
        }
    }
}

impl Gossip {
    /// The identity of this gossip.
    pub fn id(&self) -> (r: GossipId)
        ensures
            r == self@.gid(),
    {
        GossipId { creator: self.maker, index: self.index }
    }
}

/// A re-share of an already-revealed gossip.
pub struct SharedGossip {
    /// Reference to the original gossip.
    pub original: GossipId,
    /// User who shared this gossip.
    pub sharer: Address,
    /// Original gossip creator, cached at share time.
    pub original_creator: Address,
    /// Whether this share has been revealed.
    pub is_revealed: bool,
    /// Price to reveal this shared gossip.
    pub share_price: u64,
    /// Total earnings from this share.
    pub total_collected: u64,
}

impl View for SharedGossip {
    type V = ShareModel;

    open spec fn view(&self) -> ShareModel {
        ShareModel {
            original: self.original,
            sharer: self.sharer,
            original_creator: self.original_creator,
            is_revealed: self.is_revealed,
            share_price: self.share_price,
            total_collected: self.total_collected,
        }
    }
}

impl SharedGossip {
    /// The identity of this share.
    pub fn id(&self) -> (r: ShareId)
        ensures
            r == self@.sid(),
    {
        ShareId { original: self.original, sharer: self.sharer }
    }
}

/// A one-shot escrow vault: created by a settlement, destroyed by the one
/// withdrawal of its whole balance.
pub struct GossipVault {
    /// The settlement event that created the vault; its storage key.
    pub vault_id: VaultId,
    /// The only party entitled to withdraw.
    pub owner: Address,
    /// The balance held.
    pub amount: u64,
}

impl View for GossipVault {
    type V = VaultModel;

    open spec fn view(&self) -> VaultModel {
        VaultModel { id: self.vault_id, owner: self.owner, amount: self.amount }
    }
}

} // verus!
