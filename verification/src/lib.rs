//! A pay-to-reveal content marketplace core: a creator posts a priced piece of
//! gossip, a buyer pays to reveal it, re-sharers resell revealed gossip at a
//! discount, and proceeds accumulate in one-shot escrow vaults until their
//! owners withdraw them.
//!
//! The library is the settlement state machine alone: pricing, revenue
//! splitting, the hidden-to-revealed transitions, and vault creation and
//! destruction. Moving real balances between parties is the host ledger's
//! job; the engine tells its caller exactly what to transfer.

pub mod ids;
pub mod errors;
pub mod pricing;
pub mod model;
pub mod transitions;
pub mod state;
pub mod engine;
pub mod laws;

pub use ids::{Address, GossipId, ShareId, VaultId, Withdrawal};
pub use errors::GossipError;
pub use state::{Gossip, GossipVault, SharedGossip};
pub use engine::SettlementEngine;
