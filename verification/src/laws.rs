//! Laws of the settlement state machine that span several operations.
//!
//! The single-operation guarantees live in the transition functions and in
//! the pricing lemmas; here stand the guarantees about what a second
//! operation can still do after a first one succeeded.

use vstd::prelude::*;
use crate::errors::GossipError;
use crate::ids::{Address, GossipId, VaultId, Withdrawal};
use crate::model::{
    distinct_keys, find_gossip, find_vault, gossip_keys, lemma_count_take_mono,
    lemma_count_take_succ, lemma_find_key_props, lemma_find_key_remove_none,
    lemma_gossip_keys_update, lemma_vault_keys_remove, vault_keys, wf, wf_gossip_at, wf_gossips,
    EngineModel, GossipModel,
};
use crate::transitions::{spec_reveal, spec_withdraw};

verus! {

/// A gossip's identity is unique: the creator together with the
/// engine-assigned sequence number never names two records.
pub proof fn lemma_gossip_identity_unique(s: Seq<GossipModel>)
    requires
        wf_gossips(s),
    ensures
        distinct_keys(gossip_keys(s)),
{
    assert forall|i: int, j: int|
        0 <= i < j < gossip_keys(s).len() implies gossip_keys(s)[i] != gossip_keys(s)[j] by {
        assert(wf_gossip_at(s, i));
        assert(wf_gossip_at(s, j));
        if s[i].maker == s[j].maker {
            lemma_count_take_succ(s, s[j].maker, i);
            lemma_count_take_mono(s, s[j].maker, i + 1, j);
        } else {
            assert(s[i].gid().creator != s[j].gid().creator);
        }
    }
}

/// Revealing a gossip succeeds at most once: after a successful reveal,
/// every further reveal of the same gossip fails with `AlreadyRevealed`
/// and changes nothing, and the gossip's collected total has grown by
/// exactly its price, exactly once.
pub proof fn lemma_reveal_settles_exactly_once(
    m: EngineModel,
    id: GossipId,
    payment: u64,
    payment2: u64,
)
    requires
        wf(m),
        spec_reveal(m, id, payment).1 is Ok,
    ensures
        ({
            let m1 = spec_reveal(m, id, payment).0;
            let again = spec_reveal(m1, id, payment2);
            &&& again.1 == Err::<(), GossipError>(GossipError::AlreadyRevealed)
            &&& again.0 == m1
            &&& match (find_gossip(m.gossips, id), find_gossip(m1.gossips, id)) {
                (Some(i), Some(i1)) => i1 == i && m1.gossips[i1].total_collected
                    == m.gossips[i].total_collected + m.gossips[i].price,
                _ => false,
            }
        }),
{
    match find_gossip(m.gossips, id) {
        Some(i) => {
            lemma_find_key_props(gossip_keys(m.gossips), id);
            assert(wf_gossip_at(m.gossips, i));
            let g = m.gossips[i];
            let g2 = GossipModel {
                is_revealed: true,
                total_collected: (g.total_collected + payment) as u64,
                ..g
            };
            lemma_gossip_keys_update(m.gossips, i, g2);
            let m1 = spec_reveal(m, id, payment).0;
            assert(m1.gossips == m.gossips.update(i, g2));
            assert(find_gossip(m1.gossips, id) == Some(i));
            assert(m1.gossips[i] == g2);
        },
        None => {
            assert(false);
        },
    }
}

/// A vault drains exactly once: after a successful withdrawal, every
/// further withdrawal of the same vault identity fails with `NotFound`
/// and changes nothing, whoever attempts it.
pub proof fn lemma_withdraw_drains_exactly_once(
    m: EngineModel,
    caller: Address,
    vid: VaultId,
    destination: Address,
    caller2: Address,
    destination2: Address,
)
    requires
        wf(m),
        spec_withdraw(m, caller, vid, destination).1 is Ok,
    ensures
        ({
            let m1 = spec_withdraw(m, caller, vid, destination).0;
            let again = spec_withdraw(m1, caller2, vid, destination2);
            &&& again.1 == Err::<Withdrawal, GossipError>(GossipError::NotFound)
            &&& again.0 == m1
        }),
{
    match find_vault(m.vaults, vid) {
        Some(i) => {
            lemma_find_key_props(vault_keys(m.vaults), vid);
            lemma_vault_keys_remove(m.vaults, i);
            lemma_find_key_remove_none(vault_keys(m.vaults), i, vid);
        },
        None => {
            assert(false);
        },
    }
}

} // verus!
