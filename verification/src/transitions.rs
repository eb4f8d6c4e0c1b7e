//! The settlement state machine, as spec-level transition functions.
//!
//! Each transition takes a model state and the operation's inputs and
//! returns the next state together with the operation's result. A failed
//! operation returns the state unchanged: every mutation is all-or-nothing.
//! The engine's executable operations are proved to follow these functions
//! exactly, and the library's laws are stated over them.

use vstd::prelude::*;
use crate::errors::GossipError;
use crate::ids::{Address, GossipId, ShareId, VaultId, Withdrawal};
use crate::model::{
    count_by_creator, find_gossip, find_share, find_vault, gossip_keys,
    lemma_count_take_update_same_maker, lemma_find_key_props, lemma_find_key_push,
    lemma_distinct_remove, lemma_gossip_keys_push, lemma_gossip_keys_update,
    lemma_next_index_fresh, lemma_share_keys_push, lemma_share_keys_update, lemma_vault_keys_push,
    lemma_vault_keys_remove, share_keys, vault_keys, wf, wf_gossip_at, wf_share_at, wf_vault_at,
    EngineModel, GossipModel, ShareModel, VaultModel,
};
use crate::pricing::{
    lemma_price_bounded, lemma_share_price_bounds, lemma_split_bounds, lemma_split_positive,
    lemma_share_price_monotonic, spec_creator_amount, spec_price, spec_share_price,
    spec_sharer_amount, BASE_PRICE, MAX_TEXT_LEN,
};

verus! {

/// Creating a gossip: rejected when the text exceeds the length bound;
/// otherwise a new hidden item is appended, priced by the pricing policy
/// and keyed by the creator and the creator's next sequence number.
pub open spec fn spec_create(
    m: EngineModel,
    creator: Address,
    text: Seq<char>,
    mention: Option<Address>,
) -> (EngineModel, Result<GossipId, GossipError>) {
    if text.len() > MAX_TEXT_LEN {
        (m, Err(GossipError::InvalidInput))
    } else if count_by_creator(m.gossips, creator) > u64::MAX {
        // Unreachable for any state a real machine can hold; stated so the
        // sequence number below never wraps.
        (m, Err(GossipError::InvalidInput))
    } else {
        let g = GossipModel {
            maker: creator,
            index: count_by_creator(m.gossips, creator) as u64,
            text: text,
            mention: mention,
            is_revealed: false,
            price: spec_price(text.len(), mention is Some) as u64,
            total_collected: 0,
        };
        (EngineModel { gossips: m.gossips.push(g), ..m }, Ok(g.gid()))
    }
}

/// Revealing a gossip: rejected when the gossip does not exist, was
/// already revealed, or the payment is not exactly its price; otherwise
/// the gossip is marked revealed, its collected total grows by the
/// payment, and one vault holding the full price is created for the maker.
pub open spec fn spec_reveal(m: EngineModel, id: GossipId, payment: u64) -> (
    EngineModel,
    Result<(), GossipError>,
) {
    match find_gossip(m.gossips, id) {
        None => (m, Err(GossipError::NotFound)),
        Some(i) => {
            let g = m.gossips[i];
            if g.is_revealed {
                (m, Err(GossipError::AlreadyRevealed))
            } else if payment != g.price {
                (m, Err(GossipError::InvalidInput))
            } else {
                let g2 = GossipModel {
                    is_revealed: true,
                    total_collected: (g.total_collected + payment) as u64,
                    ..g
                };
                let v = VaultModel { id: VaultId::Gossip(id), owner: g.maker, amount: g.price };
                (
                    EngineModel {
                        gossips: m.gossips.update(i, g2),
                        vaults: m.vaults.push(v),
                        ..m
                    },
                    Ok(()),
                )
            }
        },
    }
}

/// Sharing a gossip: rejected when the gossip does not exist, is still
/// hidden, or the sharer already holds a share of it; otherwise a new
/// hidden share is appended, priced at the share-price policy of the
/// original's price, caching the original's maker.
pub open spec fn spec_share(m: EngineModel, sharer: Address, id: GossipId) -> (
    EngineModel,
    Result<ShareId, GossipError>,
) {
    match find_gossip(m.gossips, id) {
        None => (m, Err(GossipError::NotFound)),
        Some(i) => {
            let g = m.gossips[i];
            if !g.is_revealed {
                (m, Err(GossipError::NotRevealed))
            } else {
                let sid = ShareId { original: id, sharer: sharer };
                if find_share(m.shares, sid) is Some {
                    (m, Err(GossipError::InvalidInput))
                } else {
                    let sh = ShareModel {
                        original: id,
                        sharer: sharer,
                        original_creator: g.maker,
                        is_revealed: false,
                        share_price: spec_share_price(g.price as int) as u64,
                        total_collected: 0,
                    };
                    (EngineModel { shares: m.shares.push(sh), ..m }, Ok(sid))
                }
            }
        },
    }
}

/// Revealing a share: rejected when the share does not exist, was already
/// revealed, or the payment is not exactly its price; otherwise the share
/// is marked revealed, its collected total grows by the payment, and two
/// vaults are created in the same step: the revenue split's creator amount
/// for the cached original creator and its sharer amount for the sharer.
pub open spec fn spec_reveal_shared(m: EngineModel, sid: ShareId, payment: u64) -> (
    EngineModel,
    Result<(), GossipError>,
) {
    match find_share(m.shares, sid) {
        None => (m, Err(GossipError::NotFound)),
        Some(i) => {
            let sh = m.shares[i];
            if sh.is_revealed {
                (m, Err(GossipError::AlreadyRevealed))
            } else if payment != sh.share_price {
                (m, Err(GossipError::InvalidInput))
            } else {
                let sh2 = ShareModel {
                    is_revealed: true,
                    total_collected: (sh.total_collected + payment) as u64,
                    ..sh
                };
                let cv = VaultModel {
                    id: VaultId::ShareCreator(sid),
                    owner: sh.original_creator,
                    amount: spec_creator_amount(sh.share_price as int) as u64,
                };
                let sv = VaultModel {
                    id: VaultId::ShareSharer(sid),
                    owner: sh.sharer,
                    amount: spec_sharer_amount(sh.share_price as int) as u64,
                };
                (
                    EngineModel {
                        shares: m.shares.update(i, sh2),
                        vaults: m.vaults.push(cv).push(sv),
                        ..m
                    },
                    Ok(()),
                )
            }
        },
    }
}

/// Withdrawing a vault: rejected when the vault does not exist or the
/// caller is not its owner; otherwise the vault ceases to exist and the
/// host is instructed to credit its whole balance to the destination.
pub open spec fn spec_withdraw(
    m: EngineModel,
    caller: Address,
    vid: VaultId,
    destination: Address,
) -> (EngineModel, Result<Withdrawal, GossipError>) {
    match find_vault(m.vaults, vid) {
        None => (m, Err(GossipError::NotFound)),
        Some(i) => {
            let v = m.vaults[i];
            if caller != v.owner {
                (m, Err(GossipError::UnauthorizedWithdraw))
            } else {
                (
                    EngineModel { vaults: m.vaults.remove(i), ..m },
                    Ok(Withdrawal { to: destination, amount: v.amount }),
                )
            }
        },
    }
}

/// Creating a gossip preserves the engine invariant.
pub proof fn lemma_spec_create_wf(
    m: EngineModel,
    creator: Address,
    text: Seq<char>,
    mention: Option<Address>,
)
    requires
        wf(m),
    ensures
        wf(spec_create(m, creator, text, mention).0),
{
    let s = m.gossips;
    if text.len() <= MAX_TEXT_LEN && count_by_creator(s, creator) <= u64::MAX {
        let g = GossipModel {
            maker: creator,
            index: count_by_creator(s, creator) as u64,
            text: text,
            mention: mention,
            is_revealed: false,
            price: spec_price(text.len(), mention is Some) as u64,
            total_collected: 0,
        };
        let s2 = s.push(g);
        let m2 = spec_create(m, creator, text, mention).0;
        assert(m2.gossips == s2 && m2.shares == m.shares && m2.vaults == m.vaults);
        lemma_price_bounded(text.len(), mention is Some);
        lemma_next_index_fresh(s, creator);
        lemma_gossip_keys_push(s, g);
        // No existing gossip carries the fresh key.
        assert forall|j: int| 0 <= j < s.len() implies (#[trigger] s[j]).gid() != g.gid() by {
            assert(wf_gossip_at(s, j));
        }
        assert forall|j: int| 0 <= j < s2.len() implies wf_gossip_at(s2, j) by {
            if j < s.len() {
                assert(wf_gossip_at(s, j));
                assert(s2.take(j) =~= s.take(j));
            } else {
                assert(s2.take(j) =~= s);
                assert(s2[j] == g);
            }
        }
        assert forall|j: int| 0 <= j < m2.shares.len() implies wf_share_at(m2, j) by {
            assert(wf_share_at(m, j));
            let sh = m.shares[j];
            lemma_find_key_props(gossip_keys(s), sh.original);
            match find_gossip(s, sh.original) {
                Some(i) => {
                    assert(gossip_keys(s)[i] == sh.original);
                    assert(s[i].gid() == sh.original);
                    lemma_find_key_push(gossip_keys(s), g.gid(), sh.original);
                    assert(find_gossip(s2, sh.original) == Some(i));
                    assert(s2[i] == s[i]);
                },
                None => {
                    assert(false);
                },
            }
        }
        assert forall|j: int| 0 <= j < m2.vaults.len() implies wf_vault_at(m2, j) by {
            assert(wf_vault_at(m, j));
            let v = m.vaults[j];
            match v.id {
                VaultId::Gossip(gid) => {
                    lemma_find_key_props(gossip_keys(s), gid);
                    match find_gossip(s, gid) {
                        Some(i) => {
                            assert(gossip_keys(s)[i] == gid);
                            assert(s[i].gid() == gid);
                            lemma_find_key_push(gossip_keys(s), g.gid(), gid);
                            assert(find_gossip(s2, gid) == Some(i));
                            assert(s2[i] == s[i]);
                        },
                        None => {
                            assert(false);
                        },
                    }
                },
                VaultId::ShareCreator(_) => {},
                VaultId::ShareSharer(_) => {},
            }
        }
    }
}

/// Revealing a gossip preserves the engine invariant.
pub proof fn lemma_spec_reveal_wf(m: EngineModel, id: GossipId, payment: u64)
    requires
        wf(m),
    ensures
        wf(spec_reveal(m, id, payment).0),
{
    let s = m.gossips;
    match find_gossip(s, id) {
        None => {},
        Some(i) => {
            let g = s[i];
            if !g.is_revealed && payment == g.price {
                lemma_find_key_props(gossip_keys(s), id);
                assert(gossip_keys(s)[i] == id);
                assert(s[i].gid() == id);
                assert(wf_gossip_at(s, i));
                let g2 = GossipModel {
                    is_revealed: true,
                    total_collected: (g.total_collected + payment) as u64,
                    ..g
                };
                let s2 = s.update(i, g2);
                let v = VaultModel { id: VaultId::Gossip(id), owner: g.maker, amount: g.price };
                let m2 = spec_reveal(m, id, payment).0;
                assert(m2.gossips == s2 && m2.shares == m.shares && m2.vaults == m.vaults.push(v));
                lemma_gossip_keys_update(s, i, g2);
                lemma_vault_keys_push(m.vaults, v);
                assert forall|j: int| 0 <= j < s2.len() implies wf_gossip_at(s2, j) by {
                    assert(wf_gossip_at(s, j));
                    lemma_count_take_update_same_maker(s, i, g2, s2[j].maker, j);
                }
                assert forall|j: int| 0 <= j < m2.shares.len() implies wf_share_at(m2, j) by {
                    assert(wf_share_at(m, j));
                    let sh = m.shares[j];
                    lemma_find_key_props(gossip_keys(s), sh.original);
                    match find_gossip(s, sh.original) {
                        Some(i0) => {
                            assert(find_gossip(s2, sh.original) == Some(i0));
                            if i0 == i {
                                // The referenced original is revealed, but the
                                // gossip being revealed here was not: impossible.
                                assert(false);
                            } else {
                                assert(s2[i0] == s[i0]);
                            }
                        },
                        None => {
                            assert(false);
                        },
                    }
                }
                assert forall|j: int| 0 <= j < m2.vaults.len() implies wf_vault_at(m2, j) by {
                    if j < m.vaults.len() {
                        assert(wf_vault_at(m, j));
                        let vj = m.vaults[j];
                        assert(m2.vaults[j] == vj);
                        match vj.id {
                            VaultId::Gossip(gid) => {
                                lemma_find_key_props(gossip_keys(s), gid);
                                match find_gossip(s, gid) {
                                    Some(i0) => {
                                        assert(find_gossip(s2, gid) == Some(i0));
                                        if i0 == i {
                                            assert(false);
                                        } else {
                                            assert(s2[i0] == s[i0]);
                                        }
                                    },
                                    None => {
                                        assert(false);
                                    },
                                }
                            },
                            VaultId::ShareCreator(_) => {},
                            VaultId::ShareSharer(_) => {},
                        }
                    } else {
                        assert(m2.vaults[j] == v);
                        assert(find_gossip(s2, id) == Some(i));
                        assert(s2[i] == g2);
                        assert(g.price >= BASE_PRICE);
                    }
                }
                let vk2 = vault_keys(m2.vaults);
                assert forall|a: int, b: int| 0 <= a < b < vk2.len() implies vk2[a] != vk2[b] by {
                    assert(vk2 == vault_keys(m.vaults).push(v.id));
                    if b == m.vaults.len() as int {
                        assert(vk2[a] == m.vaults[a].id);
                        if m.vaults[a].id == v.id {
                            assert(wf_vault_at(m, a));
                            assert(false);
                        }
                    }
                }
            }
        },
    }
}

/// Sharing a gossip preserves the engine invariant.
pub proof fn lemma_spec_share_wf(m: EngineModel, sharer: Address, id: GossipId)
    requires
        wf(m),
    ensures
        wf(spec_share(m, sharer, id).0),
{
    let s = m.gossips;
    match find_gossip(s, id) {
        None => {},
        Some(i) => {
            let g = s[i];
            let sid = ShareId { original: id, sharer: sharer };
            if g.is_revealed && find_share(m.shares, sid) is None {
                lemma_find_key_props(gossip_keys(s), id);
                assert(s[i].gid() == id);
                assert(wf_gossip_at(s, i));
                let sh = ShareModel {
                    original: id,
                    sharer: sharer,
                    original_creator: g.maker,
                    is_revealed: false,
                    share_price: spec_share_price(g.price as int) as u64,
                    total_collected: 0,
                };
                let sh2s = m.shares.push(sh);
                let m2 = spec_share(m, sharer, id).0;
                assert(m2.gossips == s && m2.shares == sh2s && m2.vaults == m.vaults);
                lemma_share_price_bounds(g.price as int);
                lemma_share_keys_push(m.shares, sh);
                lemma_find_key_props(share_keys(m.shares), sid);
                // The new key is absent from the old shares.
                assert forall|j: int| 0 <= j < m2.shares.len() implies wf_share_at(m2, j) by {
                    if j < m.shares.len() {
                        assert(wf_share_at(m, j));
                        assert(m2.shares[j] == m.shares[j]);
                    } else {
                        assert(m2.shares[j] == sh);
                    }
                }
                let sk2 = share_keys(m2.shares);
                assert forall|a: int, b: int| 0 <= a < b < sk2.len() implies sk2[a] != sk2[b] by {
                    assert(sk2 == share_keys(m.shares).push(sid));
                    if b == m.shares.len() as int {
                        assert(sk2[a] == share_keys(m.shares)[a]);
                    }
                }
                assert forall|j: int| 0 <= j < m2.vaults.len() implies wf_vault_at(m2, j) by {
                    assert(wf_vault_at(m, j));
                    let v = m.vaults[j];
                    match v.id {
                        VaultId::Gossip(_) => {},
                        VaultId::ShareCreator(sv) => {
                            lemma_find_key_props(share_keys(m.shares), sv);
                            match find_share(m.shares, sv) {
                                Some(i0) => {
                                    assert(share_keys(m.shares)[i0] == sv);
                                    lemma_find_key_push(share_keys(m.shares), sid, sv);
                                    assert(find_share(sh2s, sv) == Some(i0));
                                    assert(sh2s[i0] == m.shares[i0]);
                                },
                                None => {
                                    assert(false);
                                },
                            }
                        },
                        VaultId::ShareSharer(sv) => {
                            lemma_find_key_props(share_keys(m.shares), sv);
                            match find_share(m.shares, sv) {
                                Some(i0) => {
                                    assert(share_keys(m.shares)[i0] == sv);
                                    lemma_find_key_push(share_keys(m.shares), sid, sv);
                                    assert(find_share(sh2s, sv) == Some(i0));
                                    assert(sh2s[i0] == m.shares[i0]);
                                },
                                None => {
                                    assert(false);
                                },
                            }
                        },
                    }
                }
            }
        },
    }
}

/// Revealing a share preserves the engine invariant.
pub proof fn lemma_spec_reveal_shared_wf(m: EngineModel, sid: ShareId, payment: u64)
    requires
        wf(m),
    ensures
        wf(spec_reveal_shared(m, sid, payment).0),
{
    match find_share(m.shares, sid) {
        None => {},
        Some(i) => {
            let sh = m.shares[i];
            if !sh.is_revealed && payment == sh.share_price {
                lemma_find_key_props(share_keys(m.shares), sid);
                assert(m.shares[i].sid() == sid);
                assert(wf_share_at(m, i));
                let sh2 = ShareModel {
                    is_revealed: true,
                    total_collected: (sh.total_collected + payment) as u64,
                    ..sh
                };
                let shs2 = m.shares.update(i, sh2);
                let cv = VaultModel {
                    id: VaultId::ShareCreator(sid),
                    owner: sh.original_creator,
                    amount: spec_creator_amount(sh.share_price as int) as u64,
                };
                let sv = VaultModel {
                    id: VaultId::ShareSharer(sid),
                    owner: sh.sharer,
                    amount: spec_sharer_amount(sh.share_price as int) as u64,
                };
                let vs2 = m.vaults.push(cv).push(sv);
                let m2 = spec_reveal_shared(m, sid, payment).0;
                assert(m2.gossips == m.gossips && m2.shares == shs2 && m2.vaults == vs2);
                lemma_share_keys_update(m.shares, i, sh2);
                lemma_vault_keys_push(m.vaults, cv);
                lemma_vault_keys_push(m.vaults.push(cv), sv);
                lemma_split_bounds(sh.share_price as int);
                // The share's price is the share-price policy of a policy
                // price, so it is large enough that both split amounts are
                // positive.
                match find_gossip(m.gossips, sh.original) {
                    Some(ig) => {
                        lemma_find_key_props(gossip_keys(m.gossips), sh.original);
                        assert(wf_gossip_at(m.gossips, ig));
                        assert(m.gossips[ig].price >= BASE_PRICE);
                        lemma_share_price_monotonic(
                            BASE_PRICE as int,
                            m.gossips[ig].price as int,
                        );
                        assert(spec_share_price(BASE_PRICE as int) == 8_000_000);
                        assert(sh.share_price >= 3);
                    },
                    None => {
                        assert(false);
                    },
                }
                lemma_split_positive(sh.share_price as int);
                assert forall|j: int| 0 <= j < m2.shares.len() implies wf_share_at(m2, j) by {
                    assert(wf_share_at(m, j));
                    if j != i {
                        assert(m2.shares[j] == m.shares[j]);
                    }
                }
                assert forall|j: int| 0 <= j < m2.vaults.len() implies wf_vault_at(m2, j) by {
                    if j < m.vaults.len() {
                        assert(wf_vault_at(m, j));
                        let vj = m.vaults[j];
                        assert(m2.vaults[j] == vj);
                        match vj.id {
                            VaultId::Gossip(_) => {},
                            VaultId::ShareCreator(sv0) => {
                                lemma_find_key_props(share_keys(m.shares), sv0);
                                match find_share(m.shares, sv0) {
                                    Some(i0) => {
                                        assert(find_share(shs2, sv0) == Some(i0));
                                        if i0 == i {
                                            assert(false);
                                        } else {
                                            assert(shs2[i0] == m.shares[i0]);
                                        }
                                    },
                                    None => {
                                        assert(false);
                                    },
                                }
                            },
                            VaultId::ShareSharer(sv0) => {
                                lemma_find_key_props(share_keys(m.shares), sv0);
                                match find_share(m.shares, sv0) {
                                    Some(i0) => {
                                        assert(find_share(shs2, sv0) == Some(i0));
                                        if i0 == i {
                                            assert(false);
                                        } else {
                                            assert(shs2[i0] == m.shares[i0]);
                                        }
                                    },
                                    None => {
                                        assert(false);
                                    },
                                }
                            },
                        }
                    } else {
                        assert(find_share(shs2, sid) == Some(i));
                        assert(shs2[i] == sh2);
                        if j == m.vaults.len() as int {
                            assert(m2.vaults[j] == cv);
                        } else {
                            assert(m2.vaults[j] == sv);
                        }
                    }
                }
                let vk2 = vault_keys(m2.vaults);
                assert forall|a: int, b: int| 0 <= a < b < vk2.len() implies vk2[a] != vk2[b] by {
                    assert(vk2 == vault_keys(m.vaults).push(cv.id).push(sv.id));
                    if a < m.vaults.len() as int {
                        assert(vk2[a] == m.vaults[a].id);
                        if b >= m.vaults.len() as int {
                            if m.vaults[a].id == cv.id || m.vaults[a].id == sv.id {
                                assert(wf_vault_at(m, a));
                                assert(false);
                            }
                        }
                    }
                }
            }
        },
    }
}

/// Withdrawing a vault preserves the engine invariant.
pub proof fn lemma_spec_withdraw_wf(
    m: EngineModel,
    caller: Address,
    vid: VaultId,
    destination: Address,
)
    requires
        wf(m),
    ensures
        wf(spec_withdraw(m, caller, vid, destination).0),
{
    match find_vault(m.vaults, vid) {
        None => {},
        Some(i) => {
            let v = m.vaults[i];
            if caller == v.owner {
                lemma_find_key_props(vault_keys(m.vaults), vid);
                let vs2 = m.vaults.remove(i);
                let m2 = spec_withdraw(m, caller, vid, destination).0;
                assert(m2.gossips == m.gossips && m2.shares == m.shares && m2.vaults == vs2);
                lemma_vault_keys_remove(m.vaults, i);
                lemma_distinct_remove(vault_keys(m.vaults), i);
                assert forall|j: int| 0 <= j < m2.shares.len() implies wf_share_at(m2, j) by {
                    assert(wf_share_at(m, j));
                }
                assert forall|j: int| 0 <= j < m2.vaults.len() implies wf_vault_at(m2, j) by {
                    let jo = if j < i {
                        j
                    } else {
                        j + 1
                    };
                    assert(wf_vault_at(m, jo));
                    assert(m2.vaults[j] == m.vaults[jo]);
                }
            }
        },
    }
}

} // verus!
