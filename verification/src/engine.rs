//! The settlement engine: the sole mutation entry point of the
//! marketplace.
//!
//! Every operation is proved to follow the spec-level transition functions
//! of `transitions` exactly and to preserve the engine invariant. A failed
//! operation returns a specific error and changes nothing.

use vstd::prelude::*;
use crate::errors::GossipError;
use crate::ids::{Address, GossipId, ShareId, VaultId, Withdrawal};
use crate::model::{
    count_by_creator, find_gossip, find_key, find_share, find_vault, gossip_keys,
    lemma_count_take_full, lemma_count_take_succ, lemma_find_key_props,
    lemma_remove_insert_is_update, share_keys, vault_keys, wf, wf_gossip_at, wf_share_at,
    EngineModel,
};
use crate::pricing::{
    calculate_gossip_price, calculate_revenue_split, calculate_share_price, lemma_price_bounded,
    lemma_share_price_bounds, lemma_split_bounds, MAX_PRICE, MAX_TEXT_LEN, SHARE_PRICE_PERCENT,
    CREATOR_SHARE_PERCENT,
};
use crate::state::{Gossip, GossipVault, SharedGossip};
use crate::transitions::{
    lemma_spec_create_wf, lemma_spec_reveal_shared_wf, lemma_spec_reveal_wf, lemma_spec_share_wf,
    lemma_spec_withdraw_wf, spec_create, spec_reveal, spec_reveal_shared, spec_share,
    spec_withdraw,
};

verus! {

/// The whole marketplace state: gossip items, shares of them, and the
/// escrow vaults holding settled but not yet withdrawn proceeds.
pub struct SettlementEngine {
    gossips: Vec<Gossip>,
    shares: Vec<SharedGossip>,
    vaults: Vec<GossipVault>,
}

impl View for SettlementEngine {
    type V = EngineModel;

    closed spec fn view(&self) -> EngineModel {
        EngineModel {
            gossips: self.gossips@.map_values(|g: Gossip| g@),
            shares: self.shares@.map_values(|sh: SharedGossip| sh@),
            vaults: self.vaults@.map_values(|v: GossipVault| v@),
        }
    }
}

impl SettlementEngine {
    /// A fresh engine with no gossip, no shares and no vaults.
    pub fn new() -> (engine: SettlementEngine)
        ensures
            engine@.gossips.len() == 0,
            engine@.shares.len() == 0,
            engine@.vaults.len() == 0,
            wf(engine@),
    {
        SettlementEngine { gossips: Vec::new(), shares: Vec::new(), vaults: Vec::new() }
    }

    /// How many gossip items `creator` has created so far; the next one
    /// gets this as its sequence number.
    fn count_gossips_by(&self, creator: Address) -> (cnt: usize)
        ensures
            cnt as nat == count_by_creator(self@.gossips, creator),
    {
        let ghost s = self@.gossips;
        let mut cnt: usize = 0;
        let mut i: usize = 0;
        while i < self.gossips.len()
            invariant
                i <= self.gossips.len(),
                s == self@.gossips,
                s.len() == self.gossips.len(),
                cnt <= i,
                cnt as nat == count_by_creator(s.take(i as int), creator),
            decreases self.gossips.len() - i,
        {
            proof {
                lemma_count_take_succ(s, creator, i as int);
            }
            if self.gossips[i].maker == creator {
                cnt = cnt + 1;
            }
            i = i + 1;
        }
        proof {
            lemma_count_take_full(s, creator);
        }
        cnt
    }

    /// The position of the gossip with identity `id`, scanning from the
    /// most recent record, as the model's lookup does.
    fn find_gossip_index(&self, id: GossipId) -> (r: Option<usize>)
        ensures
            match find_gossip(self@.gossips, id) {
                Some(i) => r matches Some(u) && u as int == i,
                None => r is None,
            },
    {
        let ghost keys = gossip_keys(self@.gossips);
        let mut i: usize = self.gossips.len();
        proof {
            assert(keys.take(i as int) =~= keys);
        }
        while i > 0
            invariant
                i <= self.gossips.len(),
                keys == gossip_keys(self@.gossips),
                keys.len() == self.gossips.len(),
                find_gossip(self@.gossips, id) == find_key(keys.take(i as int), id),
            decreases i,
        {
            i = i - 1;
            proof {
                assert(keys.take(i as int + 1).last() == keys[i as int]);
                assert(keys[i as int] == self@.gossips[i as int].gid());
                assert(self@.gossips[i as int] == self.gossips@[i as int]@);
                assert(keys.take(i as int + 1).drop_last() =~= keys.take(i as int));
            }
            let g = &self.gossips[i];
            if g.maker == id.creator && g.index == id.index {
                return Some(i);
            }
        }
        proof {
            assert(keys.take(0).len() == 0);
        }
        None
    }

    /// The position of the share with identity `sid`, scanning from the
    /// most recent record, as the model's lookup does.
    fn find_share_index(&self, sid: ShareId) -> (r: Option<usize>)
        ensures
            match find_share(self@.shares, sid) {
                Some(i) => r matches Some(u) && u as int == i,
                None => r is None,
            },
    {
        let ghost keys = share_keys(self@.shares);
        let mut i: usize = self.shares.len();
        proof {
            assert(keys.take(i as int) =~= keys);
        }
        while i > 0
            invariant
                i <= self.shares.len(),
                keys == share_keys(self@.shares),
                keys.len() == self.shares.len(),
                find_share(self@.shares, sid) == find_key(keys.take(i as int), sid),
            decreases i,
        {
            i = i - 1;
            proof {
                assert(keys.take(i as int + 1).last() == keys[i as int]);
                assert(keys[i as int] == self@.shares[i as int].sid());
                assert(self@.shares[i as int] == self.shares@[i as int]@);
                assert(keys.take(i as int + 1).drop_last() =~= keys.take(i as int));
            }
            let sh = &self.shares[i];
            if sh.original == sid.original && sh.sharer == sid.sharer {
                return Some(i);
            }
        }
        proof {
            assert(keys.take(0).len() == 0);
        }
        None
    }

    /// The position of the vault with identity `vid`, scanning from the
    /// most recent record, as the model's lookup does.
    fn find_vault_index(&self, vid: VaultId) -> (r: Option<usize>)
        ensures
            match find_vault(self@.vaults, vid) {
                Some(i) => r matches Some(u) && u as int == i,
                None => r is None,
            },
    {
        let ghost keys = vault_keys(self@.vaults);
        let mut i: usize = self.vaults.len();
        proof {
            assert(keys.take(i as int) =~= keys);
        }
        while i > 0
            invariant
                i <= self.vaults.len(),
                keys == vault_keys(self@.vaults),
                keys.len() == self.vaults.len(),
                find_vault(self@.vaults, vid) == find_key(keys.take(i as int), vid),
            decreases i,
        {
            i = i - 1;
            proof {
                assert(keys.take(i as int + 1).last() == keys[i as int]);
                assert(keys[i as int] == self@.vaults[i as int].id);
                assert(self@.vaults[i as int] == self.vaults@[i as int]@);
                assert(keys.take(i as int + 1).drop_last() =~= keys.take(i as int));
            }
            let v = &self.vaults[i];
            if v.vault_id == vid {
                return Some(i);
            }
        }
        proof {
            assert(keys.take(0).len() == 0);
        }
        None
    }

    /// Creates a new gossip for `creator`, pricing it from the text length
    /// and the mention flag; fails with `InvalidInput` when the text
    /// exceeds the length bound.
    pub fn create_gossip(&mut self, creator: Address, text: String, mention: Option<Address>) -> (
        r: Result<GossipId, GossipError>
    )
        requires
            wf(old(self)@),
        ensures
            final(self)@ == spec_create(old(self)@, creator, text@, mention).0,
            r == spec_create(old(self)@, creator, text@, mention).1,
            wf(final(self)@),
    {
        proof {
            lemma_spec_create_wf(old(self)@, creator, text@, mention);
        }
        let ghost t = text@;
        let len_chars = text.as_str().unicode_len();
        if len_chars > MAX_TEXT_LEN {
            return Err(GossipError::InvalidInput);
        }
        let cnt = self.count_gossips_by(creator);
        let has_mention = mention.is_some();
        let price = calculate_gossip_price(text.as_str(), has_mention);
        proof {
            lemma_price_bounded(t.len(), mention is Some);
        }
        let gossip = Gossip {
            maker: creator,
            index: cnt as u64,
            text: text,
            mention: mention,
            is_revealed: false,
            price: price,
            total_collected: 0,
        };
        let id = gossip.id();
        self.gossips.push(gossip);
        proof {
            assert(self@ =~= spec_create(old(self)@, creator, t, mention).0);
        }
        Ok(id)
    }

    /// Reveals a gossip against a payment of exactly its price, creating
    /// one vault holding the whole price for the gossip's maker; fails
    /// with `NotFound` when the gossip does not exist, `AlreadyRevealed`
    /// when it was revealed before, and `InvalidInput` when the payment is
    /// not exactly the price.
    pub fn reveal_gossip(&mut self, id: GossipId, payment: u64) -> (r: Result<(), GossipError>)
        requires
            wf(old(self)@),
        ensures
            final(self)@ == spec_reveal(old(self)@, id, payment).0,
            r == spec_reveal(old(self)@, id, payment).1,
            wf(final(self)@),
    {
        proof {
            lemma_spec_reveal_wf(old(self)@, id, payment);
        }
        let i = match self.find_gossip_index(id) {
            None => {
                return Err(GossipError::NotFound);
            },
            Some(i) => i,
        };
        proof {
            lemma_find_key_props(gossip_keys(self@.gossips), id);
            assert(wf_gossip_at(self@.gossips, i as int));
            assert(self@.gossips[i as int] == self.gossips@[i as int]@);
        }
        if self.gossips[i].is_revealed {
            return Err(GossipError::AlreadyRevealed);
        }
        if payment != self.gossips[i].price {
            return Err(GossipError::InvalidInput);
        }
        let g = self.gossips.remove(i);
        let maker = g.maker;
        let price = g.price;
        let new_total = g.total_collected + payment;
        let g2 = Gossip { is_revealed: true, total_collected: new_total, ..g };
        proof {
            lemma_remove_insert_is_update(old(self).gossips@, i as int, g2);
        }
        self.gossips.insert(i, g2);
        self.vaults.push(
            GossipVault { vault_id: VaultId::Gossip(id), owner: maker, amount: price },
        );
        proof {
            assert(self@ =~= spec_reveal(old(self)@, id, payment).0);
        }
        Ok(())
    }

    /// Creates a share of an already-revealed gossip for `sharer`, priced
    /// at the share-price policy of the original's price; fails with
    /// `NotFound` when the gossip does not exist, `NotRevealed` when it is
    /// still hidden, and `InvalidInput` when this sharer already holds a
    /// share of it.
    pub fn share_gossip(&mut self, sharer: Address, id: GossipId) -> (
        r: Result<ShareId, GossipError>
    )
        requires
            wf(old(self)@),
        ensures
            final(self)@ == spec_share(old(self)@, sharer, id).0,
            r == spec_share(old(self)@, sharer, id).1,
            wf(final(self)@),
    {
        proof {
            lemma_spec_share_wf(old(self)@, sharer, id);
        }
        let i = match self.find_gossip_index(id) {
            None => {
                return Err(GossipError::NotFound);
            },
            Some(i) => i,
        };
        proof {
            lemma_find_key_props(gossip_keys(self@.gossips), id);
            assert(wf_gossip_at(self@.gossips, i as int));
            assert(self@.gossips[i as int] == self.gossips@[i as int]@);
        }
        if !self.gossips[i].is_revealed {
            return Err(GossipError::NotRevealed);
        }
        let sid = ShareId { original: id, sharer: sharer };
        match self.find_share_index(sid) {
            Some(_) => {
                return Err(GossipError::InvalidInput);
            },
            None => {},
        }
        let original = &self.gossips[i];
        proof {
            lemma_price_bounded(original@.text.len(), original@.mention is Some);
            assert(MAX_PRICE * SHARE_PRICE_PERCENT <= u64::MAX);
        }
        let share_price = calculate_share_price(original.price);
        let share = SharedGossip {
            original: id,
            sharer: sharer,
            original_creator: original.maker,
            is_revealed: false,
            share_price: share_price,
            total_collected: 0,
        };
        proof {
            lemma_share_price_bounds(original.price as int);
        }
        self.shares.push(share);
        proof {
            assert(self@ =~= spec_share(old(self)@, sharer, id).0);
        }
        Ok(sid)
    }

    /// Reveals a share against a payment of exactly its price, creating
    /// two vaults in the same operation: the revenue split's creator
    /// amount for the cached original creator and its sharer amount for
    /// the sharer; fails with `NotFound` when the share does not exist,
    /// `AlreadyRevealed` when it was revealed before, and `InvalidInput`
    /// when the payment is not exactly the price.
    pub fn reveal_shared_gossip(&mut self, sid: ShareId, payment: u64) -> (
        r: Result<(), GossipError>
    )
        requires
            wf(old(self)@),
        ensures
            final(self)@ == spec_reveal_shared(old(self)@, sid, payment).0,
            r == spec_reveal_shared(old(self)@, sid, payment).1,
            wf(final(self)@),
    {
        proof {
            lemma_spec_reveal_shared_wf(old(self)@, sid, payment);
        }
        let i = match self.find_share_index(sid) {
            None => {
                return Err(GossipError::NotFound);
            },
            Some(i) => i,
        };
        proof {
            lemma_find_key_props(share_keys(self@.shares), sid);
            assert(wf_share_at(self@, i as int));
            assert(self@.shares[i as int] == self.shares@[i as int]@);
        }
        if self.shares[i].is_revealed {
            return Err(GossipError::AlreadyRevealed);
        }
        if payment != self.shares[i].share_price {
            return Err(GossipError::InvalidInput);
        }
        proof {
            // The share's price is bounded by the original's policy price,
            // so the split multiplications cannot overflow.
            match find_gossip(self@.gossips, self@.shares[i as int].original) {
                Some(ig) => {
                    lemma_find_key_props(
                        gossip_keys(self@.gossips),
                        self@.shares[i as int].original,
                    );
                    assert(wf_gossip_at(self@.gossips, ig));
                    lemma_price_bounded(
                        self@.gossips[ig].text.len(),
                        self@.gossips[ig].mention is Some,
                    );
                    lemma_share_price_bounds(self@.gossips[ig].price as int);
                    assert(MAX_PRICE * CREATOR_SHARE_PERCENT <= u64::MAX);
                },
                None => {
                    assert(false);
                },
            }
        }
        let sh = self.shares.remove(i);
        let creator = sh.original_creator;
        let sharer = sh.sharer;
        let total_payment = sh.share_price;
        let (creator_amount, sharer_amount) = calculate_revenue_split(total_payment);
        let new_total = sh.total_collected + payment;
        let sh2 = SharedGossip { is_revealed: true, total_collected: new_total, ..sh };
        proof {
            lemma_remove_insert_is_update(old(self).shares@, i as int, sh2);
            lemma_split_bounds(total_payment as int);
        }
        self.shares.insert(i, sh2);
        self.vaults.push(
            GossipVault {
                vault_id: VaultId::ShareCreator(sid),
                owner: creator,
                amount: creator_amount,
            },
        );
        self.vaults.push(
            GossipVault { vault_id: VaultId::ShareSharer(sid), owner: sharer, amount: sharer_amount },
        );
        proof {
            assert(self@ =~= spec_reveal_shared(old(self)@, sid, payment).0);
        }
        Ok(())
    }

    /// Withdraws the whole balance of any vault: only its owner may do so,
    /// the vault ceases to exist, and the returned instruction tells the
    /// host what to credit to the destination; fails with `NotFound` when
    /// the vault does not exist and `UnauthorizedWithdraw` when the caller
    /// is not the owner.
    pub fn withdraw_from_any_vault(
        &mut self,
        caller: Address,
        vault_id: VaultId,
        destination: Address,
    ) -> (r: Result<Withdrawal, GossipError>)
        requires
            wf(old(self)@),
        ensures
            final(self)@ == spec_withdraw(old(self)@, caller, vault_id, destination).0,
            r == spec_withdraw(old(self)@, caller, vault_id, destination).1,
            wf(final(self)@),
    {
        proof {
            lemma_spec_withdraw_wf(old(self)@, caller, vault_id, destination);
        }
        let i = match self.find_vault_index(vault_id) {
            None => {
                return Err(GossipError::NotFound);
            },
            Some(i) => i,
        };
        proof {
            lemma_find_key_props(vault_keys(self@.vaults), vault_id);
            assert(self@.vaults[i as int] == self.vaults@[i as int]@);
        }
        if !(self.vaults[i].owner == caller) {
            return Err(GossipError::UnauthorizedWithdraw);
        }
        let vault = self.vaults.remove(i);
        proof {
            assert(self@ =~= spec_withdraw(old(self)@, caller, vault_id, destination).0);
        }
        Ok(Withdrawal { to: destination, amount: vault.amount })
    }

    /// Withdraws the vault funded by revealing `gossip_id` itself; the
    /// same operation as `withdraw_from_any_vault` on that vault.
    pub fn withdraw_from_vault(
        &mut self,
        caller: Address,
        gossip_id: GossipId,
        destination: Address,
    ) -> (r: Result<Withdrawal, GossipError>)
        requires
            wf(old(self)@),
        ensures
            final(self)@ == spec_withdraw(
                old(self)@,
                caller,
                VaultId::Gossip(gossip_id),
                destination,
            ).0,
            r == spec_withdraw(old(self)@, caller, VaultId::Gossip(gossip_id), destination).1,
            wf(final(self)@),
    {
        self.withdraw_from_any_vault(caller, VaultId::Gossip(gossip_id), destination)
    }

    /// The gossip with identity `id`, if it exists.
    pub fn get_gossip(&self, id: GossipId) -> (r: Option<&Gossip>)
        ensures
            match find_gossip(self@.gossips, id) {
                Some(i) => r matches Some(g) && g@ == self@.gossips[i],
                None => r is None,
            },
    {
        match self.find_gossip_index(id) {
            Some(i) => {
                proof {
                    lemma_find_key_props(gossip_keys(self@.gossips), id);
                    assert(self@.gossips[i as int] == self.gossips@[i as int]@);
                }
                Some(&self.gossips[i])
            },
            None => None,
        }
    }

    /// The share with identity `sid`, if it exists.
    pub fn get_share(&self, sid: ShareId) -> (r: Option<&SharedGossip>)
        ensures
            match find_share(self@.shares, sid) {
                Some(i) => r matches Some(sh) && sh@ == self@.shares[i],
                None => r is None,
            },
    {
        match self.find_share_index(sid) {
            Some(i) => {
                proof {
                    lemma_find_key_props(share_keys(self@.shares), sid);
                    assert(self@.shares[i as int] == self.shares@[i as int]@);
                }
                Some(&self.shares[i])
            },
            None => None,
        }
    }

    /// The vault with identity `vid`, if it still exists.
    pub fn get_vault(&self, vid: VaultId) -> (r: Option<&GossipVault>)
        ensures
            match find_vault(self@.vaults, vid) {
                Some(i) => r matches Some(v) && v@ == self@.vaults[i],
                None => r is None,
            },
    {
        match self.find_vault_index(vid) {
            Some(i) => {
                proof {
                    lemma_find_key_props(vault_keys(self@.vaults), vid);
                    assert(self@.vaults[i as int] == self.vaults@[i as int]@);
                }
                Some(&self.vaults[i])
            },
            None => None,
        }
    }
}

} // verus!
