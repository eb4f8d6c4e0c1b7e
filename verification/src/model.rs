//! The mathematical model of the engine state.
//!
//! The engine's contracts speak of this model: sequences of gossip, share
//! and vault records, looked up by their composite keys, together with the
//! well-formedness invariant every reachable state satisfies.

use vstd::prelude::*;
use crate::ids::{Address, GossipId, ShareId, VaultId};
use crate::pricing::{
    spec_creator_amount, spec_price, spec_share_price, spec_sharer_amount, MAX_TEXT_LEN,
};

verus! {

/// One gossip item, as the contracts see it.
#[verifier::ext_equal]
pub ghost struct GossipModel {
    /// The creator, immutable after creation.
    pub maker: Address,
    /// Per-creator sequence number assigned at creation.
    pub index: u64,
    /// The gossip text.
    pub text: Seq<char>,
    /// The mentioned party, if any.
    pub mention: Option<Address>,
    /// Whether the gossip has been revealed; set exactly once.
    pub is_revealed: bool,
    /// Reveal price, fixed at creation.
    pub price: u64,
    /// Sum of all payments received for this gossip.
    pub total_collected: u64,
}

impl GossipModel {
    /// The identity of this gossip.
    pub open spec fn gid(self) -> GossipId {
        GossipId { creator: self.maker, index: self.index }
    }
}

/// One share of an already-revealed gossip, as the contracts see it.
#[verifier::ext_equal]
pub ghost struct ShareModel {
    /// The gossip being re-shared.
    pub original: GossipId,
    /// The re-sharing party.
    pub sharer: Address,
    /// The original gossip's creator, cached at share time.
    pub original_creator: Address,
    /// Whether this share has been revealed; set exactly once.
    pub is_revealed: bool,
    /// Resale price, fixed at share time.
    pub share_price: u64,
    /// Sum of all payments received through this share.
    pub total_collected: u64,
}

impl ShareModel {
    /// The identity of this share.
    pub open spec fn sid(self) -> ShareId {
        ShareId { original: self.original, sharer: self.sharer }
    }
}

/// One escrow vault, as the contracts see it.
#[verifier::ext_equal]
pub ghost struct VaultModel {
    /// The settlement event that created the vault.
    pub id: VaultId,
    /// The only party entitled to withdraw.
    pub owner: Address,
    /// The balance held; set at creation, paid out whole on withdrawal.
    pub amount: u64,
}

/// The whole engine state.
#[verifier::ext_equal]
pub ghost struct EngineModel {
    pub gossips: Seq<GossipModel>,
    pub shares: Seq<ShareModel>,
    pub vaults: Seq<VaultModel>,
}

/// The position of the newest occurrence of `k` in `keys`, if any.
pub open spec fn find_key<K>(keys: Seq<K>, k: K) -> Option<int>
    decreases keys.len(),
{
    if keys.len() == 0 {
        None
    } else if keys.last() == k {
        Some(keys.len() as int - 1)
    } else {
        find_key(keys.drop_last(), k)
    }
}

/// No key occurs twice.
pub open spec fn distinct_keys<K>(keys: Seq<K>) -> bool {
    forall|i: int, j: int| 0 <= i < j < keys.len() ==> keys[i] != keys[j]
}

/// A found key is in range and matches; a miss means no position matches.
pub proof fn lemma_find_key_props<K>(keys: Seq<K>, k: K)
    ensures
        match find_key(keys, k) {
            Some(i) => 0 <= i < keys.len() && keys[i] == k,
            None => forall|j: int| 0 <= j < keys.len() ==> keys[j] != k,
        },
    decreases keys.len(),
{
    if keys.len() == 0 {
    } else if keys.last() == k {
    } else {
        lemma_find_key_props(keys.drop_last(), k);
        match find_key(keys.drop_last(), k) {
            Some(i) => {
                assert(keys.drop_last()[i] == keys[i]);
            },
            None => {
                assert forall|j: int| 0 <= j < keys.len() implies keys[j] != k by {
                    if j < keys.len() - 1 {
                        assert(keys.drop_last()[j] == keys[j]);
                    } else {
                        assert(keys[j] == keys.last());
                    }
                }
            },
        }
    }
}

/// Appending a fresh key leaves every lookup unchanged; appending `k`
/// itself makes the lookup find the new position.
pub proof fn lemma_find_key_push<K>(keys: Seq<K>, x: K, k: K)
    ensures
        find_key(keys.push(x), k) == if x == k {
            Some(keys.len() as int)
        } else {
            find_key(keys, k)
        },
{
    let p = keys.push(x);
    assert(p.last() == x);
    assert(p.drop_last() =~= keys);
}

/// Removing the only position that holds `k` makes the lookup miss.
pub proof fn lemma_find_key_remove_none<K>(keys: Seq<K>, i: int, k: K)
    requires
        distinct_keys(keys),
        0 <= i < keys.len(),
        keys[i] == k,
    ensures
        find_key(keys.remove(i), k) is None,
{
    let rem = keys.remove(i);
    assert forall|j: int| 0 <= j < rem.len() implies rem[j] != k by {
        if j < i {
            assert(rem[j] == keys[j]);
        } else {
            assert(rem[j] == keys[j + 1]);
        }
    }
    lemma_find_key_props(rem, k);
    match find_key(rem, k) {
        Some(i2) => {
            assert(rem[i2] == k);
            assert(false);
        },
        None => {},
    }
}

/// Distinctness survives removing a position.
pub proof fn lemma_distinct_remove<K>(keys: Seq<K>, i: int)
    requires
        distinct_keys(keys),
        0 <= i < keys.len(),
    ensures
        distinct_keys(keys.remove(i)),
{
    let rem = keys.remove(i);
    assert forall|j1: int, j2: int| 0 <= j1 < j2 < rem.len() implies rem[j1] != rem[j2] by {
        let o1 = if j1 < i { j1 } else { j1 + 1 };
        let o2 = if j2 < i { j2 } else { j2 + 1 };
        assert(rem[j1] == keys[o1]);
        assert(rem[j2] == keys[o2]);
    }
}

/// The keys of a gossip sequence, position by position.
pub open spec fn gossip_keys(s: Seq<GossipModel>) -> Seq<GossipId> {
    s.map_values(|g: GossipModel| g.gid())
}

/// The position of the gossip with identity `id`, if any.
pub open spec fn find_gossip(s: Seq<GossipModel>, id: GossipId) -> Option<int> {
    find_key(gossip_keys(s), id)
}

/// The keys of a share sequence, position by position.
pub open spec fn share_keys(s: Seq<ShareModel>) -> Seq<ShareId> {
    s.map_values(|sh: ShareModel| sh.sid())
}

/// The position of the share with identity `sid`, if any.
pub open spec fn find_share(s: Seq<ShareModel>, sid: ShareId) -> Option<int> {
    find_key(share_keys(s), sid)
}

/// The keys of a vault sequence, position by position.
pub open spec fn vault_keys(s: Seq<VaultModel>) -> Seq<VaultId> {
    s.map_values(|v: VaultModel| v.id)
}

/// The position of the vault with identity `vid`, if any.
pub open spec fn find_vault(s: Seq<VaultModel>, vid: VaultId) -> Option<int> {
    find_key(vault_keys(s), vid)
}

/// Appending a gossip appends its key.
pub proof fn lemma_gossip_keys_push(s: Seq<GossipModel>, g: GossipModel)
    ensures
        gossip_keys(s.push(g)) == gossip_keys(s).push(g.gid()),
{
    assert(gossip_keys(s.push(g)) =~= gossip_keys(s).push(g.gid()));
}

/// Replacing a gossip by one with the same key leaves the keys unchanged.
pub proof fn lemma_gossip_keys_update(s: Seq<GossipModel>, i: int, g: GossipModel)
    requires
        0 <= i < s.len(),
        g.gid() == s[i].gid(),
    ensures
        gossip_keys(s.update(i, g)) == gossip_keys(s),
{
    assert(gossip_keys(s.update(i, g)) =~= gossip_keys(s));
}

/// Appending a share appends its key.
pub proof fn lemma_share_keys_push(s: Seq<ShareModel>, sh: ShareModel)
    ensures
        share_keys(s.push(sh)) == share_keys(s).push(sh.sid()),
{
    assert(share_keys(s.push(sh)) =~= share_keys(s).push(sh.sid()));
}

/// Replacing a share by one with the same key leaves the keys unchanged.
pub proof fn lemma_share_keys_update(s: Seq<ShareModel>, i: int, sh: ShareModel)
    requires
        0 <= i < s.len(),
        sh.sid() == s[i].sid(),
    ensures
        share_keys(s.update(i, sh)) == share_keys(s),
{
    assert(share_keys(s.update(i, sh)) =~= share_keys(s));
}

/// Appending a vault appends its key.
pub proof fn lemma_vault_keys_push(s: Seq<VaultModel>, v: VaultModel)
    ensures
        vault_keys(s.push(v)) == vault_keys(s).push(v.id),
{
    assert(vault_keys(s.push(v)) =~= vault_keys(s).push(v.id));
}

/// Removing a vault removes its key.
pub proof fn lemma_vault_keys_remove(s: Seq<VaultModel>, i: int)
    requires
        0 <= i < s.len(),
    ensures
        vault_keys(s.remove(i)) == vault_keys(s).remove(i),
{
    assert(vault_keys(s.remove(i)) =~= vault_keys(s).remove(i));
}

/// Taking an element out and putting another back in its place is a plain
/// pointwise update.
pub proof fn lemma_remove_insert_is_update<T>(s: Seq<T>, i: int, x: T)
    requires
        0 <= i < s.len(),
    ensures
        s.remove(i).insert(i, x) == s.update(i, x),
{
    assert(s.remove(i).insert(i, x) =~= s.update(i, x));
}

/// How many of the first `s.len()` gossip items were made by `c`.
pub open spec fn count_by_creator(s: Seq<GossipModel>, c: Address) -> nat
    decreases s.len(),
{
    if s.len() == 0 {
        0
    } else {
        count_by_creator(s.drop_last(), c) + (if s.last().maker == c {
            1nat
        } else {
            0nat
        })
    }
}

/// Counting one more position adds one exactly when that position's maker
/// is `c`.
pub proof fn lemma_count_take_succ(s: Seq<GossipModel>, c: Address, j: int)
    requires
        0 <= j < s.len(),
    ensures
        count_by_creator(s.take(j + 1), c) == count_by_creator(s.take(j), c) + (if s[j].maker
            == c {
            1nat
        } else {
            0nat
        }),
{
    let t = s.take(j + 1);
    assert(t.last() == s[j]);
    assert(t.drop_last() =~= s.take(j));
}

/// The per-creator count is monotone over prefixes.
pub proof fn lemma_count_take_mono(s: Seq<GossipModel>, c: Address, i: int, j: int)
    requires
        0 <= i <= j <= s.len(),
    ensures
        count_by_creator(s.take(i), c) <= count_by_creator(s.take(j), c),
    decreases j - i,
{
    if i < j {
        lemma_count_take_succ(s, c, j - 1);
        lemma_count_take_mono(s, c, i, j - 1);
    }
}

/// Taking the whole sequence counts the whole sequence.
pub proof fn lemma_count_take_full(s: Seq<GossipModel>, c: Address)
    ensures
        count_by_creator(s.take(s.len() as int), c) == count_by_creator(s, c),
{
    assert(s.take(s.len() as int) =~= s);
}

/// Replacing a gossip by one with the same maker leaves every creator's
/// count unchanged.
pub proof fn lemma_count_update_same_maker(s: Seq<GossipModel>, i: int, g: GossipModel, c: Address)
    requires
        0 <= i < s.len(),
        g.maker == s[i].maker,
    ensures
        count_by_creator(s.update(i, g), c) == count_by_creator(s, c),
    decreases s.len(),
{
    let s2 = s.update(i, g);
    if i == s.len() - 1 {
        assert(s2.last() == g);
        assert(s2.drop_last() =~= s.drop_last());
    } else {
        assert(s2.last() == s.last());
        assert(s2.drop_last() =~= s.drop_last().update(i, g));
        lemma_count_update_same_maker(s.drop_last(), i, g, c);
    }
}

/// The same, prefix by prefix.
pub proof fn lemma_count_take_update_same_maker(
    s: Seq<GossipModel>,
    i: int,
    g: GossipModel,
    c: Address,
    j: int,
)
    requires
        0 <= i < s.len(),
        g.maker == s[i].maker,
        0 <= j <= s.len(),
    ensures
        count_by_creator(s.update(i, g).take(j), c) == count_by_creator(s.take(j), c),
{
    if j <= i {
        assert(s.update(i, g).take(j) =~= s.take(j));
    } else {
        assert(s.update(i, g).take(j) =~= s.take(j).update(i, g));
        lemma_count_update_same_maker(s.take(j), i, g, c);
    }
}

/// The gossip at position `j` is well formed with respect to the records
/// before it: its sequence number is the number of earlier items by the
/// same maker, its text is within the length bound, its price is exactly
/// the pricing policy's, and its collected total is its price once
/// revealed and zero before.
pub open spec fn wf_gossip_at(s: Seq<GossipModel>, j: int) -> bool {
    let g = s[j];
    &&& g.index == count_by_creator(s.take(j), g.maker)
    &&& g.text.len() <= MAX_TEXT_LEN
    &&& g.price == spec_price(g.text.len(), g.mention is Some)
    &&& g.total_collected == if g.is_revealed {
        g.price
    } else {
        0u64
    }
}

/// Every gossip record is well formed.
pub open spec fn wf_gossips(s: Seq<GossipModel>) -> bool {
    forall|j: int| 0 <= j < s.len() ==> #[trigger] wf_gossip_at(s, j)
}

/// The share at position `j` is well formed: it references an existing,
/// revealed gossip, caches that gossip's maker, resells at the share-price
/// policy of that gossip's price, and its collected total is its price
/// once revealed and zero before.
pub open spec fn wf_share_at(m: EngineModel, j: int) -> bool {
    let sh = m.shares[j];
    &&& match find_gossip(m.gossips, sh.original) {
        Some(i) => {
            let g = m.gossips[i];
            &&& g.is_revealed
            &&& sh.original_creator == g.maker
            &&& sh.share_price == spec_share_price(g.price as int)
        },
        None => false,
    }
    &&& sh.total_collected == if sh.is_revealed {
        sh.share_price
    } else {
        0u64
    }
}

/// The vault at position `j` is well formed: it holds a positive balance
/// and records exactly what the settlement event that created it owes:
/// a gossip's full price to its maker, or one side of the revenue split of
/// a share's price to the creator or the sharer, with the settled entity
/// revealed.
pub open spec fn wf_vault_at(m: EngineModel, j: int) -> bool {
    let v = m.vaults[j];
    &&& v.amount > 0
    &&& match v.id {
        VaultId::Gossip(gid) => match find_gossip(m.gossips, gid) {
            Some(i) => {
                let g = m.gossips[i];
                &&& g.is_revealed
                &&& v.owner == g.maker
                &&& v.amount == g.price
            },
            None => false,
        },
        VaultId::ShareCreator(sid) => match find_share(m.shares, sid) {
            Some(i) => {
                let sh = m.shares[i];
                &&& sh.is_revealed
                &&& v.owner == sh.original_creator
                &&& v.amount == spec_creator_amount(sh.share_price as int)
            },
            None => false,
        },
        VaultId::ShareSharer(sid) => match find_share(m.shares, sid) {
            Some(i) => {
                let sh = m.shares[i];
                &&& sh.is_revealed
                &&& v.owner == sh.sharer
                &&& v.amount == spec_sharer_amount(sh.share_price as int)
            },
            None => false,
        },
    }
}

/// The engine invariant: every record is well formed and every share and
/// vault key is unique. Gossip keys are unique as a consequence of the
/// sequence-number discipline.
pub open spec fn wf(m: EngineModel) -> bool {
    &&& wf_gossips(m.gossips)
    &&& (forall|j: int| 0 <= j < m.shares.len() ==> #[trigger] wf_share_at(m, j))
    &&& distinct_keys(share_keys(m.shares))
    &&& (forall|j: int| 0 <= j < m.vaults.len() ==> #[trigger] wf_vault_at(m, j))
    &&& distinct_keys(vault_keys(m.vaults))
}

/// Under the sequence-number discipline, the next sequence number of a
/// creator is fresh: no existing gossip of that creator carries it.
pub proof fn lemma_next_index_fresh(s: Seq<GossipModel>, c: Address)
    requires
        wf_gossips(s),
    ensures
        forall|j: int|
            0 <= j < s.len() && (#[trigger] s[j]).maker == c ==> s[j].index != count_by_creator(
                s,
                c,
            ),
{
    assert forall|j: int|
        0 <= j < s.len() && (#[trigger] s[j]).maker == c implies s[j].index != count_by_creator(
        s,
        c,
    ) by {
        assert(wf_gossip_at(s, j));
        lemma_count_take_succ(s, c, j);
        lemma_count_take_mono(s, c, j + 1, s.len() as int);
        lemma_count_take_full(s, c);
    }
}

} // verus!
