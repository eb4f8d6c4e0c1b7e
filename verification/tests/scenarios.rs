use gossip::engine::SettlementEngine;
use gossip::errors::GossipError;
use gossip::ids::{Address, GossipId, ShareId, VaultId, Withdrawal};

fn addr(value: u64) -> Address {
    Address { value }
}

#[test]
fn create_assigns_price_and_sequence_numbers() {
    let mut engine = SettlementEngine::new();
    let alice = addr(1);
    let first = engine.create_gossip(alice, String::from("fifteen--chars-"), None).unwrap();
    assert_eq!(first, GossipId { creator: alice, index: 0 });
    let second = engine.create_gossip(alice, String::from("gifts"), Some(addr(9))).unwrap();
    assert_eq!(second, GossipId { creator: alice, index: 1 });
    let other = engine.create_gossip(addr(2), String::from("x"), None).unwrap();
    assert_eq!(other, GossipId { creator: addr(2), index: 0 });

    let g1 = engine.get_gossip(first).unwrap();
    assert_eq!(g1.price, 12_000_000);
    assert!(!g1.is_revealed);
    assert_eq!(g1.total_collected, 0);
    let g2 = engine.get_gossip(second).unwrap();
    assert_eq!(g2.price, 15_000_000);
}

#[test]
fn create_rejects_text_over_twenty_characters() {
    let mut engine = SettlementEngine::new();
    let r = engine.create_gossip(addr(1), String::from("twenty-one characters"), None);
    assert_eq!(r, Err(GossipError::InvalidInput));
    assert!(engine.get_gossip(GossipId { creator: addr(1), index: 0 }).is_none());
}

#[test]
fn reveal_creates_escrow_for_the_maker() {
    let mut engine = SettlementEngine::new();
    let alice = addr(1);
    let id = engine.create_gossip(alice, String::from("gifts"), Some(addr(9))).unwrap();
    assert_eq!(engine.get_gossip(id).unwrap().price, 15_000_000);

    engine.reveal_gossip(id, 15_000_000).unwrap();

    let gossip = engine.get_gossip(id).unwrap();
    assert!(gossip.is_revealed);
    assert_eq!(gossip.total_collected, 15_000_000);
    let vault = engine.get_vault(VaultId::Gossip(id)).unwrap();
    assert_eq!(vault.owner, alice);
    assert_eq!(vault.amount, 15_000_000);
}

#[test]
fn reveal_fails_on_wrong_payment_unknown_id_and_repeat() {
    let mut engine = SettlementEngine::new();
    let id = engine.create_gossip(addr(1), String::from("hi"), None).unwrap();

    let unknown = GossipId { creator: addr(1), index: 5 };
    assert_eq!(engine.reveal_gossip(unknown, 10_000_000), Err(GossipError::NotFound));

    assert_eq!(engine.reveal_gossip(id, 9_999_999), Err(GossipError::InvalidInput));
    assert!(!engine.get_gossip(id).unwrap().is_revealed);

    assert_eq!(engine.reveal_gossip(id, 10_000_000), Ok(()));
    assert_eq!(engine.reveal_gossip(id, 10_000_000), Err(GossipError::AlreadyRevealed));
    assert_eq!(engine.reveal_gossip(id, 123), Err(GossipError::AlreadyRevealed));
    // Collected exactly once, not three times.
    assert_eq!(engine.get_gossip(id).unwrap().total_collected, 10_000_000);
}

#[test]
fn share_requires_a_revealed_original() {
    let mut engine = SettlementEngine::new();
    let id = engine.create_gossip(addr(1), String::from("gifts"), Some(addr(9))).unwrap();
    assert_eq!(engine.share_gossip(addr(3), id), Err(GossipError::NotRevealed));

    engine.reveal_gossip(id, 15_000_000).unwrap();
    let sid = engine.share_gossip(addr(3), id).unwrap();
    assert_eq!(sid, ShareId { original: id, sharer: addr(3) });

    let share = engine.get_share(sid).unwrap();
    assert_eq!(share.share_price, 12_000_000);
    assert_eq!(share.original_creator, addr(1));
    assert!(!share.is_revealed);
    assert_eq!(share.total_collected, 0);

    // The same sharer cannot share the same gossip twice.
    assert_eq!(engine.share_gossip(addr(3), id), Err(GossipError::InvalidInput));
    // A missing original is reported as such.
    let unknown = GossipId { creator: addr(8), index: 0 };
    assert_eq!(engine.share_gossip(addr(3), unknown), Err(GossipError::NotFound));
}

#[test]
fn revealing_a_share_splits_the_payment_sixty_forty() {
    let mut engine = SettlementEngine::new();
    let alice = addr(1);
    let bob = addr(3);
    let id = engine.create_gossip(alice, String::from("gifts"), Some(addr(9))).unwrap();
    engine.reveal_gossip(id, 15_000_000).unwrap();
    let sid = engine.share_gossip(bob, id).unwrap();
    assert_eq!(engine.get_share(sid).unwrap().share_price, 12_000_000);

    engine.reveal_shared_gossip(sid, 12_000_000).unwrap();

    let share = engine.get_share(sid).unwrap();
    assert!(share.is_revealed);
    assert_eq!(share.total_collected, 12_000_000);
    let creator_vault = engine.get_vault(VaultId::ShareCreator(sid)).unwrap();
    assert_eq!(creator_vault.owner, alice);
    assert_eq!(creator_vault.amount, 7_200_000);
    let sharer_vault = engine.get_vault(VaultId::ShareSharer(sid)).unwrap();
    assert_eq!(sharer_vault.owner, bob);
    assert_eq!(sharer_vault.amount, 4_800_000);
    assert_eq!(creator_vault.amount + sharer_vault.amount, 12_000_000);

    assert_eq!(engine.reveal_shared_gossip(sid, 12_000_000), Err(GossipError::AlreadyRevealed));
    assert_eq!(engine.get_share(sid).unwrap().total_collected, 12_000_000);
}

#[test]
fn reveal_shared_fails_on_wrong_payment_and_unknown_share() {
    let mut engine = SettlementEngine::new();
    let id = engine.create_gossip(addr(1), String::from("hi"), None).unwrap();
    engine.reveal_gossip(id, 10_000_000).unwrap();
    let sid = engine.share_gossip(addr(3), id).unwrap();

    assert_eq!(engine.reveal_shared_gossip(sid, 1), Err(GossipError::InvalidInput));
    let unknown = ShareId { original: id, sharer: addr(4) };
    assert_eq!(engine.reveal_shared_gossip(unknown, 8_000_000), Err(GossipError::NotFound));
    assert_eq!(engine.reveal_shared_gossip(sid, 8_000_000), Ok(()));
}

#[test]
fn only_the_owner_withdraws_and_only_once() {
    let mut engine = SettlementEngine::new();
    let alice = addr(1);
    let mallory = addr(6);
    let dest = addr(7);
    let id = engine.create_gossip(alice, String::from("gifts"), Some(addr(9))).unwrap();
    engine.reveal_gossip(id, 15_000_000).unwrap();
    let vault_id = VaultId::Gossip(id);

    assert_eq!(
        engine.withdraw_from_any_vault(mallory, vault_id, dest),
        Err(GossipError::UnauthorizedWithdraw)
    );
    assert!(engine.get_vault(vault_id).is_some());

    let paid = engine.withdraw_from_any_vault(alice, vault_id, dest).unwrap();
    assert_eq!(paid, Withdrawal { to: dest, amount: 15_000_000 });
    assert!(engine.get_vault(vault_id).is_none());

    assert_eq!(
        engine.withdraw_from_any_vault(alice, vault_id, dest),
        Err(GossipError::NotFound)
    );
}

#[test]
fn withdraw_from_vault_targets_the_gossip_vault() {
    let mut engine = SettlementEngine::new();
    let alice = addr(1);
    let id = engine.create_gossip(alice, String::from("hi"), None).unwrap();

    assert_eq!(
        engine.withdraw_from_vault(alice, id, addr(7)),
        Err(GossipError::NotFound)
    );

    engine.reveal_gossip(id, 10_000_000).unwrap();
    let paid = engine.withdraw_from_vault(alice, id, addr(7)).unwrap();
    assert_eq!(paid, Withdrawal { to: addr(7), amount: 10_000_000 });
    assert_eq!(engine.withdraw_from_vault(alice, id, addr(7)), Err(GossipError::NotFound));
}

#[test]
fn share_vaults_withdraw_independently() {
    let mut engine = SettlementEngine::new();
    let alice = addr(1);
    let bob = addr(3);
    let id = engine.create_gossip(alice, String::from("gifts"), Some(addr(9))).unwrap();
    engine.reveal_gossip(id, 15_000_000).unwrap();
    let sid = engine.share_gossip(bob, id).unwrap();
    engine.reveal_shared_gossip(sid, 12_000_000).unwrap();

    // Bob cannot take the creator's side.
    assert_eq!(
        engine.withdraw_from_any_vault(bob, VaultId::ShareCreator(sid), addr(8)),
        Err(GossipError::UnauthorizedWithdraw)
    );
    let creator_paid = engine
        .withdraw_from_any_vault(alice, VaultId::ShareCreator(sid), addr(8))
        .unwrap();
    assert_eq!(creator_paid.amount, 7_200_000);
    // The sharer's vault is untouched by the creator's withdrawal.
    let sharer_paid = engine
        .withdraw_from_any_vault(bob, VaultId::ShareSharer(sid), addr(9))
        .unwrap();
    assert_eq!(sharer_paid.amount, 4_800_000);
}

#[test]
fn error_kinds_describe_themselves() {
    assert_eq!(GossipError::InvalidInput.describe(), "invalid input");
    assert_eq!(GossipError::AlreadyRevealed.describe(), "already revealed");
    assert_eq!(GossipError::NotFound.describe(), "not found");
    assert_eq!(GossipError::NotRevealed.describe(), "not revealed");
    assert_eq!(GossipError::UnauthorizedWithdraw.describe(), "unauthorized withdrawal");
}
