use gossip::pricing::{calculate_gossip_price, calculate_revenue_split, calculate_share_price};

#[test]
fn base_price_without_mention() {
    assert_eq!(calculate_gossip_price("hi", false), 10_000_000);
    assert_eq!(calculate_gossip_price("a", false), 10_000_000);
    assert_eq!(calculate_gossip_price("", false), 10_000_000);
}

#[test]
fn mention_adds_fixed_bonus_at_every_length() {
    let texts = ["", "a", "hello", "exactlyten", "elevenchars", "twentycharacters----"];
    for t in texts {
        let without = calculate_gossip_price(t, false);
        let with = calculate_gossip_price(t, true);
        assert_eq!(with - without, 5_000_000);
    }
}

#[test]
fn price_is_monotone_in_length() {
    let mut previous = 0u64;
    let text = "abcdefghijklmnopqrst";
    for len in 0..=text.len() {
        let price = calculate_gossip_price(&text[..len], false);
        assert!(price >= previous);
        previous = price;
    }
}

#[test]
fn tier_boundaries_step_by_tier_price() {
    let ten = calculate_gossip_price("abcdefghij", false);
    let eleven = calculate_gossip_price("abcdefghijk", false);
    assert_eq!(eleven - ten, 2_000_000);
    let twenty = calculate_gossip_price("abcdefghijklmnopqrst", false);
    let twenty_one = calculate_gossip_price("abcdefghijklmnopqrstu", false);
    assert_eq!(twenty_one - twenty, 2_000_000);
}

#[test]
fn fifteen_chars_without_mention_costs_twelve_million() {
    assert_eq!(calculate_gossip_price("fifteen--chars-", false), 12_000_000);
}

#[test]
fn five_chars_with_mention_costs_fifteen_million() {
    assert_eq!(calculate_gossip_price("gifts", true), 15_000_000);
}

#[test]
fn share_price_is_eighty_percent_truncated() {
    assert_eq!(calculate_share_price(15_000_000), 12_000_000);
    assert_eq!(calculate_share_price(10_000_000), 8_000_000);
    assert_eq!(calculate_share_price(1), 0);
    assert_eq!(calculate_share_price(7), 5);
}

#[test]
fn split_is_sixty_forty_with_truncation() {
    assert_eq!(calculate_revenue_split(12_000_000), (7_200_000, 4_800_000));
    assert_eq!(calculate_revenue_split(100), (60, 40));
    assert_eq!(calculate_revenue_split(0), (0, 0));
}

#[test]
fn split_never_overpays_and_loses_at_most_one_unit() {
    for total in 0u64..500 {
        let (creator, sharer) = calculate_revenue_split(total);
        assert!(creator + sharer <= total);
        assert!(total - (creator + sharer) <= 1);
        if total % 5 == 0 {
            assert_eq!(creator, total * 3 / 5);
            assert_eq!(5 * creator, 3 * total);
        } else {
            assert_ne!(5 * creator, 3 * total);
        }
    }
}
