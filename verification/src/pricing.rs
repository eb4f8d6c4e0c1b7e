//! The two pure money policies: reveal pricing and revenue splitting.
//!
//! A gossip's reveal price is fixed at creation from the text length and
//! whether a third party is mentioned. A share resells at a fixed discount,
//! and a share's proceeds are split between the original creator and the
//! sharer by fixed percentages, truncating toward zero; the residual of at
//! most one unit is accepted policy and is neither tracked nor refunded.

use vstd::prelude::*;
use vstd::arithmetic::div_mod::{
    lemma_div_by_multiple, lemma_div_is_ordered, lemma_div_non_zero, lemma_div_pos_is_pos,
    lemma_fundamental_div_mod, lemma_fundamental_div_mod_converse_div,
    lemma_fundamental_div_mod_converse_mod, lemma_mod_bound,
};
use vstd::arithmetic::mul::lemma_mul_inequality;

verus! {

/// Base reveal price of every gossip, in the smallest native currency unit.
pub const BASE_PRICE: u64 = 10_000_000;

/// Added to the price when the gossip mentions a third party.
pub const MENTION_BONUS: u64 = 5_000_000;

/// Added to the price for each full length tier above the first.
pub const CHAR_TIER_PRICE: u64 = 2_000_000;

/// Width of one length tier, in characters.
pub const CHARS_PER_TIER: usize = 10;

/// Hard bound on a gossip text's length, in characters.
pub const MAX_TEXT_LEN: usize = 20;

/// Largest price the policy can assign to a text within `MAX_TEXT_LEN`.
pub const MAX_PRICE: u64 = BASE_PRICE + MENTION_BONUS + CHAR_TIER_PRICE;

/// Percentage of the original price a share resells at.
pub const SHARE_PRICE_PERCENT: u64 = 80;

/// Percentage of a share's proceeds owed to the original creator.
pub const CREATOR_SHARE_PERCENT: u64 = 60;

/// Percentage of a share's proceeds owed to the sharer.
pub const SHARER_SHARE_PERCENT: u64 = 40;

/// Zero-based length tier of a text: lengths 1 to 10 are tier 0,
/// 11 to 20 tier 1, and so on.
pub open spec fn spec_tier(len: nat) -> nat {
    if len > CHARS_PER_TIER {
        (((len - 1) as int / (CHARS_PER_TIER as int)) as nat)
    } else {
        0
    }
}

/// The reveal price of a text of `len` characters: the base price, plus the
/// mention bonus if a party is mentioned, plus the tier surcharge.
pub open spec fn spec_price(len: nat, has_mention: bool) -> nat {
    (BASE_PRICE as nat) + (if has_mention {
        MENTION_BONUS as nat
    } else {
        0nat
    }) + spec_tier(len) * (CHAR_TIER_PRICE as nat)
}

/// The resale price of a share of a gossip priced `original_price`,
/// truncated to a whole unit.
pub open spec fn spec_share_price(original_price: int) -> int {
    original_price * (SHARE_PRICE_PERCENT as int) / 100
}

/// The original creator's part of a share payment of `total`.
pub open spec fn spec_creator_amount(total: int) -> int {
    total * (CREATOR_SHARE_PERCENT as int) / 100
}

/// The sharer's part of a share payment of `total`.
pub open spec fn spec_sharer_amount(total: int) -> int {
    total * (SHARER_SHARE_PERCENT as int) / 100
}

/// Computes the reveal price of `text` from its character length and the
/// mention flag.
pub fn calculate_gossip_price(text: &str, has_mention: bool) -> (price: u64)
    requires
        text@.len() <= MAX_TEXT_LEN,
    ensures
        price == spec_price(text@.len(), has_mention),
{
    let mut price: u64 = BASE_PRICE;
    if has_mention {
        price = price + MENTION_BONUS;
    }
    let text_length: usize = text.unicode_len();
    if text_length > CHARS_PER_TIER {
        let tier: usize = (text_length - 1) / CHARS_PER_TIER;
        price = price + (tier as u64) * CHAR_TIER_PRICE;
    }
    price
}

/// Computes a share's resale price from the original gossip's price.
pub fn calculate_share_price(original_price: u64) -> (r: u64)
    requires
        original_price * SHARE_PRICE_PERCENT <= u64::MAX,
    ensures
        r == spec_share_price(original_price as int),
{
    (original_price * SHARE_PRICE_PERCENT) / 100
}

/// Splits a share payment into the original creator's and the sharer's
/// amounts.
pub fn calculate_revenue_split(total_amount: u64) -> (r: (u64, u64))
    requires
        total_amount * CREATOR_SHARE_PERCENT <= u64::MAX,
    ensures
        r.0 == spec_creator_amount(total_amount as int),
        r.1 == spec_sharer_amount(total_amount as int),
{
    let creator_amount = (total_amount * CREATOR_SHARE_PERCENT) / 100;
    let sharer_amount = (total_amount * SHARER_SHARE_PERCENT) / 100;
    (creator_amount, sharer_amount)
}

/// The price is monotonically non-decreasing in the text length.
pub proof fn lemma_price_monotonic(len1: nat, len2: nat, has_mention: bool)
    requires
        len1 <= len2,
    ensures
        spec_price(len1, has_mention) <= spec_price(len2, has_mention),
{
    if len1 > CHARS_PER_TIER {
        lemma_div_is_ordered((len1 - 1) as int, (len2 - 1) as int, CHARS_PER_TIER as int);
    }
    lemma_mul_inequality(spec_tier(len1) as int, spec_tier(len2) as int, CHAR_TIER_PRICE as int);
}

/// Mentioning a party raises the price by exactly the mention bonus,
/// whatever the text length.
pub proof fn lemma_mention_bonus(len: nat)
    ensures
        spec_price(len, true) - spec_price(len, false) == MENTION_BONUS,
{
}

/// Crossing a tier boundary raises the price by exactly the tier surcharge:
/// once between lengths 10 and 11, and again between lengths 20 and 21.
pub proof fn lemma_price_tier_boundary(has_mention: bool)
    ensures
        spec_price(11, has_mention) - spec_price(10, has_mention) == CHAR_TIER_PRICE,
        spec_price(21, has_mention) - spec_price(20, has_mention) == CHAR_TIER_PRICE,
{
    assert(spec_tier(10) == 0 && spec_tier(11) == 1 && spec_tier(20) == 1 && spec_tier(21) == 2);
}

/// No text within the length bound is priced above `MAX_PRICE`.
pub proof fn lemma_price_bounded(len: nat, has_mention: bool)
    requires
        len <= MAX_TEXT_LEN,
    ensures
        spec_price(len, has_mention) <= MAX_PRICE,
{
    if len > CHARS_PER_TIER {
        lemma_div_is_ordered((len - 1) as int, 19, CHARS_PER_TIER as int);
    }
    lemma_mul_inequality(spec_tier(len) as int, 1, CHAR_TIER_PRICE as int);
}

/// A share's price never exceeds the original's and is never negative.
pub proof fn lemma_share_price_bounds(p: int)
    requires
        0 <= p,
    ensures
        0 <= spec_share_price(p) <= p,
{
    lemma_div_pos_is_pos(p * (SHARE_PRICE_PERCENT as int), 100);
    lemma_mul_inequality(SHARE_PRICE_PERCENT as int, 100, p);
    assert(p * (SHARE_PRICE_PERCENT as int) == (SHARE_PRICE_PERCENT as int) * p);
    assert((SHARE_PRICE_PERCENT as int) * p <= 100 * p);
    lemma_div_is_ordered(p * (SHARE_PRICE_PERCENT as int), p * 100, 100);
    lemma_div_by_multiple(p, 100);
}

/// The share price grows with the original price.
pub proof fn lemma_share_price_monotonic(p1: int, p2: int)
    requires
        0 <= p1 <= p2,
    ensures
        spec_share_price(p1) <= spec_share_price(p2),
{
    lemma_mul_inequality(p1, p2, SHARE_PRICE_PERCENT as int);
    lemma_div_is_ordered(p1 * (SHARE_PRICE_PERCENT as int), p2 * (SHARE_PRICE_PERCENT as int), 100);
}

/// Each side of the split is between zero and the whole payment.
pub proof fn lemma_split_bounds(total: int)
    requires
        0 <= total,
    ensures
        0 <= spec_creator_amount(total) <= total,
        0 <= spec_sharer_amount(total) <= total,
{
    lemma_div_pos_is_pos(total * (CREATOR_SHARE_PERCENT as int), 100);
    lemma_div_pos_is_pos(total * (SHARER_SHARE_PERCENT as int), 100);
    lemma_mul_inequality(CREATOR_SHARE_PERCENT as int, 100, total);
    lemma_mul_inequality(SHARER_SHARE_PERCENT as int, 100, total);
    assert(total * (CREATOR_SHARE_PERCENT as int) == (CREATOR_SHARE_PERCENT as int) * total);
    assert(total * (SHARER_SHARE_PERCENT as int) == (SHARER_SHARE_PERCENT as int) * total);
    lemma_div_is_ordered(total * (CREATOR_SHARE_PERCENT as int), total * 100, 100);
    lemma_div_is_ordered(total * (SHARER_SHARE_PERCENT as int), total * 100, 100);
    assert(total * 100 == 100 * total);
    lemma_div_by_multiple(total, 100);
}

/// On any payment of at least three units, both sides of the split are
/// positive.
pub proof fn lemma_split_positive(total: int)
    requires
        3 <= total,
    ensures
        0 < spec_creator_amount(total),
        0 < spec_sharer_amount(total),
{
    assert(100 <= total * (CREATOR_SHARE_PERCENT as int)) by (nonlinear_arith)
        requires 3 <= total;
    assert(100 <= total * (SHARER_SHARE_PERCENT as int)) by (nonlinear_arith)
        requires 3 <= total;
    lemma_div_non_zero(total * (CREATOR_SHARE_PERCENT as int), 100);
    lemma_div_non_zero(total * (SHARER_SHARE_PERCENT as int), 100);
}

/// Splitting never pays out more than was collected, loses at most one unit
/// to truncation, and the creator's amount is exactly three fifths of the
/// total precisely when the total is a multiple of five.
pub proof fn lemma_split_correct(total: int)
    requires
        0 <= total,
    ensures
        spec_creator_amount(total) + spec_sharer_amount(total) <= total,
        total - (spec_creator_amount(total) + spec_sharer_amount(total)) <= 1,
        total % 5 == 0 ==> spec_creator_amount(total) == total * 3 / 5,
        5 * spec_creator_amount(total) == 3 * total <==> total % 5 == 0,
{
    let q1 = 3 * total / 5;
    let r1 = 3 * total % 5;
    let q2 = 2 * total / 5;
    let r2 = 2 * total % 5;
    lemma_fundamental_div_mod(3 * total, 5);
    lemma_fundamental_div_mod(2 * total, 5);
    lemma_mod_bound(3 * total, 5);
    lemma_mod_bound(2 * total, 5);
    // The percentages are the fifths scaled by twenty, so the divisions by
    // one hundred reduce to divisions by five.
    lemma_fundamental_div_mod_converse_div(60 * total, 100, q1, 20 * r1);
    lemma_fundamental_div_mod_converse_div(40 * total, 100, q2, 20 * r2);
    assert(spec_creator_amount(total) == q1);
    assert(spec_sharer_amount(total) == q2);
    // 5 * total == 5 * (q1 + q2) + (r1 + r2), so the truncation loss
    // total - (q1 + q2) lies between zero and one.
    assert(5 * (total - q1 - q2) == r1 + r2);
    if total % 5 == 0 {
        let u = total / 5;
        lemma_fundamental_div_mod(total, 5);
        assert(3 * total == (3 * u) * 5 + 0) by (nonlinear_arith)
            requires total == 5 * u;
        lemma_fundamental_div_mod_converse_div(3 * total, 5, 3 * u, 0);
        assert(q1 == 3 * u);
    }
    if 5 * q1 == 3 * total {
        // Then r1 == 0, so five divides 3 * total, hence five divides total.
        assert(total == (2 * q1 - total) * 5 + 0);
        lemma_fundamental_div_mod_converse_mod(total, 5, 2 * q1 - total, 0);
    }
}

} // verus!
