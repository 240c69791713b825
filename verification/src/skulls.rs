//! Master Skull upgrade math: how many skulls of one tier combine into
//! another, and which listed tier is cheapest per tier-one equivalent.
use vstd::prelude::*;

verus! {

/// Powers of four: each skull tier is made of four of the previous tier.
pub open spec fn pow4(k: int) -> int
    decreases k,
{
    if k <= 0 {
        1
    } else {
        4 * pow4(k - 1)
    }
}

/// Powers of four are positive.
proof fn lemma_pow4_pos(k: int)
    ensures
        pow4(k) >= 1,
    decreases k,
{
    if k > 0 {
        lemma_pow4_pos(k - 1);
    }
}

/// Powers of four grow with the exponent, up to the 31st.
proof fn lemma_pow4_le_31(k: int)
    requires
        0 <= k <= 31,
    ensures
        pow4(k) <= pow4(31),
    decreases 31 - k,
{
    if k < 31 {
        lemma_pow4_pos(k);
        assert(pow4(k + 1) == 4 * pow4(k));
        lemma_pow4_le_31(k + 1);
    }
}

/// Powers of four up to the 31st fit in 64 bits.
proof fn lemma_pow4_bounds(k: int)
    requires
        k <= 31,
    ensures
        1 <= pow4(k) <= 0x4000_0000_0000_0000,
{
    lemma_pow4_pos(k);
    if k >= 0 {
        lemma_pow4_le_31(k);
        assert(pow4(31) == 0x4000_0000_0000_0000) by {
            reveal_with_fuel(pow4, 32);
        }
    }
}

/// How many skulls of `starting_tier` are needed to craft one skull of
/// `ending_tier`: four per tier step, one when no steps are needed (or
/// when the ending tier is not a valid tier at all).
pub fn get_total_required_amount(starting_tier: usize, ending_tier: i32) -> (r: i64)
    requires
        ending_tier as int - starting_tier as int <= 31,
    ensures
        ending_tier < 0 ==> r == 1,
        ending_tier >= 0 ==> r == pow4(ending_tier as int - starting_tier as int),
{
    let mut total_required_amount: i64 = 1;
    if ending_tier >= 0 {
        let tier: usize = ending_tier as usize;
        let mut j: usize = starting_tier;
        while j < tier
            invariant
                starting_tier <= j,
                j <= tier || j == starting_tier,
                tier as int - starting_tier as int <= 31,
                total_required_amount == pow4(j as int - starting_tier as int),
                1 <= total_required_amount <= 0x4000_0000_0000_0000,
            decreases tier as int - j as int,
        {
            proof {
                lemma_pow4_bounds(j as int + 1 - starting_tier as int);
            }
            total_required_amount = total_required_amount * 4;
            j = j + 1;
        }
    }
    total_required_amount
}

/// How many skulls of `best_tier` must be bought to go from the current
/// tier to the target tier: the amount the target needs, less the amount
/// the current tier already covers (unless both are a single skull).
pub open spec fn required_upgrade_amount_spec(best_tier: int, current_tier: int, target_tier: int) -> int {
    let total = pow4(target_tier - best_tier);
    let total_current = pow4(current_tier - best_tier);
    if total != 1 || total_current != 1 {
        total - total_current
    } else {
        total
    }
}

/// The skulls to buy for an upgrade, combining skulls of `best_tier`.
pub fn required_amount_to_upgrade(best_tier: usize, current_tier: i32, target_tier: i32) -> (r:
    i64)
    requires
        0 <= current_tier,
        0 <= target_tier,
        target_tier as int - best_tier as int <= 31,
        current_tier as int - best_tier as int <= 31,
    ensures
        r == required_upgrade_amount_spec(
            best_tier as int,
            current_tier as int,
            target_tier as int,
        ),
{
    let mut total_required_amount: i64 = get_total_required_amount(best_tier, target_tier);
    let total_required_amount_for_current: i64 = get_total_required_amount(
        best_tier,
        current_tier,
    );
    proof {
        lemma_pow4_bounds(target_tier as int - best_tier as int);
        lemma_pow4_bounds(current_tier as int - best_tier as int);
    }
    if total_required_amount != 1 || total_required_amount_for_current != 1 {
        total_required_amount = total_required_amount - total_required_amount_for_current;
    }
    total_required_amount
}


/// The price of one tier-one equivalent when buying the listed skull of
/// tier `t` (1-based): its price divided by the tier-one skulls it is
/// made of.
pub open spec fn price_per_tier_one(prices: Seq<Option<i64>>, t: int) -> int
    recommends
        1 <= t <= prices.len(),
        prices[t - 1] is Some,
{
    (prices[t - 1]->0 as int) / pow4(t - 1)
}

/// Scans the listed prices (index 0 holding tier 1) for the tier that is
/// cheapest per tier-one equivalent: the lowest such price and its tier,
/// or tier 0 with `i64::MAX` when nothing is listed. Ties keep the lowest
/// tier.
pub fn find_best_tier_to_buy(prices: &Vec<Option<i64>>) -> (r: (i64, usize))
    requires
        prices@.len() <= 7,
        forall|t: int|
            0 <= t < prices@.len() ==> (#[trigger] prices@[t] matches Some(p) ==> 0 <= p
                < 1_000_000_000_000_000),
    ensures
        ({
            let (lowest, best) = r;
            &&& (best == 0 <==> (forall|t: int| 0 <= t < prices@.len() ==> prices@[t] is None))
            &&& (best == 0 ==> lowest == i64::MAX)
            &&& (best != 0 ==> 1 <= best <= prices@.len() && prices@[best - 1] is Some && lowest
                == price_per_tier_one(prices@, best as int) && (forall|t: int|
                1 <= t <= prices@.len() && #[trigger] prices@[t - 1] is Some
                    ==> price_per_tier_one(prices@, t) >= lowest) && (forall|t: int|
                1 <= t < best && #[trigger] prices@[t - 1] is Some ==> price_per_tier_one(
                    prices@,
                    t,
                ) > lowest))
        }),
{
    let mut lowest_price_per_tier_one_so_far: i64 = i64::MAX;
    let mut best_tier_to_buy_and_combine: usize = 0;
    let n: usize = prices.len();
    let mut tier: usize = 1;
    while tier <= n
        invariant
            1 <= tier <= n + 1,
            n == prices@.len(),
            n <= 7,
            forall|t: int|
                0 <= t < prices@.len() ==> (#[trigger] prices@[t] matches Some(p) ==> 0 <= p
                    < 1_000_000_000_000_000),
            best_tier_to_buy_and_combine == 0 <==> (forall|t: int|
                0 <= t < tier - 1 ==> prices@[t] is None),
            best_tier_to_buy_and_combine == 0 ==> lowest_price_per_tier_one_so_far == i64::MAX,
            best_tier_to_buy_and_combine != 0 ==> 1 <= best_tier_to_buy_and_combine < tier
                && prices@[best_tier_to_buy_and_combine - 1] is Some
                && lowest_price_per_tier_one_so_far == price_per_tier_one(
                prices@,
                best_tier_to_buy_and_combine as int,
            ) && lowest_price_per_tier_one_so_far < i64::MAX,
            forall|t: int|
                1 <= t < tier && #[trigger] prices@[t - 1] is Some ==> price_per_tier_one(
                    prices@,
                    t,
                ) >= lowest_price_per_tier_one_so_far,
            forall|t: int|
                1 <= t < best_tier_to_buy_and_combine && #[trigger] prices@[t - 1] is Some
                    ==> price_per_tier_one(prices@, t) > lowest_price_per_tier_one_so_far,
        decreases n + 1 - tier,
    {
        if let Some(price) = prices[tier - 1] {
            let mut tier_ones_required: i64 = 1;
            let mut step: usize = 1;
            while step < tier
                invariant
                    1 <= step <= tier <= 7,
                    tier_ones_required == pow4(step as int - 1),
                    1 <= tier_ones_required <= 4096,
                decreases tier - step,
            {
                proof {
                    lemma_pow4_bounds(step as int);
                    reveal_with_fuel(pow4, 8);
                }
                tier_ones_required = tier_ones_required * 4;
                step = step + 1;
            }
            proof {
                lemma_pow4_bounds(tier as int - 1);
            }
            let price_per_one: i64 = price / tier_ones_required;
            proof {
                assert(price_per_one == price_per_tier_one(prices@, tier as int));
                assert(price_per_one < i64::MAX) by (nonlinear_arith)
                    requires
                        price_per_one == (price as int) / (tier_ones_required as int),
                        0 <= (price as int) < 1_000_000_000_000_000,
                        1 <= tier_ones_required,
                ;
                assert(price_per_one >= 0) by (nonlinear_arith)
                    requires
                        price_per_one == (price as int) / (tier_ones_required as int),
                        0 <= (price as int),
                        1 <= tier_ones_required,
                ;
            }
            if price_per_one < lowest_price_per_tier_one_so_far {
                lowest_price_per_tier_one_so_far = price_per_one;
                best_tier_to_buy_and_combine = tier;
            }
        }
        tier = tier + 1;
    }
    (lowest_price_per_tier_one_so_far, best_tier_to_buy_and_combine)
}

} // verus!
