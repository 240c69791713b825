//! Survivability math: effective health from health and defense, hits a
//! player survives against an enemy, and the smallest stat increases that
//! buy one more hit.
use vstd::prelude::*;

use crate::constants::F3_SHADOW_ASSASSIN_DAMAGE;
use crate::constants::F4_SHADOW_ASSASSIN_DAMAGE;
use crate::constants::F5_FELS_DAMAGE;
use crate::constants::F5_SHADOW_ASSASSIN_DAMAGE;
use crate::constants::F6_FELS_DAMAGE;
use crate::constants::F6_SHADOW_ASSASSIN_DAMAGE;
use crate::constants::F7_FELS_DAMAGE;
use crate::constants::F7_SHADOW_ASSASSIN_DAMAGE;
use crate::constants::M3_SHADOW_ASSASSIN_DAMAGE;
use crate::constants::M4_SHADOW_ASSASSIN_DAMAGE;
use crate::constants::M5_FELS_DAMAGE;
use crate::constants::M5_SHADOW_ASSASSIN_DAMAGE;
use crate::constants::M6_FELS_DAMAGE;
use crate::constants::M6_SHADOW_ASSASSIN_DAMAGE;
use crate::constants::M7_FELS_DAMAGE;
use crate::constants::M7_SHADOW_ASSASSIN_DAMAGE;
use crate::constants::VOIDGLOOM_SERAPH_TIER_1_TOTAL_DAMAGE;
use crate::constants::VOIDGLOOM_SERAPH_TIER_2_TOTAL_DAMAGE;
use crate::constants::VOIDGLOOM_SERAPH_TIER_3_TOTAL_DAMAGE;
use crate::constants::VOIDGLOOM_SERAPH_TIER_4_TOTAL_DAMAGE;
use crate::rat::Qr;
use crate::rat::Rat;
use crate::rat::q_add;
use crate::rat::q_eq;
use crate::rat::q_int;
use crate::rat::value_or_minimum_q;

verus! {

/// Effective health: each full 100 points of defense add one multiple of
/// the health.
pub open spec fn effective_health_spec(health: int, defense: int) -> int {
    health * (1 + defense / 100)
}

/// Hits to die: one more than the hits the effective health absorbs, and
/// never fewer than one absorbed hit.
pub open spec fn hits_to_die_q(effective_health: int, enemy_damage_per_hit: int) -> Qr {
    q_add(
        q_int(1),
        value_or_minimum_q(
            Qr { n: effective_health, d: enemy_damage_per_hit },
            q_int(1),
        ),
    )
}

/// The ceiling of a non-negative rational.
pub open spec fn q_ceil(a: Qr) -> int
    recommends
        a.d > 0,
        a.n >= 0,
{
    (a.n + a.d - 1) / a.d
}

/// Effective health from health and defense.
pub fn calculate_effective_health(health: i32, defense: i32) -> (r: i32)
    requires
        0 <= health,
        0 <= defense,
        effective_health_spec(health as int, defense as int) <= i32::MAX,
    ensures
        r == effective_health_spec(health as int, defense as int),
        r >= health,
{
    proof {
        assert(health * 1 <= health * (1 + defense / 100)) by (nonlinear_arith)
            requires
                health >= 0,
                defense >= 0,
                defense / 100 >= 0,
        ;
    }
    health * (1 + defense / 100)
}

/// Hits to die, as an exact rational.
pub fn calculate_hits_to_die(effective_health: i32, enemy_damage_per_hit: i32) -> (r: Rat)
    requires
        0 <= effective_health,
        0 < enemy_damage_per_hit,
    ensures
        r.wf(),
        r.q() == hits_to_die_q(effective_health as int, enemy_damage_per_hit as int),
        effective_health < enemy_damage_per_hit ==> r.num == 2 && r.den == 1,
        effective_health >= enemy_damage_per_hit ==> r.num == enemy_damage_per_hit
            + effective_health && r.den == enemy_damage_per_hit,
{
    let e: i128 = effective_health as i128;
    let d: i128 = enemy_damage_per_hit as i128;
    if e < d {
        // Fewer than one hit absorbed: floored at one.
        Rat { num: 2, den: 1 }
    } else {
        Rat { num: d + e, den: d }
    }
}

/// The smallest extra health that lifts effective health to the target,
/// with defense unchanged.
pub fn find_needed_health(hp: i32, defense: i32, to_effective_health: i32) -> (r: i32)
    requires
        0 <= hp,
        0 <= defense,
        0 <= to_effective_health,
        effective_health_spec(hp as int, defense as int) <= i32::MAX,
        to_effective_health + (1 + defense / 100) <= i32::MAX,
    ensures
        0 <= r,
        effective_health_spec((hp + r) as int, defense as int) >= to_effective_health,
        forall|h: int|
            hp <= h < hp + r ==> effective_health_spec(h, defense as int) < to_effective_health,
{
    let k: i32 = 1 + defense / 100;
    let mut new_hp: i32 = hp;
    loop
        invariant
            0 <= hp <= new_hp,
            0 <= defense,
            k == 1 + defense / 100,
            1 <= k,
            to_effective_health + k <= i32::MAX,
            new_hp * k <= i32::MAX,
            forall|h: int|
                hp <= h < new_hp ==> effective_health_spec(h, defense as int)
                    < to_effective_health,
        ensures
            new_hp * k >= to_effective_health,
            forall|h: int|
                hp <= h < new_hp ==> effective_health_spec(h, defense as int)
                    < to_effective_health,
            hp <= new_hp,
        decreases to_effective_health - new_hp,
    {
        let ehp: i32 = new_hp * k;
        if ehp >= to_effective_health {
            break ;
        }
        proof {
            // The next candidate's effective health moves up by only `k`.
            assert((new_hp + 1) * k == new_hp * k + k) by (nonlinear_arith);
            assert(new_hp * 1 <= new_hp * k) by (nonlinear_arith)
                requires
                    new_hp >= 0,
                    k >= 1,
            ;
        }
        new_hp = new_hp + 1;
    }
    new_hp - hp
}

/// The smallest extra defense that lifts effective health to the target,
/// with health unchanged.
pub fn find_needed_defense(hp: i32, defense: i32, to_effective_health: i32) -> (r: i32)
    requires
        1 <= hp,
        0 <= defense,
        0 <= to_effective_health <= 21_000_000,
        effective_health_spec(hp as int, defense as int) <= i32::MAX,
        to_effective_health + hp <= i32::MAX,
    ensures
        0 <= r,
        effective_health_spec(hp as int, (defense + r) as int) >= to_effective_health,
        forall|d: int|
            defense <= d < defense + r ==> effective_health_spec(hp as int, d)
                < to_effective_health,
{
    let mut new_defense: i32 = defense;
    loop
        invariant
            defense <= new_defense,
            1 <= hp,
            0 <= defense,
            0 <= to_effective_health <= 21_000_000,
            to_effective_health + hp <= i32::MAX,
            hp * (1 + new_defense / 100) <= i32::MAX,
            forall|d: int|
                defense <= d < new_defense ==> effective_health_spec(hp as int, d)
                    < to_effective_health,
        ensures
            effective_health_spec(hp as int, new_defense as int) >= to_effective_health,
            forall|d: int|
                defense <= d < new_defense ==> effective_health_spec(hp as int, d)
                    < to_effective_health,
            defense <= new_defense,
        decreases 100 * (to_effective_health + 1) - new_defense,
    {
        let ehp: i32 = calculate_effective_health(hp, new_defense);
        if ehp >= to_effective_health {
            break ;
        }
        proof {
            // One more defense point raises the multiplier by at most one
            // step of one health, staying within bounds.
            assert(hp * (1 + (new_defense + 1) / 100) <= hp * (1 + new_defense / 100) + hp)
                by (nonlinear_arith)
                requires
                    hp >= 1,
                    new_defense >= 0,
            ;
            assert(1 * (1 + new_defense / 100) <= hp * (1 + new_defense / 100))
                by (nonlinear_arith)
                requires
                    hp >= 1,
                    new_defense >= 0,
            ;
            assert(new_defense < 100 * (to_effective_health + 1)) by (nonlinear_arith)
                requires
                    hp * (1 + new_defense / 100) < to_effective_health,
                    hp >= 1,
                    new_defense >= 0,
                    1 + new_defense / 100 <= hp * (1 + new_defense / 100),
            ;
        }
        new_defense = new_defense + 1;
    }
    new_defense - defense
}

/// Whether effective health `e` is a milestone past `e0`: its hits-to-die
/// either completes the started hit (reaches the ceiling of the original
/// non-integral hits-to-die) or affords one full extra hit.
pub open spec fn milestone_hit_q(e0: int, d: int, e: int) -> bool {
    let orig = hits_to_die_q(e0, d);
    let h = hits_to_die_q(e, d);
    let c = q_ceil(orig);
    ||| (!q_eq(orig, q_int(c)) && q_eq(h, q_int(c)))
    ||| q_eq(h, q_add(orig, q_int(1)))
}

/// The smallest effective health at or above the current one whose
/// hits-to-die reaches the next whole hit.
pub fn calculate_next_effective_health_milestone(
    effective_health: i32,
    enemy_damage_per_hit: i32,
) -> (r: i32)
    requires
        0 <= effective_health,
        0 < enemy_damage_per_hit,
        effective_health + 2 * enemy_damage_per_hit <= i32::MAX,
    ensures
        effective_health <= r,
        milestone_hit_q(effective_health as int, enemy_damage_per_hit as int, r as int),
        forall|e: int|
            effective_health <= e < r ==> !milestone_hit_q(
                effective_health as int,
                enemy_damage_per_hit as int,
                e,
            ),
{
    let e0: i128 = effective_health as i128;
    let d: i128 = enemy_damage_per_hit as i128;
    let original_hits = calculate_hits_to_die(effective_health, enemy_damage_per_hit);
    // The ceiling of the original hits-to-die, as an integer.
    let ceil_num: i128 = original_hits.num + original_hits.den - 1;
    let ceil_val: i128 = ((ceil_num as u128) / (original_hits.den as u128)) as i128;
    proof {
        assert(ceil_num <= ceil_num * original_hits.den) by (nonlinear_arith)
            requires
                ceil_num >= 0,
                original_hits.den >= 1,
        ;
        crate::rat::lemma_div_range(
            ceil_num as int,
            original_hits.den as int,
            0,
            ceil_num as int,
        );
        assert(0 <= ceil_val * original_hits.den <= 100_000_000_000_000_000_000i128)
            by (nonlinear_arith)
            requires
                0 <= ceil_val <= 10_000_000_000i128,
                0 < original_hits.den <= 10_000_000_000i128,
        ;
    }
    let orig_is_integral: bool = original_hits.num == ceil_val * original_hits.den;
    let ghost witness: int = if e0 < d {
        2 * d as int
    } else {
        e0 as int + d as int
    };
    proof {
        // A milestone certainly exists within two more enemy hits.
        let orig = hits_to_die_q(e0 as int, d as int);
        if e0 < d {
            let h = hits_to_die_q(2 * (d as int), d as int);
            let x = q_add(orig, q_int(1));
            assert(orig == (Qr { n: 2, d: 1 }));
            assert(x.n == 3 && x.d == 1);
            assert(h.n == 1 * (d as int) + (2 * (d as int)) * 1 && h.d == 1 * (d as int));
            assert(h.n == 3 * (d as int));
            assert(h.n * x.d == x.n * h.d);
            assert(q_eq(h, x));
        } else {
            let h = hits_to_die_q(e0 as int + d as int, d as int);
            let x = q_add(orig, q_int(1));
            assert(h.n == 1 * (d as int) + (e0 as int + d as int) * 1 && h.d == 1 * (d as int));
            assert(orig.n == 1 * (d as int) + (e0 as int) * 1 && orig.d == 1 * (d as int));
            assert(x.n == orig.n * 1 + 1 * orig.d && x.d == orig.d * 1);
            assert(h.n * x.d == x.n * h.d) by (nonlinear_arith)
                requires
                    h.n == 1 * (d as int) + (e0 as int + d as int) * 1,
                    h.d == 1 * (d as int),
                    orig.n == 1 * (d as int) + (e0 as int) * 1,
                    orig.d == 1 * (d as int),
                    x.n == orig.n * 1 + 1 * orig.d,
                    x.d == orig.d * 1,
            ;
            assert(q_eq(h, x));
        }
        assert(milestone_hit_q(e0 as int, d as int, witness));
    }
    let mut e: i32 = effective_health;
    loop
        invariant
            effective_health <= e,
            e as int <= witness,
            e0 == effective_health as int,
            d == enemy_damage_per_hit as int,
            0 <= e0,
            0 < d,
            e0 + 2 * d <= i32::MAX,
            witness == if e0 < d {
                2 * (d as int)
            } else {
                e0 as int + d as int
            },
            milestone_hit_q(e0 as int, d as int, witness),
            original_hits.q() == hits_to_die_q(e0 as int, d as int),
            original_hits.wf(),
            0 < original_hits.den <= d,
            0 < original_hits.num <= d + e0 + 1,
            0 <= ceil_val <= original_hits.num + original_hits.den,
            ceil_val == q_ceil(original_hits.q()),
            orig_is_integral == q_eq(original_hits.q(), q_int(ceil_val as int)),
            forall|x: int| effective_health <= x < e ==> !milestone_hit_q(e0 as int, d as int, x),
        ensures
            milestone_hit_q(e0 as int, d as int, e as int),
            forall|x: int| effective_health <= x < e ==> !milestone_hit_q(e0 as int, d as int, x),
            effective_health <= e,
        decreases witness - e,
    {
        let hits = calculate_hits_to_die(e, enemy_damage_per_hit);
        proof {
            assert(-100_000_000_000_000_000_000i128 <= ceil_val * hits.den
                <= 100_000_000_000_000_000_000i128 && 0 <= hits.num * original_hits.den
                <= 100_000_000_000_000_000_000i128 && 0 <= (original_hits.num
                + original_hits.den) * hits.den <= 1_000_000_000_000_000_000_000i128)
                by (nonlinear_arith)
                requires
                    0 <= ceil_val <= 10_000_000_000i128,
                    0 < hits.den <= 10_000_000_000i128,
                    0 < hits.num <= 10_000_000_000i128,
                    0 < original_hits.den <= 10_000_000_000i128,
                    0 < original_hits.num <= 10_000_000_000i128,
            ;
        }
        let reaches_ceiling: bool = !orig_is_integral && hits.num == ceil_val * hits.den;
        let one_more: bool = hits.num * original_hits.den == (original_hits.num
            + original_hits.den) * hits.den;
        proof {
            assert(reaches_ceiling == (!q_eq(original_hits.q(), q_int(ceil_val as int)) && q_eq(
                hits.q(),
                q_int(ceil_val as int),
            )));
            assert(one_more == q_eq(
                hits.q(),
                q_add(hits_to_die_q(e0 as int, d as int), q_int(1)),
            ));
        }
        if reaches_ceiling || one_more {
            break ;
        }
        e = e + 1;
    }
    e
}


/// The damage table of the selectable enemies: Shadow Assassins and Fels
/// by floor, Voidgloom Seraphs by tier; 0 for selections outside the
/// table.
pub open spec fn enemy_damage_spec(selection: int, sub_selection: int) -> int {
    if selection == 1 {
        if sub_selection == 1 {
            F3_SHADOW_ASSASSIN_DAMAGE as int
        } else if sub_selection == 2 {
            F4_SHADOW_ASSASSIN_DAMAGE as int
        } else if sub_selection == 3 {
            F5_SHADOW_ASSASSIN_DAMAGE as int
        } else if sub_selection == 4 {
            F6_SHADOW_ASSASSIN_DAMAGE as int
        } else if sub_selection == 5 {
            F7_SHADOW_ASSASSIN_DAMAGE as int
        } else if sub_selection == 6 {
            M3_SHADOW_ASSASSIN_DAMAGE as int
        } else if sub_selection == 7 {
            M4_SHADOW_ASSASSIN_DAMAGE as int
        } else if sub_selection == 8 {
            M5_SHADOW_ASSASSIN_DAMAGE as int
        } else if sub_selection == 9 {
            M6_SHADOW_ASSASSIN_DAMAGE as int
        } else if sub_selection == 10 {
            M7_SHADOW_ASSASSIN_DAMAGE as int
        } else {
            0
        }
    } else if selection == 2 {
        if sub_selection == 1 {
            F5_FELS_DAMAGE as int
        } else if sub_selection == 2 {
            F6_FELS_DAMAGE as int
        } else if sub_selection == 3 {
            F7_FELS_DAMAGE as int
        } else if sub_selection == 4 {
            M5_FELS_DAMAGE as int
        } else if sub_selection == 5 {
            M6_FELS_DAMAGE as int
        } else if sub_selection == 6 {
            M7_FELS_DAMAGE as int
        } else {
            0
        }
    } else if selection == 3 {
        if sub_selection == 1 {
            VOIDGLOOM_SERAPH_TIER_1_TOTAL_DAMAGE as int
        } else if sub_selection == 2 {
            VOIDGLOOM_SERAPH_TIER_2_TOTAL_DAMAGE as int
        } else if sub_selection == 3 {
            VOIDGLOOM_SERAPH_TIER_3_TOTAL_DAMAGE as int
        } else if sub_selection == 4 {
            VOIDGLOOM_SERAPH_TIER_4_TOTAL_DAMAGE as int
        } else {
            0
        }
    } else {
        0
    }
}

/// The damage one hit of the selected enemy deals, by selection and floor
/// or tier.
pub fn get_enemy_damage_per_hit(selection: i32, sub_selection: i32) -> (r: i32)
    ensures
        r == enemy_damage_spec(selection as int, sub_selection as int),
{
    match selection {
        1 => match sub_selection {
            1 => F3_SHADOW_ASSASSIN_DAMAGE,
            2 => F4_SHADOW_ASSASSIN_DAMAGE,
            3 => F5_SHADOW_ASSASSIN_DAMAGE,
            4 => F6_SHADOW_ASSASSIN_DAMAGE,
            5 => F7_SHADOW_ASSASSIN_DAMAGE,
            6 => M3_SHADOW_ASSASSIN_DAMAGE,
            7 => M4_SHADOW_ASSASSIN_DAMAGE,
            8 => M5_SHADOW_ASSASSIN_DAMAGE,
            9 => M6_SHADOW_ASSASSIN_DAMAGE,
            10 => M7_SHADOW_ASSASSIN_DAMAGE,
            _ => 0,
        },
        2 => match sub_selection {
            1 => F5_FELS_DAMAGE,
            2 => F6_FELS_DAMAGE,
            3 => F7_FELS_DAMAGE,
            4 => M5_FELS_DAMAGE,
            5 => M6_FELS_DAMAGE,
            6 => M7_FELS_DAMAGE,
            _ => 0,
        },
        3 => match sub_selection {
            1 => VOIDGLOOM_SERAPH_TIER_1_TOTAL_DAMAGE,
            2 => VOIDGLOOM_SERAPH_TIER_2_TOTAL_DAMAGE,
            3 => VOIDGLOOM_SERAPH_TIER_3_TOTAL_DAMAGE,
            4 => VOIDGLOOM_SERAPH_TIER_4_TOTAL_DAMAGE,
            _ => 0,
        },
        _ => 0,
    }
}

} // verus!
