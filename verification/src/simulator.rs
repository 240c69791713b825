//! The roll simulator: drives the drop-chance and RNG-meter models across a
//! sequence of uniform draws, one per roll, recording successes, the
//! minimum Magic Find that would have won each roll, and per-roll
//! diagnostics.
//!
//! Rolls are strictly sequential: each roll's meter progress depends on
//! when the previous success happened, so the whole run is specified as a
//! fold over the draw sequence.
use vstd::prelude::*;

use crate::constants::CHIMERA_DROP_CHANCE_NUM;
use crate::constants::DARK_CLAYMORE_DROP_CHANCE_NUM;
use crate::constants::DROP_CHANCE_DEN;
use crate::constants::JUDGEMENT_CORE_DROP_CHANCE_NUM;
use crate::constants::MAXIMUM_MAGIC_FIND;
use crate::constants::NECRONS_HANDLE_DROP_CHANCE_NUM;
use crate::constants::NECRONS_HANDLE_MASTER_MODE_DROP_CHANCE_NUM;
use crate::constants::OVERFLUX_CAPACITOR_DROP_CHANCE_NUM;
use crate::constants::WARDEN_HEART_DROP_CHANCE_NUM;
use crate::drops::lemma_minimum_mf_congruence;
use crate::drops::lemma_passes_congruence;
use crate::drops::minimum_mf_q;
use crate::drops::passes;
use crate::drops::passes_q;
use crate::drops::get_minimum_magic_find_needed_to_succeed;
use crate::meter::base_chance_ok;
use crate::meter::final_drop_chance;
use crate::meter::final_drop_chance_q;
use crate::meter::meter_percent_ok;
use crate::meter::rng_meter_percent_q;
use crate::rat::Qr;
use crate::rat::Rat;
use crate::rat::get_odds;
use crate::rat::get_odds_q;
use crate::rat::lemma_div_range;
use crate::rat::percent_of;
use crate::rat::percentage_change;
use crate::rat::percentage_change_q;
use crate::rat::q_abs;
use crate::rat::q_sub;
use crate::rat::percent_of_q;
use crate::rat::q_int;
use crate::rat::q_trunc;

verus! {

/// The denominator of every draw, as a signed quantity: 2^53.
pub const DRAW_DEN_I: i128 = 9_007_199_254_740_992;

/// The rational value of a draw numerator.
pub open spec fn draw_q(n: int) -> Qr {
    Qr { n: n, d: 9_007_199_254_740_992 }
}

/// A draw sequence as mathematical integers.
pub open spec fn seq_u64_to_int(s: Seq<u64>) -> Seq<int> {
    s.map_values(|d: u64| d as int)
}

/// A result sequence as mathematical integers.
pub open spec fn seq_i32_to_int(s: Seq<i32>) -> Seq<int> {
    s.map_values(|d: i32| d as int)
}

/// What one roll produced, for display and diagnostics.
#[derive(Clone, Copy, Debug, PartialEq, Eq, Structural)]
pub struct RollOutcome {
    /// 1-based index of the roll.
    pub roll_index: i32,
    /// Meter progress the roll was made with.
    pub meter_progress_at_roll: i32,
    /// Whether the roll won the drop.
    pub succeeded: bool,
    /// Smallest Magic Find that would have won this roll; 901 when even
    /// the maximum would not have.
    pub minimum_magic_find_to_succeed: i32,
}

/// The mathematical content of a `RollOutcome`.
pub open spec fn outcome_view(o: RollOutcome) -> (int, int, bool, int) {
    (
        o.roll_index as int,
        o.meter_progress_at_roll as int,
        o.succeeded,
        o.minimum_magic_find_to_succeed as int,
    )
}

/// An outcome sequence as mathematical tuples.
pub open spec fn seq_outcome_view(s: Seq<RollOutcome>) -> Seq<(int, int, bool, int)> {
    s.map_values(|o: RollOutcome| outcome_view(o))
}

/// The simulator's accumulated state after some prefix of the rolls.
pub ghost struct SimState {
    /// How many rolls succeeded.
    pub drops: int,
    /// Whether any roll has succeeded yet.
    pub reset_at_least_once: bool,
    /// 1-based index of the last successful roll, or 0.
    pub last_reset_at: int,
    /// Minimum Magic Find of each roll that was winnable at all, in roll
    /// order.
    pub mf_values: Seq<int>,
    /// Meter progress of each successful roll, in roll order.
    pub meter_rolls: Seq<int>,
    /// One entry per roll: index, progress, success, minimum Magic Find.
    pub outcomes: Seq<(int, int, bool, int)>,
}

/// The state before any roll.
pub open spec fn sim_init_q() -> SimState {
    SimState {
        drops: 0,
        reset_at_least_once: false,
        last_reset_at: 0,
        mf_values: Seq::empty(),
        meter_rolls: Seq::empty(),
        outcomes: Seq::empty(),
    }
}

/// Meter progress at a roll: rolls since the last success once one
/// happened, else the starting offset plus the roll index, truncated.
pub open spec fn progress_q(offset: Qr, reset: bool, last_reset_at: int, roll: int) -> int {
    if reset {
        roll - last_reset_at
    } else {
        q_trunc(Qr { n: offset.n + roll * offset.d, d: offset.d })
    }
}

/// One roll of the simulator, as a state transformer.
pub open spec fn sim_step_q(
    st: SimState,
    base: Qr,
    offset: Qr,
    has_meter: bool,
    looting: Qr,
    magic_find: int,
    draw: int,
    roll: int,
) -> SimState {
    let progress = progress_q(offset, st.reset_at_least_once, st.last_reset_at, roll);
    let meter = rng_meter_percent_q(get_odds_q(base), q_int(progress));
    let chance = final_drop_chance_q(base, meter, has_meter);
    let d = draw_q(draw);
    let success = passes_q(d, chance, magic_find, looting);
    let start = if success {
        0int
    } else {
        magic_find + 1
    };
    let min_mf = minimum_mf_q(d, chance, looting, start);
    SimState {
        drops: st.drops + if success {
            1int
        } else {
            0int
        },
        reset_at_least_once: st.reset_at_least_once || success,
        last_reset_at: if success {
            roll
        } else {
            st.last_reset_at
        },
        mf_values: if min_mf == 901 {
            st.mf_values
        } else {
            st.mf_values.push(min_mf)
        },
        meter_rolls: if success {
            st.meter_rolls.push(progress)
        } else {
            st.meter_rolls
        },
        outcomes: st.outcomes.push((roll, progress, success, min_mf)),
    }
}

/// The simulator's state after the first `n` rolls of a draw sequence.
pub open spec fn sim_fold_q(
    base: Qr,
    offset: Qr,
    has_meter: bool,
    looting: Qr,
    magic_find: int,
    draws: Seq<int>,
    n: int,
) -> SimState
    decreases n,
{
    if n <= 0 {
        sim_init_q()
    } else {
        sim_step_q(
            sim_fold_q(base, offset, has_meter, looting, magic_find, draws, n - 1),
            base,
            offset,
            has_meter,
            looting,
            magic_find,
            draws[n - 1],
            n,
        )
    }
}

/// The starting meter offset: the completion percentage applied to the
/// odds (the sentinel -1 of drops without a meter gives a small negative
/// offset, as the formula dictates).
pub open spec fn start_offset_q(base: Qr, meter_percent: Qr) -> Qr {
    percent_of_q(get_odds_q(base), meter_percent)
}

/// Truncation toward zero of `num / den`, as a float-to-integer
/// conversion would truncate.
fn trunc_toward_zero(num: i128, den: i128) -> (r: i128)
    requires
        den > 0,
        num > i128::MIN,
    ensures
        r == q_trunc(Qr { n: num as int, d: den as int }),
        0 <= num ==> 0 <= r <= num,
        num < 0 ==> num <= r <= 0,
{
    if num >= 0 {
        proof {
            assert(num <= num * den) by (nonlinear_arith)
                requires
                    num >= 0,
                    den >= 1,
            ;
            lemma_div_range(num as int, den as int, 0, num as int);
        }
        ((num as u128) / (den as u128)) as i128
    } else {
        let neg: i128 = -num;
        proof {
            assert(neg <= neg * den) by (nonlinear_arith)
                requires
                    neg >= 0,
                    den >= 1,
            ;
            lemma_div_range(neg as int, den as int, 0, neg as int);
        }
        -(((neg as u128) / (den as u128)) as i128)
    }
}

/// Rolls through the whole draw sequence, filling
/// `all_succeeded_magic_find_values` with the minimum Magic Find of every
/// winnable roll and `meter_succeeded_rolls` with the meter progress of
/// every successful roll, and returns how many rolls succeeded. One
/// `RollOutcome` per roll is appended to `outcomes`.
pub fn do_rolls_and_get_drops(
    original_drop_chance: &Rat,
    original_rng_meter_percent: Option<Rat>,
    looting_extra_chance: i32,
    magic_find: i32,
    draws: &Vec<u64>,
    all_succeeded_magic_find_values: &mut Vec<i32>,
    meter_succeeded_rolls: &mut Vec<i32>,
    outcomes: &mut Vec<RollOutcome>,
) -> (drops: i32)
    requires
        base_chance_ok(*original_drop_chance),
        original_rng_meter_percent matches Some(m) ==> meter_percent_ok(m),
        0 <= looting_extra_chance <= 1000,
        0 <= magic_find <= 900,
        draws@.len() <= 2_000_000_000,
        forall|i: int| 0 <= i < draws@.len() ==> draws@[i] < 9_007_199_254_740_992u64,
        old(all_succeeded_magic_find_values)@.len() == 0,
        old(meter_succeeded_rolls)@.len() == 0,
        old(outcomes)@.len() == 0,
    ensures
        ({
            let meterq = match original_rng_meter_percent {
                Some(m) => m.q(),
                None => q_int(-1),
            };
            let fin = sim_fold_q(
                original_drop_chance.q(),
                start_offset_q(original_drop_chance.q(), meterq),
                original_rng_meter_percent is Some,
                q_int(looting_extra_chance as int),
                magic_find as int,
                seq_u64_to_int(draws@),
                draws@.len() as int,
            );
            &&& drops as int == fin.drops
            &&& seq_i32_to_int(final(all_succeeded_magic_find_values)@) == fin.mf_values
            &&& seq_i32_to_int(final(meter_succeeded_rolls)@) == fin.meter_rolls
            &&& seq_outcome_view(final(outcomes)@) == fin.outcomes
        }),
        0 <= drops,
{
    let ghost b = original_drop_chance.q();
    let ghost meterq = match original_rng_meter_percent {
        Some(m) => m.q(),
        None => q_int(-1),
    };
    let ghost lootq = q_int(looting_extra_chance as int);
    let ghost dseq = seq_u64_to_int(draws@);
    let has_meter: bool = original_rng_meter_percent.is_some();

    let odds = get_odds(original_drop_chance);
    let meter_rat: Rat = match original_rng_meter_percent {
        Some(m) => m,
        None => Rat::from_int(-1),
    };
    proof {
        assert(odds.num * meter_rat.num <= 1_000_000_000_000i128 && odds.num * meter_rat.num
            >= -1_000_000i128 && 0 < odds.den * 100 * meter_rat.den <= 10_000_000_000_000i128
            && odds.den * 100 <= 1_000_000_000i128) by (nonlinear_arith)
            requires
                0 < odds.num <= 1_000_000i128,
                0 < odds.den <= 10_000_000i128,
                -1 <= meter_rat.num <= 1_000_000i128,
                0 < meter_rat.den <= 10_000i128,
                meter_rat.num <= 100 * meter_rat.den,
        ;
    }
    let off = percent_of(&odds, &meter_rat);
    proof {
        // The offset value lies between -10000 and 1000001 odds-capped.
        assert(off.num <= 1_000_001 * off.den && off.num >= -10_000 * off.den)
            by (nonlinear_arith)
            requires
                off.num == odds.num * meter_rat.num,
                off.den == odds.den * 100 * meter_rat.den,
                0 < odds.num <= 1_000_000i128,
                0 < odds.den,
                -1 <= meter_rat.num <= 100 * meter_rat.den,
                0 < meter_rat.den,
        ;
        assert(has_meter ==> off.num >= 0) by (nonlinear_arith)
            requires
                off.num == odds.num * meter_rat.num,
                odds.num > 0,
                has_meter ==> meter_rat.num >= 0,
        ;
    }

    let mut drops: i32 = 0;
    let mut reset_meter_at_least_once: bool = false;
    let mut last_reset_at: i64 = 0;
    let mut k: usize = 0;
    let rolls: usize = draws.len();
    while k < rolls
        invariant
            k <= rolls,
            rolls == draws@.len(),
            draws@.len() <= 2_000_000_000,
            forall|i: int| 0 <= i < draws@.len() ==> draws@[i] < 9_007_199_254_740_992u64,
            base_chance_ok(*original_drop_chance),
            0 <= looting_extra_chance <= 1000,
            0 <= magic_find <= 900,
            b == original_drop_chance.q(),
            lootq == q_int(looting_extra_chance as int),
            dseq == seq_u64_to_int(draws@),
            meterq == match original_rng_meter_percent {
                Some(m) => m.q(),
                None => q_int(-1),
            },
            has_meter == original_rng_meter_percent is Some,
            off.wf(),
            off.q() == start_offset_q(b, meterq),
            off.den <= 10_000_000_000_000i128,
            -1_000_000i128 <= off.num <= 1_000_000_000_000i128,
            off.num <= 1_000_001 * off.den,
            off.num >= -10_000 * off.den,
            has_meter ==> off.num >= 0,
            0 <= drops <= k,
            0 <= last_reset_at <= k,
            ({
                let st = sim_fold_q(b, off.q(), has_meter, lootq, magic_find as int, dseq, k as int);
                &&& drops as int == st.drops
                &&& reset_meter_at_least_once == st.reset_at_least_once
                &&& last_reset_at as int == st.last_reset_at
                &&& seq_i32_to_int(all_succeeded_magic_find_values@) == st.mf_values
                &&& seq_i32_to_int(meter_succeeded_rolls@) == st.meter_rolls
                &&& seq_outcome_view(outcomes@) == st.outcomes
            }),
        decreases rolls - k,
    {
        let ghost st = sim_fold_q(b, off.q(), has_meter, lootq, magic_find as int, dseq, k as int);
        let roll_i: i64 = (k as i64) + 1;
        let progress: i64 = if reset_meter_at_least_once {
            roll_i - last_reset_at
        } else {
            proof {
                assert((roll_i as i128) * off.den <= 2_000_000_001 * 10_000_000_000_000i128
                    && (roll_i as i128) * off.den >= off.den) by (nonlinear_arith)
                    requires
                        1 <= roll_i as i128 <= 2_000_000_001i128,
                        0 < off.den <= 10_000_000_000_000i128,
                ;
            }
            let s_num: i128 = off.num + (roll_i as i128) * off.den;
            proof {
                assert(s_num <= (1_000_001 + roll_i as i128) * off.den) by (nonlinear_arith)
                    requires
                        s_num == off.num + (roll_i as i128) * off.den,
                        off.num <= 1_000_001 * off.den,
                ;
                assert(s_num >= (-10_000) * off.den) by (nonlinear_arith)
                    requires
                        s_num == off.num + (roll_i as i128) * off.den,
                        off.num >= -10_000 * off.den,
                        (roll_i as i128) * off.den >= 0,
                ;
                if s_num >= 0 {
                    lemma_div_range(
                        s_num as int,
                        off.den as int,
                        0,
                        1_000_001 + roll_i as int,
                    );
                } else {
                    lemma_div_range((-s_num) as int, off.den as int, 0, 10_000);
                }
                assert(has_meter ==> s_num >= off.den) by (nonlinear_arith)
                    requires
                        s_num == off.num + (roll_i as i128) * off.den,
                        has_meter ==> off.num >= 0,
                        (roll_i as i128) * off.den >= off.den,
                ;
                if has_meter {
                    lemma_div_range(s_num as int, off.den as int, 1, 1_000_001 + roll_i as int);
                }
            }
            let t = trunc_toward_zero(s_num, off.den);
            t as i64
        };
        proof {
            assert(progress as int == progress_q(
                off.q(),
                st.reset_at_least_once,
                st.last_reset_at,
                roll_i as int,
            ));
            assert(-10_000 <= progress as int <= 2_001_000_002);
            assert(has_meter ==> progress >= 1);
        }
        let chance = final_drop_chance(original_drop_chance, progress, has_meter);
        let draw_rat = Rat { num: draws[k] as i128, den: DRAW_DEN_I };
        let loot_rat = Rat::from_int(looting_extra_chance as i64);
        let ghost m_spec = rng_meter_percent_q(get_odds_q(b), q_int(progress as int));
        let ghost chance_spec = final_drop_chance_q(b, m_spec, has_meter);
        let success = passes(&draw_rat, &chance, magic_find, &loot_rat);
        proof {
            lemma_passes_congruence(
                draw_rat.q(),
                chance.q(),
                chance_spec,
                magic_find as int,
                loot_rat.q(),
            );
        }
        if success {
            drops = drops + 1;
            reset_meter_at_least_once = true;
            last_reset_at = roll_i;
            meter_succeeded_rolls.push(progress as i32);
        }
        let minimum_magic_find_needed_to_succeed = get_minimum_magic_find_needed_to_succeed(
            &draw_rat,
            &chance,
            &loot_rat,
            if success {
                None
            } else {
                Some(magic_find + 1)
            },
        );
        proof {
            lemma_minimum_mf_congruence(
                draw_rat.q(),
                chance.q(),
                chance_spec,
                loot_rat.q(),
                if success {
                    0int
                } else {
                    magic_find as int + 1
                },
            );
        }
        if minimum_magic_find_needed_to_succeed != MAXIMUM_MAGIC_FIND + 1 {
            all_succeeded_magic_find_values.push(minimum_magic_find_needed_to_succeed);
        }
        outcomes.push(
            RollOutcome {
                roll_index: roll_i as i32,
                meter_progress_at_roll: progress as i32,
                succeeded: success,
                minimum_magic_find_to_succeed: minimum_magic_find_needed_to_succeed,
            },
        );
        k = k + 1;
        proof {
            let st2 = sim_fold_q(b, off.q(), has_meter, lootq, magic_find as int, dseq, k as int);
            assert(st2 == sim_step_q(
                st,
                b,
                off.q(),
                has_meter,
                lootq,
                magic_find as int,
                dseq[k - 1],
                k as int,
            ));
            assert(dseq[k - 1] == draws@[k - 1] as int);
            assert(seq_i32_to_int(meter_succeeded_rolls@) =~= st2.meter_rolls);
            assert(seq_i32_to_int(all_succeeded_magic_find_values@) =~= st2.mf_values);
            assert(seq_outcome_view(outcomes@) =~= st2.outcomes);
        }
    }
    drops
}


/// Law: the simulator is deterministic. Two runs over equal draw
/// sequences, with the same chance, offset, looting and Magic Find,
/// produce equal results.
pub proof fn lemma_simulation_deterministic(
    base: Qr,
    offset: Qr,
    has_meter: bool,
    looting: Qr,
    magic_find: int,
    draws1: Seq<int>,
    draws2: Seq<int>,
    n: int,
)
    requires
        draws1 == draws2,
    ensures
        sim_fold_q(base, offset, has_meter, looting, magic_find, draws1, n) == sim_fold_q(
            base,
            offset,
            has_meter,
            looting,
            magic_find,
            draws2,
            n,
        ),
{
}

/// Law: a run of zero rolls succeeds zero times and leaves every result
/// sequence empty.
pub proof fn lemma_no_rolls(
    base: Qr,
    offset: Qr,
    has_meter: bool,
    looting: Qr,
    magic_find: int,
    draws: Seq<int>,
)
    ensures
        sim_fold_q(base, offset, has_meter, looting, magic_find, draws, 0) == sim_init_q(),
        sim_init_q().drops == 0,
        sim_init_q().mf_values.len() == 0,
        sim_init_q().meter_rolls.len() == 0,
        sim_init_q().outcomes.len() == 0,
{
}

/// Law: after `n` rolls the success count never exceeds `n`, one meter
/// entry exists per success, the minimum-Magic-Find values never exceed
/// one per roll, and there is exactly one outcome per roll.
pub proof fn lemma_sim_fold_bounds(
    base: Qr,
    offset: Qr,
    has_meter: bool,
    looting: Qr,
    magic_find: int,
    draws: Seq<int>,
    n: int,
)
    requires
        n >= 0,
    ensures
        ({
            let st = sim_fold_q(base, offset, has_meter, looting, magic_find, draws, n);
            &&& 0 <= st.drops <= n
            &&& st.meter_rolls.len() == st.drops
            &&& st.mf_values.len() <= n
            &&& st.outcomes.len() == n
            &&& 0 <= st.last_reset_at <= n
            &&& (st.reset_at_least_once <==> st.drops > 0)
        }),
    decreases n,
{
    if n > 0 {
        lemma_sim_fold_bounds(base, offset, has_meter, looting, magic_find, draws, n - 1);
    }
}


/// The catalog drop chance of a selection: the numerator over
/// `DROP_CHANCE_DEN`, or 0 for the custom and invalid selections.
pub open spec fn catalog_chance_num(selection: int) -> int {
    if selection == 1 {
        CHIMERA_DROP_CHANCE_NUM as int
    } else if selection == 2 {
        JUDGEMENT_CORE_DROP_CHANCE_NUM as int
    } else if selection == 3 {
        WARDEN_HEART_DROP_CHANCE_NUM as int
    } else if selection == 4 {
        OVERFLUX_CAPACITOR_DROP_CHANCE_NUM as int
    } else if selection == 5 {
        NECRONS_HANDLE_DROP_CHANCE_NUM as int
    } else if selection == 6 {
        NECRONS_HANDLE_MASTER_MODE_DROP_CHANCE_NUM as int
    } else if selection == 7 {
        DARK_CLAYMORE_DROP_CHANCE_NUM as int
    } else {
        0
    }
}

/// The base drop chance of a catalog selection. Selection 1 (Chimera) and
/// 8 (a custom drop) also mark the drop as eligible for Looting; the
/// custom chance itself is supplied by the caller afterwards, so the
/// returned chance is zero for it.
pub fn get_drop_chance(selection: i32, no_looting: &mut bool) -> (r: Rat)
    ensures
        r.wf(),
        r.num == catalog_chance_num(selection as int),
        r.den == DROP_CHANCE_DEN,
        1 <= selection <= 7 ==> base_chance_ok(r),
        selection == 1 || selection == 8 ==> *final(no_looting) == false,
        selection != 1 && selection != 8 ==> *final(no_looting) == *old(no_looting),
{
    match selection {
        1 => {
            *no_looting = false;
            Rat { num: CHIMERA_DROP_CHANCE_NUM, den: DROP_CHANCE_DEN }
        },
        2 => Rat { num: JUDGEMENT_CORE_DROP_CHANCE_NUM, den: DROP_CHANCE_DEN },
        3 => Rat { num: WARDEN_HEART_DROP_CHANCE_NUM, den: DROP_CHANCE_DEN },
        4 => Rat { num: OVERFLUX_CAPACITOR_DROP_CHANCE_NUM, den: DROP_CHANCE_DEN },
        5 => Rat { num: NECRONS_HANDLE_DROP_CHANCE_NUM, den: DROP_CHANCE_DEN },
        6 => Rat { num: NECRONS_HANDLE_MASTER_MODE_DROP_CHANCE_NUM, den: DROP_CHANCE_DEN },
        7 => Rat { num: DARK_CLAYMORE_DROP_CHANCE_NUM, den: DROP_CHANCE_DEN },
        8 => {
            *no_looting = false;
            Rat { num: 0, den: DROP_CHANCE_DEN }
        },
        _ => Rat { num: 0, den: DROP_CHANCE_DEN },
    }
}

/// What share of the theoretically winnable rolls actually succeeded, in
/// percent: `100 - |percentage_change(max_drops, drops)|`.
pub fn possible_drops_percent(drops: i32, max_drops: usize) -> (r: Rat)
    requires
        0 <= drops <= 2_000_000_000,
        max_drops <= 2_000_000_000,
    ensures
        r.wf(),
        r.q() == q_sub(
            q_int(100),
            q_abs(percentage_change_q(q_int(max_drops as int), q_int(drops as int))),
        ),
{
    let a = Rat::from_int(max_drops as i64);
    let b = Rat::from_int(drops as i64);
    let ch = percentage_change(&a, &b);
    proof {
        let aq = q_int(max_drops as int);
        let bq = q_int(drops as int);
        let sub = q_sub(bq, aq);
        let vom = crate::rat::value_or_minimum_q(q_abs(aq), q_int(1));
        let pch = percentage_change_q(aq, bq);
        assert(pch.n == (sub.n * vom.d) * 100 && pch.d == (sub.d * vom.n) * 1);
        assert(sub.n == drops as int - max_drops as int && sub.d == 1);
        assert(vom.d == 1 && vom.n >= 1 && vom.n <= 2_000_000_000);
        assert(ch.num as int == pch.n && ch.den as int == pch.d);
        assert(pch.n == sub.n * 100 && pch.d == vom.n) by (nonlinear_arith)
            requires
                pch.n == (sub.n * vom.d) * 100,
                pch.d == (sub.d * vom.n) * 1,
                vom.d == 1,
                sub.d == 1,
        ;
        assert(0 < ch.den <= 2_000_000_000 && -200_000_000_100i128 <= ch.num
            <= 200_000_000_100i128);
    }
    let abs_num: i128 = if ch.num < 0 {
        -ch.num
    } else {
        ch.num
    };
    Rat { num: 100 * ch.den - abs_num, den: ch.den }
}


/// A drop to simulate: its base chance and which mechanics apply to it.
#[derive(Clone, Copy, Debug)]
pub struct DropProfile {
    /// The unmodified drop chance, in percent.
    pub base_chance: Rat,
    /// Whether the Looting enchantment boosts this drop.
    pub supports_looting: bool,
    /// Whether the RNG meter applies to this drop.
    pub supports_meter: bool,
}

/// The player's stats for a run.
#[derive(Clone, Copy, Debug)]
pub struct PlayerModifiers {
    /// Magic Find, 0 to 900.
    pub magic_find: i32,
    /// Looting enchantment level, 0 to 5; used only on eligible drops.
    pub looting_level: i32,
    /// Meter completion at the start of the run, for drops with a meter.
    pub meter_completion_percent: Option<Rat>,
}

/// One whole simulation request: fixed for the run.
#[derive(Clone, Copy, Debug)]
pub struct SimulationRequest {
    pub profile: DropProfile,
    pub modifiers: PlayerModifiers,
}

impl SimulationRequest {
    /// A request the simulator accepts.
    pub open spec fn wf(self) -> bool {
        &&& base_chance_ok(self.profile.base_chance)
        &&& 0 <= self.modifiers.magic_find <= 900
        &&& 0 <= self.modifiers.looting_level <= 5
        &&& (self.modifiers.meter_completion_percent matches Some(m) ==> meter_percent_ok(m))
        &&& (self.profile.supports_meter <==> self.modifiers.meter_completion_percent is Some)
    }

    /// The Looting bonus of the run, in percentage points: 15 per level on
    /// eligible drops, nothing otherwise.
    pub open spec fn looting_extra_chance_spec(self) -> int {
        if self.profile.supports_looting {
            15 * self.modifiers.looting_level
        } else {
            0
        }
    }
}

/// Everything one run produced.
#[derive(Debug)]
pub struct SimulationResult {
    /// How many rolls won the drop.
    pub total_successes: i32,
    /// Minimum Magic Find of every roll winnable at maximum Magic Find,
    /// in roll order.
    pub all_minimum_magic_find_values: Vec<i32>,
    /// Meter progress of every successful roll, in roll order.
    pub meter_succeeded_rolls: Vec<i32>,
    /// One diagnostic entry per roll.
    pub outcomes: Vec<RollOutcome>,
}

/// Runs a whole simulation request over a draw sequence: one roll per
/// draw, exactly as the fold over the draw sequence dictates.
pub fn simulate(request: &SimulationRequest, draws: &Vec<u64>) -> (r: SimulationResult)
    requires
        request.wf(),
        draws@.len() <= 2_000_000_000,
        forall|i: int| 0 <= i < draws@.len() ==> draws@[i] < 9_007_199_254_740_992u64,
    ensures
        ({
            let meterq = match request.modifiers.meter_completion_percent {
                Some(m) => m.q(),
                None => q_int(-1),
            };
            let fin = sim_fold_q(
                request.profile.base_chance.q(),
                start_offset_q(request.profile.base_chance.q(), meterq),
                request.profile.supports_meter,
                q_int(request.looting_extra_chance_spec()),
                request.modifiers.magic_find as int,
                seq_u64_to_int(draws@),
                draws@.len() as int,
            );
            &&& r.total_successes as int == fin.drops
            &&& seq_i32_to_int(r.all_minimum_magic_find_values@) == fin.mf_values
            &&& seq_i32_to_int(r.meter_succeeded_rolls@) == fin.meter_rolls
            &&& seq_outcome_view(r.outcomes@) == fin.outcomes
            &&& 0 <= r.total_successes <= draws@.len()
            &&& r.meter_succeeded_rolls@.len() == r.total_successes
            &&& r.all_minimum_magic_find_values@.len() <= draws@.len()
            &&& r.outcomes@.len() == draws@.len()
        }),
{
    let looting_extra_chance: i32 = if request.profile.supports_looting {
        15 * request.modifiers.looting_level
    } else {
        0
    };
    let mut all_minimum_magic_find_values: Vec<i32> = Vec::new();
    let mut meter_succeeded_rolls: Vec<i32> = Vec::new();
    let mut outcomes: Vec<RollOutcome> = Vec::new();
    let total_successes = do_rolls_and_get_drops(
        &request.profile.base_chance,
        request.modifiers.meter_completion_percent,
        looting_extra_chance,
        request.modifiers.magic_find,
        draws,
        &mut all_minimum_magic_find_values,
        &mut meter_succeeded_rolls,
        &mut outcomes,
    );
    proof {
        let meterq = match request.modifiers.meter_completion_percent {
            Some(m) => m.q(),
            None => q_int(-1),
        };
        lemma_sim_fold_bounds(
            request.profile.base_chance.q(),
            start_offset_q(request.profile.base_chance.q(), meterq),
            request.profile.supports_meter,
            q_int(request.looting_extra_chance_spec()),
            request.modifiers.magic_find as int,
            seq_u64_to_int(draws@),
            draws@.len() as int,
        );
        assert(seq_i32_to_int(meter_succeeded_rolls@).len() == meter_succeeded_rolls@.len());
        assert(seq_i32_to_int(all_minimum_magic_find_values@).len()
            == all_minimum_magic_find_values@.len());
        assert(seq_outcome_view(outcomes@).len() == outcomes@.len());
    }
    SimulationResult {
        total_successes,
        all_minimum_magic_find_values,
        meter_succeeded_rolls,
        outcomes,
    }
}

} // verus!
