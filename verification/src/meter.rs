//! The RNG-meter progress model: progress since the last success becomes a
//! meter percentage, which boosts the base drop chance up to a guaranteed
//! drop.
use vstd::prelude::*;

use crate::drops::chance_arg_ok;
use crate::drops::lemma_q_eq_trans;
use crate::rat::Qr;
use crate::rat::Rat;
use crate::rat::cap;
use crate::rat::cap_q;
use crate::rat::get_odds;
use crate::rat::get_odds_q;
use crate::rat::lemma_pos_mul;
use crate::rat::percentage_change_q;
use crate::rat::q_abs;
use crate::rat::q_add;
use crate::rat::q_div;
use crate::rat::q_eq;
use crate::rat::q_int;
use crate::rat::q_le;
use crate::rat::q_lt;
use crate::rat::q_mul;
use crate::rat::q_sub;
use crate::rat::q_wf;
use crate::rat::value_or_minimum_q;

verus! {

/// Largest denominator a base drop chance may carry: four decimal places
/// of a percentage, enough for every catalog drop.
pub const BASE_DEN_LIMIT: i128 = 10_000;

/// Largest value, in percent, a base drop chance may carry.
pub const BASE_VALUE_LIMIT: i128 = 1_000;

/// Largest denominator a meter-completion percentage may carry.
pub const METER_DEN_LIMIT: i128 = 10_000;

/// Largest numerator a value fed to the meter formula may carry.
pub const METER_VALUE_NUM_LIMIT: i128 = 10_000_000_000_000_000_000;

/// Largest denominator a value fed to the meter formula may carry.
pub const METER_VALUE_DEN_LIMIT: i128 = 4_000_000_000;

/// A base drop chance the simulator accepts: a positive percentage of
/// bounded value and precision (bounds forced by exact 128-bit arithmetic).
pub open spec fn base_chance_ok(b: Rat) -> bool {
    &&& b.wf()
    &&& b.den <= BASE_DEN_LIMIT
    &&& 0 < b.num <= BASE_VALUE_LIMIT * b.den
}

/// A meter-completion percentage the simulator accepts: within [0, 100].
pub open spec fn meter_percent_ok(m: Rat) -> bool {
    &&& m.wf()
    &&& m.den <= METER_DEN_LIMIT
    &&& 0 <= m.num <= 100 * m.den
}

/// A value (a progress count or a statistic of such counts) the meter
/// formula accepts.
pub open spec fn meter_value_ok(v: Rat) -> bool {
    &&& v.wf()
    &&& -METER_VALUE_NUM_LIMIT <= v.num <= METER_VALUE_NUM_LIMIT
    &&& v.den <= METER_VALUE_DEN_LIMIT
}

/// The meter percentage for progress already saturated at `odds`:
/// `100 - |percentage_change(odds, capped)|`.
pub open spec fn meter_after_cap_q(odds: Qr, capped: Qr) -> Qr {
    q_sub(q_int(100), q_abs(percentage_change_q(odds, capped)))
}

/// The meter percentage of a progress value: progress saturates at the
/// odds of the drop, where the meter reads 100%.
pub open spec fn rng_meter_percent_q(odds: Qr, value: Qr) -> Qr {
    meter_after_cap_q(odds, cap_q(value, odds))
}

/// The chance multiplier of a meter percentage: `1 + 2 * m / 100`.
pub open spec fn meter_multiplier_q(meter_percent: Qr) -> Qr {
    q_add(q_int(1), q_div(q_mul(q_int(2), meter_percent), q_int(100)))
}

/// The drop chance used for one roll: guaranteed at a full meter, the base
/// chance when the drop has no meter, else the base chance scaled by the
/// meter multiplier.
pub open spec fn final_drop_chance_q(base: Qr, meter_percent: Qr, has_meter: bool) -> Qr {
    if q_le(q_int(100), meter_percent) {
        q_int(100)
    } else if !has_meter {
        base
    } else {
        q_mul(base, meter_multiplier_q(meter_percent))
    }
}

/// Once the saturated progress reaches the odds, the meter reads exactly
/// 100%.
pub proof fn lemma_meter_saturates(o: Qr, v: Qr)
    requires
        q_wf(o),
        q_wf(v),
        o.n > 0,
        q_le(o, v),
    ensures
        q_eq(rng_meter_percent_q(o, v), q_int(100)),
        q_wf(rng_meter_percent_q(o, v)),
{
    let c = cap_q(v, o);
    // Either the cap applies (progress strictly past the odds) or the value
    // already equals the odds; both leave no distance to the odds.
    assert(c.n * o.d - o.n * c.d == 0);
    let s = q_sub(c, o);
    let vom = value_or_minimum_q(q_abs(o), q_int(1));
    let pch = percentage_change_q(o, c);
    assert(s.n == 0);
    assert(pch.n == (s.n * vom.d) * 100 && pch.d == (s.d * vom.n) * 1);
    assert(pch.n == 0) by (nonlinear_arith)
        requires
            pch.n == (s.n * vom.d) * 100,
            s.n == 0,
    ;
    assert(vom.n > 0);
    assert(s.d > 0) by {
        lemma_pos_mul(c.d as int, o.d as int);
    }
    assert(pch.d > 0) by {
        lemma_pos_mul(s.d as int, vom.n as int);
    }
    let m = meter_after_cap_q(o, c);
    assert(m.n == 100 * pch.d - 0 * 1 && m.d == 1 * pch.d);
}

/// While the saturated progress stays below odds that are at least 1, the
/// meter percentage is `100 * capped / odds`.
proof fn lemma_meter_linear(o: Qr, c: Qr)
    requires
        q_wf(o),
        q_wf(c),
        o.n > 0,
        q_le(c, o),
        o.d <= o.n,
    ensures
        q_wf(Qr { n: (100 * c.n) * o.d, d: c.d * o.n }),
        q_wf(meter_after_cap_q(o, c)),
        q_eq(Qr { n: (100 * c.n) * o.d, d: c.d * o.n }, meter_after_cap_q(o, c)),
{
    let s = q_sub(c, o);
    let vom = value_or_minimum_q(q_abs(o), q_int(1));
    // The odds are at least 1, so the change denominator is the odds.
    assert(q_abs(o) == o);
    assert(!q_lt(q_abs(o), q_int(1)));
    assert(vom == o);
    let pch = percentage_change_q(o, c);
    assert(pch.n == (s.n * o.d) * 100 && pch.d == (s.d * o.n) * 1);
    assert(s.n <= 0);
    assert(s.d > 0) by {
        lemma_pos_mul(c.d as int, o.d as int);
    }
    assert(pch.d > 0) by {
        lemma_pos_mul(s.d as int, o.n as int);
    }
    assert(pch.n <= 0) by (nonlinear_arith)
        requires
            pch.n == (s.n * o.d) * 100,
            s.n <= 0,
            o.d > 0,
    ;
    let m = meter_after_cap_q(o, c);
    assert(m.n == 100 * pch.d - (-pch.n) * 1 && m.d == 1 * pch.d);
    // 100 * pch.d + pch.n collapses to 100 * c.n * o.d * o.d.
    assert(m.n == ((100 * c.n) * o.d) * o.d) by (nonlinear_arith)
        requires
            m.n == 100 * pch.d - (-pch.n) * 1,
            pch.d == (s.d * o.n) * 1,
            pch.n == (s.n * o.d) * 100,
            s.n == c.n * o.d - o.n * c.d,
            s.d == c.d * o.d,
    ;
    assert(m.d == (c.d * o.d) * o.n) by (nonlinear_arith)
        requires
            m.d == 1 * pch.d,
            pch.d == (s.d * o.n) * 1,
            s.d == c.d * o.d,
    ;
    assert(q_wf(m)) by {
        assert(m.d == 1 * pch.d && pch.d > 0);
    }
    lemma_pos_mul(c.d as int, o.n as int);
    assert(((100 * c.n) * o.d) * m.d == m.n * (c.d * o.n)) by (nonlinear_arith)
        requires
            m.n == ((100 * c.n) * o.d) * o.d,
            m.d == (c.d * o.d) * o.n,
    ;
}

/// While the progress value stays strictly below the odds, the meter reads
/// strictly below 100%.
pub proof fn lemma_meter_below(o: Qr, v: Qr)
    requires
        q_wf(o),
        q_wf(v),
        o.n > 0,
        q_lt(v, o),
    ensures
        q_lt(rng_meter_percent_q(o, v), q_int(100)),
        q_wf(rng_meter_percent_q(o, v)),
{
    let c = cap_q(v, o);
    assert(c == v);
    let s = q_sub(c, o);
    let vom = value_or_minimum_q(q_abs(o), q_int(1));
    let pch = percentage_change_q(o, c);
    assert(s.n < 0);
    assert(s.d > 0) by {
        lemma_pos_mul(c.d as int, o.d as int);
    }
    assert(vom.n > 0 && vom.d > 0);
    assert(pch.n == (s.n * vom.d) * 100 && pch.d == (s.d * vom.n) * 1);
    assert(pch.n < 0) by (nonlinear_arith)
        requires
            pch.n == (s.n * vom.d) * 100,
            s.n < 0,
            vom.d > 0,
    ;
    assert(pch.d > 0) by {
        lemma_pos_mul(s.d as int, vom.n as int);
    }
    let m = meter_after_cap_q(o, c);
    assert(m.n == 100 * pch.d - (-pch.n) * 1 && m.d == 1 * pch.d);
    assert(m.n < 100 * m.d);
}

/// The meter percentage of a value against the odds of
/// `original_drop_chance`; values past the odds read 100%.
pub fn rng_meter_percent(original_drop_chance: &Rat, value: &Rat) -> (r: Rat)
    requires
        base_chance_ok(*original_drop_chance),
        meter_value_ok(*value),
    ensures
        r.wf(),
        q_eq(
            r.q(),
            rng_meter_percent_q(get_odds_q(original_drop_chance.q()), value.q()),
        ),
        q_le(r.q(), q_int(100)),
{
    let odds = get_odds(original_drop_chance);
    proof {
        assert(-170_141_183_460_469_231_731_687_303_715_884_105_727i128 <= value.num * odds.den
            <= 170_141_183_460_469_231_731_687_303_715_884_105_727i128
            && odds.num * value.den <= 170_141_183_460_469_231_731_687_303_715_884_105_727i128)
            by (nonlinear_arith)
            requires
                -10_000_000_000_000_000_000i128 <= value.num <= 10_000_000_000_000_000_000i128,
                0 < value.den <= 4_000_000_000i128,
                0 < odds.num <= 1_000_000i128,
                0 < odds.den <= 10_000_000i128,
        ;
    }
    let capped = cap(value, &odds);
    proof {
        assert(q_le(capped.q(), odds.q()));
        assert(capped == odds || capped == *value);
    }
    if odds.num < odds.den {
        // The odds are below 1: the change denominator is floored at 1.
        proof {
            assert(-100_000_000_000_000_000_000_000_000i128 <= capped.num * odds.den
                <= 100_000_000_000_000_000_000_000_000i128
                && 0 <= odds.num * capped.den <= 10_000_000_000_000_000i128 && 0 < capped.den
                * odds.den <= 100_000_000_000_000_000i128)
                by (nonlinear_arith)
                requires
                    -10_000_000_000_000_000_000i128 <= capped.num <= 10_000_000_000_000_000_000i128,
                    0 < capped.den <= 4_000_000_000i128,
                    0 < odds.num <= 1_000_000i128,
                    0 < odds.den <= 10_000_000i128,
            ;
        }
        let ds: i128 = capped.num * odds.den - odds.num * capped.den;
        let pd: i128 = capped.den * odds.den;
        let pn: i128 = ds * 100;
        let an: i128 = if pn < 0 {
            -pn
        } else {
            pn
        };
        let r = Rat { num: 100 * pd - an, den: pd };
        proof {
            let o = odds.q();
            let c = capped.q();
            let vom = value_or_minimum_q(q_abs(o), q_int(1));
            assert(q_lt(q_abs(o), q_int(1)));
            assert(vom == q_int(1));
            let pch = percentage_change_q(o, c);
            assert(pch.n == ((c.n * o.d - o.n * c.d) * 1) * 100 && pch.d == ((c.d * o.d) * 1) * 1);
            assert(r.q() == meter_after_cap_q(o, c));
        }
        r
    } else {
        // The odds are at least 1: the meter percentage is the saturated
        // value divided by the odds, that is, the value times the chance.
        proof {
            assert(capped.num * original_drop_chance.num
                <= 170_141_183_460_469_231_731_687_303_715_884_105_727i128 && capped.num
                * original_drop_chance.num >= -170_141_183_460_469_231_731_687_303_715_884_105_727i128
                && capped.den * original_drop_chance.den <= 1_000_000_000_000_000i128 && capped.den
                * original_drop_chance.den > 0)
                by (nonlinear_arith)
                requires
                    -10_000_000_000_000_000_000i128 <= capped.num <= 10_000_000_000_000_000_000i128,
                    0 < capped.den <= 4_000_000_000i128,
                    0 < original_drop_chance.num <= 10_000_000i128,
                    0 < original_drop_chance.den <= 10_000i128,
            ;
        }
        let r = Rat {
            num: capped.num * original_drop_chance.num,
            den: capped.den * original_drop_chance.den,
        };
        proof {
            let o = odds.q();
            let c = capped.q();
            let b = original_drop_chance.q();
            lemma_meter_linear(o, c);
            let m1 = Qr { n: (100 * c.n) * o.d, d: c.d * o.n };
            assert(q_eq(r.q(), m1)) by (nonlinear_arith)
                requires
                    r.q().n == c.n * b.n,
                    r.q().d == c.d * b.d,
                    m1.n == (100 * c.n) * o.d,
                    m1.d == c.d * o.n,
                    o.n == 100 * b.d,
                    o.d == b.n,
                    q_eq(r.q(), m1) == (r.q().n * m1.d == m1.n * r.q().d),
            ;
            lemma_q_eq_trans(r.q(), m1, meter_after_cap_q(o, c));
            // The saturated value never exceeds the odds, so the meter
            // never exceeds 100%.
            assert(r.q().n <= 100 * r.q().d) by (nonlinear_arith)
                requires
                    r.q().n == c.n * b.n,
                    r.q().d == c.d * b.d,
                    c.n * o.d <= o.n * c.d,
                    o.n == 100 * b.d,
                    o.d == b.n,
                    b.n > 0,
                    b.d > 0,
                    c.d > 0,
            ;
        }
        r
    }
}


/// Scaling a base chance by the meter multiplier respects equality of
/// meter percentages.
proof fn lemma_multiplier_congruence(b: Qr, x: Qr, y: Qr)
    requires
        q_wf(b),
        q_wf(x),
        q_wf(y),
        q_eq(x, y),
    ensures
        q_wf(q_mul(b, meter_multiplier_q(x))),
        q_wf(q_mul(b, meter_multiplier_q(y))),
        q_eq(q_mul(b, meter_multiplier_q(x)), q_mul(b, meter_multiplier_q(y))),
{
    let mx = meter_multiplier_q(x);
    let my = meter_multiplier_q(y);
    assert(mx.n == 1 * ((1 * x.d) * 100) + ((2 * x.n) * 1) * 1 && mx.d == 1 * ((1 * x.d) * 100));
    assert(my.n == 1 * ((1 * y.d) * 100) + ((2 * y.n) * 1) * 1 && my.d == 1 * ((1 * y.d) * 100));
    assert((b.n * (100 * x.d + 2 * x.n)) * (b.d * (100 * y.d)) == (b.n * (100 * y.d + 2 * y.n)) * (
    b.d * (100 * x.d))) by (nonlinear_arith)
        requires
            x.n * y.d == y.n * x.d,
    ;
    assert(b.d * (100 * x.d) > 0) by (nonlinear_arith)
        requires
            b.d > 0,
            x.d > 0,
    ;
    assert(b.d * (100 * y.d) > 0) by (nonlinear_arith)
        requires
            b.d > 0,
            y.d > 0,
    ;
}

/// The drop chance used for one roll, given the progress accumulated since
/// the last success: guaranteed once progress reaches the odds, unboosted
/// for drops without a meter, else scaled by the meter multiplier.
pub fn final_drop_chance(original_drop_chance: &Rat, progress: i64, has_meter: bool) -> (r: Rat)
    requires
        base_chance_ok(*original_drop_chance),
        -4_000_000_000 <= progress <= 4_000_000_000,
        has_meter ==> progress >= 1,
    ensures
        chance_arg_ok(r),
        ({
            let m = rng_meter_percent_q(
                get_odds_q(original_drop_chance.q()),
                q_int(progress as int),
            );
            &&& q_wf(final_drop_chance_q(original_drop_chance.q(), m, has_meter))
            &&& q_eq(r.q(), final_drop_chance_q(original_drop_chance.q(), m, has_meter))
            &&& (q_le(q_int(100), m) ==> r.num == 100 && r.den == 1)
            &&& (!q_le(q_int(100), m) && !has_meter ==> r == *original_drop_chance)
        }),
{
    let p: i128 = progress as i128;
    let bn: i128 = original_drop_chance.num;
    let bd: i128 = original_drop_chance.den;
    proof {
        assert(-40_000_000_000_000_000i128 <= p * bn <= 40_000_000_000_000_000i128)
            by (nonlinear_arith)
            requires
                -4_000_000_000i128 <= p <= 4_000_000_000i128,
                0 < bn <= 10_000_000i128,
        ;
    }
    let ghost b = original_drop_chance.q();
    let ghost o = get_odds_q(b);
    let ghost m = rng_meter_percent_q(o, q_int(progress as int));
    proof {
        assert(o == (Qr { n: 100 * b.d, d: b.n }));
    }
    if p * bn >= 100 * bd {
        // Progress has reached the odds: the drop is guaranteed.
        proof {
            lemma_meter_saturates(o, q_int(progress as int));
        }
        Rat { num: 100, den: 1 }
    } else if !has_meter {
        // The meter does not apply to this drop: the chance stays as it is.
        proof {
            lemma_meter_below(o, q_int(progress as int));
        }
        *original_drop_chance
    } else {
        // The meter boosts the chance by `1 + 2 * meter_percent / 100`.
        let mn: i128 = p * bn;
        proof {
            assert(1 <= p * bn && bn <= p * bn && 0 < bd * (bd * 100) <= 10_000_000_000i128 && 0 <= bn * (100 * bd
                + 2 * (p * bn)) <= 40_000_000_000_000i128) by (nonlinear_arith)
                requires
                    p >= 1,
                    0 < bd <= 10_000i128,
                    0 < bn <= 1_000 * bd,
                    p * bn < 100 * bd,
            ;
        }
        let r = Rat { num: bn * (100 * bd + 2 * mn), den: bd * (bd * 100) };
        proof {
            lemma_meter_below(o, q_int(progress as int));
            let m_red = Qr { n: p * bn, d: b.d };
            let capped = cap_q(q_int(progress as int), o);
            assert(capped == q_int(progress as int));
            lemma_meter_linear(o, capped);
            let m1 = Qr { n: (100 * capped.n) * o.d, d: capped.d * o.n };
            assert(q_eq(m_red, m1)) by (nonlinear_arith)
                requires
                    m_red.n == p * bn,
                    m_red.d == b.d,
                    m1.n == (100 * p) * b.n,
                    m1.d == 1 * (100 * b.d),
                    b.n == bn,
                    b.d == bd,
            ;
            lemma_q_eq_trans(m_red, m1, m);
            lemma_multiplier_congruence(b, m_red, m);
            assert(r.q() == q_mul(b, meter_multiplier_q(m_red)));
            assert(0 < r.den <= 10_000_000_000i128 && 0 <= r.num <= 3_000 * r.den)
                by (nonlinear_arith)
                requires
                    r.num == bn * (100 * bd + 2 * mn),
                    r.den == bd * (bd * 100),
                    0 < bd <= 10_000i128,
                    0 < bn <= 1_000 * bd,
                    1 <= mn < 100 * bd,
            ;
        }
        r
    }
}


/// Law: for a drop without a meter, as long as the meter percentage stays
/// below 100, the per-roll chance is exactly the base chance, never
/// boosted by the meter multiplier. (At a full meter the guarantee branch
/// still applies even without a meter; those inputs are excluded here.)
pub proof fn lemma_no_meter_chance_unboosted(base: Qr, meter_percent: Qr)
    requires
        q_wf(meter_percent),
        q_lt(meter_percent, q_int(100)),
    ensures
        final_drop_chance_q(base, meter_percent, false) == base,
{
}

} // verus!
