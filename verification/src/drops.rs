//! The drop-chance model: how Magic Find and Looting scale a base drop
//! chance, whether a drawn magic number wins a roll, and the smallest Magic
//! Find that would have made a given draw succeed.
use vstd::prelude::*;

use crate::constants::MAXIMUM_MAGIC_FIND;
use crate::rat::Qr;
use crate::rat::Rat;
use crate::rat::lemma_pos_mul;
use crate::rat::percent_of_q;
use crate::rat::q_add;
use crate::rat::q_div;
use crate::rat::q_eq;
use crate::rat::q_int;
use crate::rat::q_lt;
use crate::rat::q_wf;

verus! {

/// Largest denominator a chance argument may carry.
pub const CHANCE_DEN_LIMIT: i128 = 10_000_000_000;

/// Largest value, in percent, a chance argument may carry.
pub const CHANCE_VALUE_LIMIT: i128 = 3_000;

/// Largest denominator a looting-bonus argument may carry.
pub const LOOT_DEN_LIMIT: i128 = 100;

/// Largest value, in percentage points, a looting-bonus argument may carry.
pub const LOOT_VALUE_LIMIT: i128 = 1_000;

/// Largest denominator of a drawn magic number: 2^53, the resolution of the
/// uniform draws this crate works with.
pub const DRAW_DEN_LIMIT: i128 = 9_007_199_254_740_992;

/// A drop chance the model accepts: a non-negative percentage of bounded
/// value and precision (bounds forced by exact 128-bit arithmetic).
pub open spec fn chance_arg_ok(c: Rat) -> bool {
    &&& c.wf()
    &&& c.den <= CHANCE_DEN_LIMIT
    &&& 0 <= c.num <= CHANCE_VALUE_LIMIT * c.den
}

/// A looting bonus the model accepts, in percentage points.
pub open spec fn loot_arg_ok(l: Rat) -> bool {
    &&& l.wf()
    &&& l.den <= LOOT_DEN_LIMIT
    &&& 0 <= l.num <= LOOT_VALUE_LIMIT * l.den
}

/// A magic number the model accepts: a uniform draw in [0, 1].
pub open spec fn draw_arg_ok(d: Rat) -> bool {
    &&& d.wf()
    &&& d.den <= DRAW_DEN_LIMIT
    &&& 0 <= d.num <= d.den
}

/// The drop rate after Magic Find, then Looting, each applied as a
/// percentage-of-percentage bonus, in that order.
pub open spec fn drop_rate_q(chance: Qr, magic_find: int, looting: Qr) -> Qr {
    let with_mf = q_add(chance, percent_of_q(chance, q_int(magic_find)));
    q_add(with_mf, percent_of_q(with_mf, looting))
}

/// A roll succeeds when the drawn magic number is below the scaled drop
/// rate expressed as a probability.
pub open spec fn passes_q(magic_number: Qr, chance: Qr, magic_find: int, looting: Qr) -> bool {
    q_lt(magic_number, q_div(drop_rate_q(chance, magic_find, looting), q_int(100)))
}

/// Transitivity of rational equality.
pub proof fn lemma_q_eq_trans(a: Qr, b: Qr, c: Qr)
    requires
        q_wf(a),
        q_wf(b),
        q_wf(c),
        q_eq(a, b),
        q_eq(b, c),
    ensures
        q_eq(a, c),
{
    assert((a.n * c.d) * b.d == (c.n * a.d) * b.d) by (nonlinear_arith)
        requires
            a.n * b.d == b.n * a.d,
            b.n * c.d == c.n * b.d,
    ;
    assert(a.n * c.d == c.n * a.d) by (nonlinear_arith)
        requires
            (a.n * c.d) * b.d == (c.n * a.d) * b.d,
            b.d > 0,
    ;
}

/// Strict comparison against a rational is unchanged when that rational is
/// replaced by an equal one.
pub proof fn lemma_q_lt_congruence_right(a: Qr, b: Qr, b2: Qr)
    requires
        q_wf(a),
        q_wf(b),
        q_wf(b2),
        q_eq(b, b2),
    ensures
        q_lt(a, b) == q_lt(a, b2),
{
    if q_lt(a, b) {
        assert(a.n * b2.d < b2.n * a.d) by (nonlinear_arith)
            requires
                a.n * b.d < b.n * a.d,
                b.n * b2.d == b2.n * b.d,
                a.d > 0,
                b.d > 0,
                b2.d > 0,
        ;
    }
    if q_lt(a, b2) {
        assert(a.n * b.d < b.n * a.d) by (nonlinear_arith)
            requires
                a.n * b2.d < b2.n * a.d,
                b.n * b2.d == b2.n * b.d,
                a.d > 0,
                b.d > 0,
                b2.d > 0,
        ;
    }
}

/// Applying a percentage bonus to `x` (that is, `x + percent_of(x, p)`)
/// names the same rational as `x * (100 * p.d + p.n) / (100 * p.d)`.
proof fn lemma_bonus_step(x: Qr, p: Qr)
    requires
        q_wf(x),
        q_wf(p),
    ensures
        q_wf(q_add(x, percent_of_q(x, p))),
        q_wf(Qr { n: x.n * (100 * p.d + p.n), d: (x.d * 100) * p.d }),
        q_eq(Qr { n: x.n * (100 * p.d + p.n), d: (x.d * 100) * p.d }, q_add(x, percent_of_q(x, p))),
{
    let full = q_add(x, percent_of_q(x, p));
    assert(full.n == x.n * ((x.d * 100) * p.d) + (x.n * p.n) * x.d);
    assert(full.d == x.d * ((x.d * 100) * p.d));
    lemma_pos_mul(x.d * 100, p.d as int);
    lemma_pos_mul(x.d as int, (x.d * 100) * p.d);
    assert((x.n * (100 * p.d + p.n)) * (x.d * ((x.d * 100) * p.d)) == (x.n * ((x.d * 100) * p.d) + (
    x.n * p.n) * x.d) * ((x.d * 100) * p.d)) by (nonlinear_arith);
}

/// Scaling numerator and denominator of equal rationals by the same
/// positive factors keeps them equal.
proof fn lemma_scale_congruence(a: Qr, b: Qr, num_scale: int, den_scale: int)
    requires
        q_wf(a),
        q_wf(b),
        q_eq(a, b),
        den_scale > 0,
    ensures
        q_eq(
            Qr { n: a.n * num_scale, d: a.d * den_scale },
            Qr { n: b.n * num_scale, d: b.d * den_scale },
        ),
        q_wf(Qr { n: a.n * num_scale, d: a.d * den_scale }),
        q_wf(Qr { n: b.n * num_scale, d: b.d * den_scale }),
{
    lemma_pos_mul(a.d as int, den_scale);
    lemma_pos_mul(b.d as int, den_scale);
    assert((a.n * num_scale) * (b.d * den_scale) == (b.n * num_scale) * (a.d * den_scale))
        by (nonlinear_arith)
        requires
            a.n * b.d == b.n * a.d,
    ;
}

/// The reduced numerator and denominator returned by
/// `drop_rate_with_magic_find_and_looting` name the same rational as the
/// percentage-of-percentage composition.
pub proof fn lemma_drop_rate_reduced(c: Qr, mf: int, l: Qr)
    requires
        q_wf(c),
        q_wf(l),
    ensures
        q_wf(Qr { n: (c.n * (100 + mf)) * (100 * l.d + l.n), d: ((c.d * 100) * 100) * l.d }),
        q_wf(drop_rate_q(c, mf, l)),
        q_eq(
            Qr { n: (c.n * (100 + mf)) * (100 * l.d + l.n), d: ((c.d * 100) * 100) * l.d },
            drop_rate_q(c, mf, l),
        ),
{
    let w = q_add(c, percent_of_q(c, q_int(mf)));
    let w_red = Qr { n: c.n * (100 + mf), d: c.d * 100 };
    let dr = drop_rate_q(c, mf, l);
    let target = Qr { n: (c.n * (100 + mf)) * (100 * l.d + l.n), d: ((c.d * 100) * 100) * l.d };
    // Magic Find step, reduced.
    lemma_bonus_step(c, q_int(mf));
    assert(w_red == (Qr { n: c.n * (100 * 1 + mf), d: (c.d * 100) * 1 }));
    assert(q_eq(w_red, w));
    lemma_pos_mul(c.d as int, 100);
    // Looting step, reduced against the unreduced Magic Find result.
    lemma_bonus_step(w, l);
    let dr_mid = Qr { n: w.n * (100 * l.d + l.n), d: (w.d * 100) * l.d };
    assert(q_eq(dr_mid, dr));
    // The reduced Magic Find result may replace the unreduced one.
    lemma_scale_congruence(w_red, w, 100 * l.d + l.n, 100 * l.d);
    assert(w_red.d * (100 * l.d) == target.d) by (nonlinear_arith)
        requires
            target.d == ((c.d * 100) * 100) * l.d,
            w_red.d == c.d * 100,
    ;
    assert(w.d * (100 * l.d) == dr_mid.d) by (nonlinear_arith)
        requires
            dr_mid.d == (w.d * 100) * l.d,
    ;
    assert(target == (Qr { n: w_red.n * (100 * l.d + l.n), d: w_red.d * (100 * l.d) }));
    assert(dr_mid == (Qr { n: w.n * (100 * l.d + l.n), d: w.d * (100 * l.d) }));
    assert(q_eq(target, dr_mid));
    lemma_q_eq_trans(target, dr_mid, dr);
}

/// Scales `drop_chance` by Magic Find and then by the Looting bonus, each
/// as a percentage-of-percentage increase.
pub fn drop_rate_with_magic_find_and_looting(
    drop_chance: &Rat,
    magic_find: i32,
    looting_extra_chance: &Rat,
) -> (r: Rat)
    requires
        chance_arg_ok(*drop_chance),
        loot_arg_ok(*looting_extra_chance),
        0 <= magic_find <= 901,
    ensures
        r.wf(),
        q_eq(r.q(), drop_rate_q(drop_chance.q(), magic_find as int, looting_extra_chance.q())),
        r.num == (drop_chance.num * (100 + magic_find)) * (100 * looting_extra_chance.den
            + looting_extra_chance.num),
        r.den == ((drop_chance.den * 100) * 100) * looting_extra_chance.den,
        0 <= r.num <= 4_000_000_000_000_000_000_000i128,
        0 < r.den <= 10_000_000_000_000_000i128,
{
    let cn: i128 = drop_chance.num;
    let cd: i128 = drop_chance.den;
    let ln: i128 = looting_extra_chance.num;
    let ld: i128 = looting_extra_chance.den;
    proof {
        assert(0 <= cn * (100 + magic_find) <= 40_000_000_000_000_000i128 && 0 <= (cn * (100
            + magic_find)) * (100 * ld + ln) <= 4_000_000_000_000_000_000_000i128)
            by (nonlinear_arith)
            requires
                0 <= cn <= 3_000 * cd,
                0 < cd <= 10_000_000_000i128,
                0 <= magic_find <= 901,
                0 < ld <= 100,
                0 <= ln <= 1_000 * ld,
        ;
        lemma_pos_mul(cd as int, 100);
        lemma_pos_mul(cd * 100, 100);
        lemma_pos_mul((cd * 100) * 100, ld as int);
        assert(((cd * 100) * 100) * ld <= 10_000_000_000_000_000i128) by (nonlinear_arith)
            requires
                0 < cd <= 10_000_000_000i128,
                0 < ld <= 100,
        ;
        lemma_drop_rate_reduced(drop_chance.q(), magic_find as int, looting_extra_chance.q());
    }
    Rat { num: (cn * (100 + magic_find as i128)) * (100 * ld + ln), den: ((cd * 100) * 100) * ld }
}

/// Whether the drawn `magic_number` wins a roll against `drop_chance`
/// scaled by Magic Find and Looting.
pub fn passes(
    magic_number: &Rat,
    drop_chance: &Rat,
    magic_find: i32,
    looting_extra_chance: &Rat,
) -> (r: bool)
    requires
        draw_arg_ok(*magic_number),
        chance_arg_ok(*drop_chance),
        loot_arg_ok(*looting_extra_chance),
        0 <= magic_find <= 901,
    ensures
        r == passes_q(
            magic_number.q(),
            drop_chance.q(),
            magic_find as int,
            looting_extra_chance.q(),
        ),
{
    let dr = drop_rate_with_magic_find_and_looting(drop_chance, magic_find, looting_extra_chance);
    proof {
        assert(0 <= magic_number.num * (dr.den * 100)
            <= 10_000_000_000_000_000_000_000_000_000_000_000i128 && 0 <= dr.num
            * magic_number.den <= 40_000_000_000_000_000_000_000_000_000_000_000_000i128)
            by (nonlinear_arith)
            requires
                0 <= magic_number.num <= magic_number.den,
                0 < magic_number.den <= 9_007_199_254_740_992i128,
                0 <= dr.num <= 4_000_000_000_000_000_000_000i128,
                0 < dr.den <= 10_000_000_000_000_000i128,
        ;
    }
    let res: bool = magic_number.num * (dr.den * 100) < dr.num * magic_number.den;
    proof {
        let d = magic_number.q();
        let drq = drop_rate_q(drop_chance.q(), magic_find as int, looting_extra_chance.q());
        lemma_drop_rate_reduced(drop_chance.q(), magic_find as int, looting_extra_chance.q());
        let u = q_div(dr.q(), q_int(100));
        let v = q_div(drq, q_int(100));
        lemma_pos_mul(dr.den as int, 100);
        lemma_pos_mul(drq.d, 100);
        assert(q_eq(u, v)) by (nonlinear_arith)
            requires
                dr.q().n * drq.d == drq.n * dr.q().d,
                u == (Qr { n: dr.q().n * 1, d: dr.q().d * 100 }),
                v == (Qr { n: drq.n * 1, d: drq.d * 100 }),
                q_eq(u, v) == (u.n * v.d == v.n * u.d),
        ;
        lemma_q_lt_congruence_right(d, u, v);
    }
    res
}

/// The smallest Magic Find at or above `mf` that makes the draw pass, or
/// 901 when none does.
pub open spec fn first_passing_mf(magic_number: Qr, chance: Qr, looting: Qr, mf: int) -> int
    decreases 901 - mf,
{
    if mf >= 901 || mf < 0 {
        901
    } else if passes_q(magic_number, chance, mf, looting) {
        mf
    } else {
        first_passing_mf(magic_number, chance, looting, mf + 1)
    }
}

/// The minimum Magic Find the search reports: 901 when even the maximum
/// Magic Find fails, else the first passing value at or above `start`.
pub open spec fn minimum_mf_q(magic_number: Qr, chance: Qr, looting: Qr, start: int) -> int {
    if !passes_q(magic_number, chance, 900, looting) {
        901
    } else {
        first_passing_mf(magic_number, chance, looting, start)
    }
}

/// When every Magic Find below `r` fails and `r` passes, the scan from
/// `start` finds exactly `r`.
proof fn lemma_first_passing_found(d: Qr, c: Qr, l: Qr, start: int, r: int)
    requires
        0 <= start <= r <= 900,
        passes_q(d, c, r, l),
        forall|m: int| start <= m < r ==> !passes_q(d, c, m, l),
    ensures
        first_passing_mf(d, c, l, start) == r,
    decreases r - start,
{
    if start < r {
        lemma_first_passing_found(d, c, l, start + 1, r);
    }
}

/// Finds the minimum Magic Find needed for the given draw to succeed
/// against `final_drop_chance`, scanning upward from
/// `start_from_magic_find` (or 0); 901 reports that even the maximum Magic
/// Find would not have succeeded.
pub fn get_minimum_magic_find_needed_to_succeed(
    magic_number: &Rat,
    final_drop_chance: &Rat,
    looting_extra_chance: &Rat,
    start_from_magic_find: Option<i32>,
) -> (r: i32)
    requires
        draw_arg_ok(*magic_number),
        chance_arg_ok(*final_drop_chance),
        loot_arg_ok(*looting_extra_chance),
        start_from_magic_find matches Some(s) ==> 0 <= s <= 901,
    ensures
        0 <= r <= 901,
        ({
            let d = magic_number.q();
            let c = final_drop_chance.q();
            let l = looting_extra_chance.q();
            let start = match start_from_magic_find {
                Some(s) => s as int,
                None => 0,
            };
            &&& (!passes_q(d, c, 900, l) ==> r == 901)
            &&& (passes_q(d, c, 900, l) && start <= 900 ==> start <= r <= 900 && passes_q(
                d,
                c,
                r as int,
                l,
            ) && (forall|m: int| start <= m < r ==> !passes_q(d, c, m, l)))
            &&& (passes_q(d, c, 900, l) && start == 901 ==> r == 901)
            &&& r == minimum_mf_q(d, c, l, start)
        }),
{
    // Fast path: the draw cannot succeed even with maximum Magic Find.
    if !passes(magic_number, final_drop_chance, MAXIMUM_MAGIC_FIND, looting_extra_chance) {
        return MAXIMUM_MAGIC_FIND + 1;
    }
    let start: i32 = match start_from_magic_find {
        Some(s) => s,
        None => 0,
    };
    let mut mf: i32 = start;
    while mf < MAXIMUM_MAGIC_FIND + 1
        invariant
            0 <= start <= mf <= 901,
            start == match start_from_magic_find {
                Some(s) => s as int,
                None => 0,
            },
            draw_arg_ok(*magic_number),
            chance_arg_ok(*final_drop_chance),
            loot_arg_ok(*looting_extra_chance),
            passes_q(
                magic_number.q(),
                final_drop_chance.q(),
                900,
                looting_extra_chance.q(),
            ),
            forall|m: int|
                start <= m < mf ==> !passes_q(
                    magic_number.q(),
                    final_drop_chance.q(),
                    m,
                    looting_extra_chance.q(),
                ),
        decreases 901 - mf,
    {
        if passes(magic_number, final_drop_chance, mf, looting_extra_chance) {
            proof {
                lemma_first_passing_found(
                    magic_number.q(),
                    final_drop_chance.q(),
                    looting_extra_chance.q(),
                    start as int,
                    mf as int,
                );
            }
            return mf;
        }
        mf = mf + 1;
    }
    MAXIMUM_MAGIC_FIND + 1
}


/// Whether a roll passes depends only on the value of the chance, not on
/// its representation.
pub proof fn lemma_passes_congruence(d: Qr, c1: Qr, c2: Qr, mf: int, l: Qr)
    requires
        q_wf(d),
        q_wf(c1),
        q_wf(c2),
        q_wf(l),
        q_eq(c1, c2),
    ensures
        passes_q(d, c1, mf, l) == passes_q(d, c2, mf, l),
{
    lemma_drop_rate_reduced(c1, mf, l);
    lemma_drop_rate_reduced(c2, mf, l);
    let r1 = Qr { n: (c1.n * (100 + mf)) * (100 * l.d + l.n), d: ((c1.d * 100) * 100) * l.d };
    let r2 = Qr { n: (c2.n * (100 + mf)) * (100 * l.d + l.n), d: ((c2.d * 100) * 100) * l.d };
    let dr1 = drop_rate_q(c1, mf, l);
    let dr2 = drop_rate_q(c2, mf, l);
    assert(q_eq(r1, r2)) by (nonlinear_arith)
        requires
            c1.n * c2.d == c2.n * c1.d,
            r1 == (Qr { n: (c1.n * (100 + mf)) * (100 * l.d + l.n), d: ((c1.d * 100) * 100) * l.d }),
            r2 == (Qr { n: (c2.n * (100 + mf)) * (100 * l.d + l.n), d: ((c2.d * 100) * 100) * l.d }),
            q_eq(r1, r2) == (r1.n * r2.d == r2.n * r1.d),
    ;
    assert(q_eq(r2, dr2));
    lemma_q_eq_trans(r1, r2, dr2);
    assert(q_eq(dr1, r1));
    lemma_q_eq_trans(dr1, r1, dr2);
    let u1 = q_div(dr1, q_int(100));
    let u2 = q_div(dr2, q_int(100));
    lemma_pos_mul(dr1.d, 100);
    lemma_pos_mul(dr2.d, 100);
    assert(q_eq(u1, u2)) by (nonlinear_arith)
        requires
            dr1.n * dr2.d == dr2.n * dr1.d,
            u1 == (Qr { n: dr1.n * 1, d: dr1.d * 100 }),
            u2 == (Qr { n: dr2.n * 1, d: dr2.d * 100 }),
            q_eq(u1, u2) == (u1.n * u2.d == u2.n * u1.d),
    ;
    lemma_q_lt_congruence_right(d, u1, u2);
}

/// The scan for the first passing Magic Find also depends only on the
/// value of the chance.
proof fn lemma_first_passing_congruence(d: Qr, c1: Qr, c2: Qr, l: Qr, mf: int)
    requires
        q_wf(d),
        q_wf(c1),
        q_wf(c2),
        q_wf(l),
        q_eq(c1, c2),
    ensures
        first_passing_mf(d, c1, l, mf) == first_passing_mf(d, c2, l, mf),
    decreases 901 - mf,
{
    if mf >= 901 || mf < 0 {
    } else {
        lemma_passes_congruence(d, c1, c2, mf, l);
        lemma_first_passing_congruence(d, c1, c2, l, mf + 1);
    }
}

/// The reported minimum Magic Find depends only on the value of the
/// chance.
pub proof fn lemma_minimum_mf_congruence(d: Qr, c1: Qr, c2: Qr, l: Qr, start: int)
    requires
        q_wf(d),
        q_wf(c1),
        q_wf(c2),
        q_wf(l),
        q_eq(c1, c2),
    ensures
        minimum_mf_q(d, c1, l, start) == minimum_mf_q(d, c2, l, start),
{
    lemma_passes_congruence(d, c1, c2, 900, l);
    lemma_first_passing_congruence(d, c1, c2, l, start);
}


/// Law: with no Magic Find and no Looting bonus, the scaled drop rate is
/// the base chance itself.
pub proof fn lemma_drop_rate_identity(chance: Qr)
    requires
        q_wf(chance),
    ensures
        q_eq(drop_rate_q(chance, 0, q_int(0)), chance),
{
    lemma_drop_rate_reduced(chance, 0, q_int(0));
    let red = Qr { n: (chance.n * (100 + 0)) * (100 * 1 + 0), d: ((chance.d * 100) * 100) * 1 };
    assert(q_eq(chance, red)) by (nonlinear_arith)
        requires
            red.n == (chance.n * (100 + 0)) * (100 * 1 + 0),
            red.d == ((chance.d * 100) * 100) * 1,
            q_eq(chance, red) == (chance.n * red.d == red.n * chance.d),
    ;
    lemma_q_eq_trans(chance, red, drop_rate_q(chance, 0, q_int(0)));
}

/// Law: a draw below 1 against a 100% chance needs no Magic Find at all:
/// the search starting from 0 reports 0.
pub proof fn lemma_guaranteed_chance_needs_no_magic_find(d: Qr)
    requires
        q_wf(d),
        0 <= d.n,
        q_lt(d, q_int(1)),
    ensures
        minimum_mf_q(d, q_int(100), q_int(0), 0) == 0,
{
    let c = q_int(100);
    let l = q_int(0);
    assert forall|mf: int| 0 <= mf <= 900 implies passes_q(d, c, mf, l) by {
        lemma_drop_rate_reduced(c, mf, l);
        let red = Qr { n: (100 * (100 + mf)) * (100 * 1 + 0), d: ((1int * 100) * 100) * 1 };
        let dr = drop_rate_q(c, mf, l);
        // The scaled rate is at least 100 percent, so the probability is at
        // least 1 and every draw below 1 passes.
        let u = q_div(dr, q_int(100));
        assert(red.n * dr.d == dr.n * red.d);
        assert(dr.n * 100 >= 100 * (dr.d * 100)) by (nonlinear_arith)
            requires
                red.n * dr.d == dr.n * red.d,
                red.n == (100 * (100 + mf)) * (100 * 1 + 0),
                red.d == ((1 * 100) * 100) * 1,
                dr.d > 0,
                mf >= 0,
        ;
        assert(d.n * (dr.d * 100) < (dr.n * 1) * d.d) by (nonlinear_arith)
            requires
                d.n < d.d,
                0 <= d.n,
                d.d > 0,
                dr.n * 100 >= 100 * (dr.d * 100),
                dr.d > 0,
        ;
        assert(q_lt(d, u));
    }
    assert(passes_q(d, c, 900, l));
    assert(passes_q(d, c, 0, l));
}

} // verus!
