//! Exact rational numbers over 128-bit integers, together with the
//! mathematical model used by every contract of this crate.
//!
//! All percentages, chances and statistics in this library are exact
//! rationals: `Rat` holds a numerator and a positive denominator, and every
//! executable operation is specified against unbounded mathematical
//! rationals (`Qr`), so no rounding ever happens.
use vstd::prelude::*;

verus! {

/// Mathematical (unbounded) rational `n / d`, used only in specifications.
pub ghost struct Qr {
    pub n: int,
    pub d: int,
}

/// A rational is well formed when its denominator is positive.
pub open spec fn q_wf(a: Qr) -> bool {
    a.d > 0
}

/// The rational made from an integer.
pub open spec fn q_int(i: int) -> Qr {
    Qr { n: i, d: 1 }
}

/// Equality of rationals by cross multiplication.
pub open spec fn q_eq(a: Qr, b: Qr) -> bool {
    a.n * b.d == b.n * a.d
}

/// Strict order of rationals by cross multiplication (for positive denominators).
pub open spec fn q_lt(a: Qr, b: Qr) -> bool {
    a.n * b.d < b.n * a.d
}

/// Non-strict order of rationals by cross multiplication (for positive denominators).
pub open spec fn q_le(a: Qr, b: Qr) -> bool {
    a.n * b.d <= b.n * a.d
}

pub open spec fn q_add(a: Qr, b: Qr) -> Qr {
    Qr { n: a.n * b.d + b.n * a.d, d: a.d * b.d }
}

pub open spec fn q_sub(a: Qr, b: Qr) -> Qr {
    Qr { n: a.n * b.d - b.n * a.d, d: a.d * b.d }
}

pub open spec fn q_mul(a: Qr, b: Qr) -> Qr {
    Qr { n: a.n * b.n, d: a.d * b.d }
}

/// Division `a / b`; well formed only when `b.n > 0`.
pub open spec fn q_div(a: Qr, b: Qr) -> Qr {
    Qr { n: a.n * b.d, d: a.d * b.n }
}

pub open spec fn q_abs(a: Qr) -> Qr {
    Qr { n: if a.n < 0 { -a.n } else { a.n }, d: a.d }
}

/// `number / 100 * percent`, the percentage-of operation.
pub open spec fn percent_of_q(number: Qr, percent: Qr) -> Qr {
    q_mul(q_div(number, q_int(100)), percent)
}

/// `100 / chance`: the "1 in N" framing of a percentage chance.
pub open spec fn get_odds_q(chance: Qr) -> Qr {
    q_div(q_int(100), chance)
}

/// The larger of `value` and `minimum`.
pub open spec fn value_or_minimum_q(value: Qr, minimum: Qr) -> Qr {
    if q_lt(value, minimum) {
        minimum
    } else {
        value
    }
}

/// `number`, saturated from above at `cap`.
pub open spec fn cap_q(number: Qr, cap: Qr) -> Qr {
    if q_lt(cap, number) {
        cap
    } else {
        number
    }
}

/// Relative change from `starting` to `ending`, in percent, with the
/// denominator floored at 1 to avoid blow-up near a zero baseline.
pub open spec fn percentage_change_q(starting: Qr, ending: Qr) -> Qr {
    q_mul(
        q_div(q_sub(ending, starting), value_or_minimum_q(q_abs(starting), q_int(1))),
        q_int(100),
    )
}

/// Whether an unbounded integer fits in `i128`.
pub open spec fn fits(x: int) -> bool {
    i128::MIN <= x <= i128::MAX
}

/// The product of two positive integers is positive.
pub proof fn lemma_pos_mul(a: int, b: int)
    by (nonlinear_arith)
    requires
        a > 0,
        b > 0,
    ensures
        a * b > 0,
{
}

/// An exact rational number `num / den` with `den > 0`.
#[derive(Clone, Copy, Debug)]
pub struct Rat {
    pub num: i128,
    pub den: i128,
}

impl Rat {
    /// The mathematical value of this rational.
    pub open spec fn q(self) -> Qr {
        Qr { n: self.num as int, d: self.den as int }
    }

    /// Well-formedness: the denominator is positive.
    pub open spec fn wf(self) -> bool {
        self.den > 0
    }

    /// Builds the rational `num / den`.
    pub fn new(num: i128, den: i128) -> (r: Rat)
        requires
            den > 0,
        ensures
            r.num == num,
            r.den == den,
            r.wf(),
    {
        Rat { num, den }
    }

    /// Builds the rational with value `v`.
    pub fn from_int(v: i64) -> (r: Rat)
        ensures
            r.q() == q_int(v as int),
            r.wf(),
    {
        Rat { num: v as i128, den: 1 }
    }

    /// Exact equality test of two rational values.
    pub fn eq_rat(&self, other: &Rat) -> (r: bool)
        requires
            self.wf(),
            other.wf(),
            fits(self.num * other.den),
            fits(other.num * self.den),
        ensures
            r == q_eq(self.q(), other.q()),
    {
        self.num * other.den == other.num * self.den
    }

    /// Exact strict comparison of two rational values.
    pub fn lt(&self, other: &Rat) -> (r: bool)
        requires
            self.wf(),
            other.wf(),
            fits(self.num * other.den),
            fits(other.num * self.den),
        ensures
            r == q_lt(self.q(), other.q()),
    {
        self.num * other.den < other.num * self.den
    }

    /// Exact non-strict comparison of two rational values.
    pub fn le(&self, other: &Rat) -> (r: bool)
        requires
            self.wf(),
            other.wf(),
            fits(self.num * other.den),
            fits(other.num * self.den),
        ensures
            r == q_le(self.q(), other.q()),
    {
        self.num * other.den <= other.num * self.den
    }
}

/// `100 / percentage_chance`, the odds of a percentage chance.
pub fn get_odds(percentage_chance: &Rat) -> (r: Rat)
    requires
        percentage_chance.wf(),
        percentage_chance.num > 0,
        fits(100 * percentage_chance.den),
    ensures
        r.q() == get_odds_q(percentage_chance.q()),
        r.wf(),
        r.num == 100 * percentage_chance.den,
        r.den == percentage_chance.num,
{
    Rat { num: 100 * percentage_chance.den, den: percentage_chance.num }
}

/// `number / 100 * percent`.
pub fn percent_of(number: &Rat, percent: &Rat) -> (r: Rat)
    requires
        number.wf(),
        percent.wf(),
        fits(number.num * percent.num),
        fits(number.den * 100),
        fits(number.den * 100 * percent.den),
    ensures
        r.q() == percent_of_q(number.q(), percent.q()),
        r.wf(),
        r.num == number.num * percent.num,
        r.den == number.den * 100 * percent.den,
{
    proof {
        lemma_pos_mul(number.den as int, 100);
        lemma_pos_mul(number.den * 100, percent.den as int);
    }
    Rat { num: number.num * percent.num, den: number.den * 100 * percent.den }
}

/// The larger of `value` and `minimum`.
pub fn value_or_minimum(value: &Rat, minimum: &Rat) -> (r: Rat)
    requires
        value.wf(),
        minimum.wf(),
        fits(value.num * minimum.den),
        fits(minimum.num * value.den),
    ensures
        r.q() == value_or_minimum_q(value.q(), minimum.q()),
        r.wf(),
        r == if q_lt(value.q(), minimum.q()) { *minimum } else { *value },
{
    if value.lt(minimum) {
        *minimum
    } else {
        *value
    }
}

/// `number`, saturated from above at `cap`.
pub fn cap(number: &Rat, limit: &Rat) -> (r: Rat)
    requires
        number.wf(),
        limit.wf(),
        fits(number.num * limit.den),
        fits(limit.num * number.den),
    ensures
        r.q() == cap_q(number.q(), limit.q()),
        r.wf(),
        r == if q_lt(limit.q(), number.q()) { *limit } else { *number },
{
    if limit.lt(number) {
        *limit
    } else {
        *number
    }
}

/// Relative change from `starting_number` to `ending_number`, in percent,
/// with the denominator floored at 1.
pub fn percentage_change(starting_number: &Rat, ending_number: &Rat) -> (r: Rat)
    requires
        starting_number.wf(),
        ending_number.wf(),
        starting_number.num > i128::MIN,
        fits(ending_number.num * starting_number.den),
        fits(starting_number.num * ending_number.den),
        fits(ending_number.num * starting_number.den - starting_number.num * ending_number.den),
        fits(
            (ending_number.num * starting_number.den - starting_number.num * ending_number.den)
                * starting_number.den * 100,
        ),
        fits(ending_number.den * starting_number.den * q_abs(starting_number.q()).n),
        fits(
            (ending_number.num * starting_number.den - starting_number.num * ending_number.den)
                * 100,
        ),
        fits(ending_number.den * starting_number.den),
    ensures
        r.q() == percentage_change_q(starting_number.q(), ending_number.q()),
        r.wf(),
{
    let abs_start: i128 = if starting_number.num < 0 {
        -starting_number.num
    } else {
        starting_number.num
    };
    let diff_num: i128 = ending_number.num * starting_number.den
        - starting_number.num * ending_number.den;
    let diff_den: i128 = ending_number.den * starting_number.den;
    proof {
        lemma_pos_mul(ending_number.den as int, starting_number.den as int);
    }
    if abs_start < starting_number.den {
        // |starting| < 1: the denominator is floored at 1.
        Rat { num: diff_num * 100, den: diff_den }
    } else {
        proof {
            lemma_pos_mul(diff_den as int, abs_start as int);
        }
        Rat { num: diff_num * starting_number.den * 100, den: diff_den * abs_start }
    }
}


/// Truncation of a rational toward zero, the way a float-to-integer
/// conversion truncates.
pub open spec fn q_trunc(a: Qr) -> int
    recommends
        q_wf(a),
{
    if a.n >= 0 {
        a.n / a.d
    } else {
        -((-a.n) / a.d)
    }
}

/// Bounds on a non-negative integer division, from bounds on the numerator.
pub proof fn lemma_div_range(s: int, d: int, lo: int, hi: int)
    by (nonlinear_arith)
    requires
        d > 0,
        0 <= s,
        lo * d <= s,
        s <= hi * d,
    ensures
        lo <= s / d <= hi,
{
}

} // verus!
