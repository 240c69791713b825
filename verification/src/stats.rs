//! Descriptive statistics over result sequences: mean, median, mode,
//! range, and the helpers the statistics block is built from.
use vstd::prelude::*;

use crate::meter::base_chance_ok;
use crate::meter::rng_meter_percent;
use crate::meter::rng_meter_percent_q;
use crate::rat::Qr;
use crate::rat::Rat;
use crate::rat::get_odds_q;
use crate::rat::q_eq;
use crate::rat::q_int;

verus! {

/// Result-like outcome of a function that can fail without an error.
pub enum FunctionResult {
    Success,
    Failure,
}

/// The sum of a sequence of numbers.
pub open spec fn seq_sum(s: Seq<i32>) -> int
    decreases s.len(),
{
    if s.len() == 0 {
        0
    } else {
        seq_sum(s.drop_last()) + s.last()
    }
}

/// The mean of a non-empty sequence, as an exact rational.
pub open spec fn mean_q(s: Seq<i32>) -> Option<Qr> {
    if s.len() == 0 {
        Option::None
    } else {
        Option::Some(Qr { n: seq_sum(s), d: s.len() as int })
    }
}

/// The largest element of a non-empty sequence.
pub open spec fn seq_max(s: Seq<i32>) -> int
    decreases s.len(),
{
    if s.len() <= 1 {
        s[0] as int
    } else if s.last() as int >= seq_max(s.drop_last()) {
        s.last() as int
    } else {
        seq_max(s.drop_last())
    }
}

/// The smallest element of a non-empty sequence.
pub open spec fn seq_min(s: Seq<i32>) -> int
    decreases s.len(),
{
    if s.len() <= 1 {
        s[0] as int
    } else if s.last() as int <= seq_min(s.drop_last()) {
        s.last() as int
    } else {
        seq_min(s.drop_last())
    }
}

/// Whether a sequence holds no value twice.
pub open spec fn all_unique(s: Seq<i32>) -> bool {
    forall|i: int, j: int| 0 <= i < j < s.len() ==> s[i] != s[j]
}

/// Extending a prefix by one element adds that element to its sum.
proof fn lemma_seq_sum_extend(s: Seq<i32>, i: int)
    requires
        0 <= i < s.len(),
    ensures
        seq_sum(s.subrange(0, i + 1)) == seq_sum(s.subrange(0, i)) + s[i],
{
    let pre = s.subrange(0, i + 1);
    assert(pre.drop_last() =~= s.subrange(0, i));
}

/// The first element when it is the only one; nothing otherwise.
pub fn return_first_elem_if_only_one_elem(array: &Vec<i32>) -> (r: (Option<Rat>, FunctionResult))
    ensures
        array@.len() == 1 ==> (r.0 matches Some(v) && v.q() == q_int(array@[0] as int) && r.1
            is Success),
        array@.len() != 1 ==> r.0 is None && r.1 is Failure,
{
    if array.len() == 1 {
        let first: i32 = array[0];
        (Some(Rat::from_int(first as i64)), FunctionResult::Success)
    } else {
        (None, FunctionResult::Failure)
    }
}

/// The mean of the values, as an exact rational; nothing for an empty
/// sequence (and for sums that exceed 64-bit bookkeeping, which no
/// sequence of fewer than 2^32 values can reach).
pub fn mean(array: &Vec<i32>) -> (r: Option<Rat>)
    ensures
        array@.len() == 0 ==> r is None,
        r matches Some(m) ==> array@.len() > 0 && m.wf() && m.q().n == seq_sum(array@) && m.q().d
            == array@.len() as int,
        array@.len() >= 1 && array@.len() <= 0x1_0000_0000 ==> r is Some,
{
    if array.len() == 0 {
        return None;
    }
    let first_elem = return_first_elem_if_only_one_elem(array);
    if let FunctionResult::Success = first_elem.1 {
        proof {
            assert(array@.subrange(0, 1) =~= array@);
            lemma_seq_sum_extend(array@, 0);
            assert(seq_sum(array@.subrange(0, 0)) == 0) by {
                assert(array@.subrange(0, 0) =~= Seq::<i32>::empty());
            }
        }
        return first_elem.0;
    }
    let mut sum: i64 = 0;
    let mut i: usize = 0;
    let n: usize = array.len();
    while i < n
        invariant
            n == array@.len(),
            0 <= i <= n,
            sum == seq_sum(array@.subrange(0, i as int)),
            -0x8000_0000 * (i as int) <= sum as int <= 0x7fff_ffff * (i as int),
        decreases n - i,
    {
        let v: i32 = array[i];
        proof {
            lemma_seq_sum_extend(array@, i as int);
        }
        if let Some(result) = sum.checked_add(v as i64) {
            sum = result;
        } else {
            // Only reachable when the sequence holds at least 2^32 values.
            proof {
                assert(array@.len() > 0x1_0000_0000);
            }
            return None;
        }
        i = i + 1;
    }
    proof {
        assert(array@.subrange(0, n as int) =~= array@);
    }
    Some(Rat { num: sum as i128, den: n as i128 })
}

/// Appending one element to a prefix updates its maximum and minimum in
/// the obvious way.
proof fn lemma_seq_minmax_extend(s: Seq<i32>, i: int)
    requires
        0 <= i < s.len(),
    ensures
        i == 0 ==> seq_max(s.subrange(0, 1)) == s[0] as int && seq_min(s.subrange(0, 1)) == s[0]
            as int,
        i > 0 ==> seq_max(s.subrange(0, i + 1)) == if s[i] as int >= seq_max(s.subrange(0, i)) {
            s[i] as int
        } else {
            seq_max(s.subrange(0, i))
        },
        i > 0 ==> seq_min(s.subrange(0, i + 1)) == if s[i] as int <= seq_min(s.subrange(0, i)) {
            s[i] as int
        } else {
            seq_min(s.subrange(0, i))
        },
{
    let pre = s.subrange(0, i + 1);
    assert(pre.drop_last() =~= s.subrange(0, i));
    if i == 0 {
        assert(pre.len() == 1 && pre[0] == s[0]);
    }
}

/// The difference between the largest and the smallest value; nothing for
/// an empty sequence.
pub fn range(array: &[i32]) -> (r: Option<i32>)
    requires
        array@.len() > 0 ==> seq_max(array@) - seq_min(array@) <= i32::MAX,
    ensures
        array@.len() == 0 <==> r is None,
        r matches Some(d) ==> d == seq_max(array@) - seq_min(array@),
{
    let n: usize = array.len();
    if n == 0 {
        return None;
    }
    let mut max: i32 = array[0];
    let mut min: i32 = array[0];
    let mut i: usize = 1;
    proof {
        lemma_seq_minmax_extend(array@, 0);
    }
    while i < n
        invariant
            n == array@.len(),
            1 <= i <= n,
            max == seq_max(array@.subrange(0, i as int)),
            min == seq_min(array@.subrange(0, i as int)),
        decreases n - i,
    {
        let v: i32 = array[i];
        proof {
            lemma_seq_minmax_extend(array@, i as int);
        }
        if v > max {
            max = v;
        }
        if v < min {
            min = v;
        }
        i = i + 1;
    }
    proof {
        assert(array@.subrange(0, n as int) =~= array@);
    }
    Some(max - min)
}

/// Whether no value occurs twice.
pub fn has_unique_elements(vec: &[i32]) -> (r: bool)
    ensures
        r == all_unique(vec@),
{
    let n: usize = vec.len();
    let mut i: usize = 0;
    while i < n
        invariant
            n == vec@.len(),
            0 <= i <= n,
            forall|a: int, b: int| 0 <= a < b < vec@.len() && a < i ==> vec@[a] != vec@[b],
        decreases n - i,
    {
        let mut j: usize = i + 1;
        while j < n
            invariant
                n == vec@.len(),
                0 <= i < j <= n,
                forall|a: int, b: int| 0 <= a < b < vec@.len() && a < i ==> vec@[a] != vec@[b],
                forall|b: int| i < b < j ==> vec@[i as int] != vec@[b],
            decreases n - j,
        {
            if vec[i] == vec[j] {
                return false;
            }
            j = j + 1;
        }
        i = i + 1;
    }
    true
}


/// How many times `v` occurs in `s`.
pub open spec fn count_in(s: Seq<i32>, v: i32) -> nat
    decreases s.len(),
{
    if s.len() == 0 {
        0
    } else {
        count_in(s.drop_last(), v) + if s.last() == v {
            1nat
        } else {
            0nat
        }
    }
}

/// Extending a prefix by one element counts that element once more.
proof fn lemma_count_extend(s: Seq<i32>, i: int, v: i32)
    requires
        0 <= i < s.len(),
    ensures
        count_in(s.subrange(0, i + 1), v) == count_in(s.subrange(0, i), v) + if s[i] == v {
            1nat
        } else {
            0nat
        },
{
    let pre = s.subrange(0, i + 1);
    assert(pre.drop_last() =~= s.subrange(0, i));
}

/// A value that does not occur in a sequence has count zero.
proof fn lemma_count_not_contains(s: Seq<i32>, v: i32)
    requires
        !s.contains(v),
    ensures
        count_in(s, v) == 0,
    decreases s.len(),
{
    if s.len() > 0 {
        assert(!s.drop_last().contains(v)) by {
            assert(forall|i: int|
                0 <= i < s.drop_last().len() ==> s.drop_last()[i] == s[i]);
        }
        lemma_count_not_contains(s.drop_last(), v);
    }
}

/// How many times `x` occurs in the vector.
fn count_occurrences(array: &Vec<i32>, x: i32) -> (c: usize)
    ensures
        c == count_in(array@, x),
{
    let n: usize = array.len();
    let mut c: usize = 0;
    let mut i: usize = 0;
    while i < n
        invariant
            n == array@.len(),
            0 <= i <= n,
            c <= i,
            c == count_in(array@.subrange(0, i as int), x),
        decreases n - i,
    {
        proof {
            lemma_count_extend(array@, i as int, x);
        }
        if array[i] == x {
            c = c + 1;
        }
        i = i + 1;
    }
    proof {
        assert(array@.subrange(0, n as int) =~= array@);
    }
    c
}

/// A most frequent value; nothing for an empty sequence. Between equally
/// frequent values the earliest-seen one is reported.
pub fn mode(array: &Vec<i32>) -> (r: Option<i32>)
    ensures
        (array@.len() == 0) <==> (r is None),
        r matches Some(m) ==> array@.contains(m) && (forall|v: i32|
            count_in(array@, v) <= count_in(array@, m)),
{
    let n: usize = array.len();
    if n == 0 {
        return None;
    }
    let mut best: i32 = array[0];
    let mut best_count: usize = count_occurrences(array, best);
    proof {
        assert(array@.contains(best)) by {
            assert(array@[0] == best);
        }
    }
    let mut i: usize = 1;
    while i < n
        invariant
            n == array@.len(),
            1 <= i <= n,
            array@.contains(best),
            best_count == count_in(array@, best),
            forall|j: int| 0 <= j < i ==> count_in(array@, array@[j]) <= best_count,
        decreases n - i,
    {
        let candidate: i32 = array[i];
        let c: usize = count_occurrences(array, candidate);
        if c > best_count {
            best = candidate;
            best_count = c;
            proof {
                assert(array@.contains(best)) by {
                    assert(array@[i as int] == best);
                }
            }
        }
        i = i + 1;
    }
    proof {
        assert forall|v: i32| count_in(array@, v) <= count_in(array@, best) by {
            if array@.contains(v) {
                let j = choose|j: int| 0 <= j < array@.len() && array@[j] == v;
                assert(count_in(array@, array@[j]) <= best_count);
            } else {
                lemma_count_not_contains(array@, v);
            }
        }
    }
    Some(best)
}

/// The ordering the median sorts by.
pub open spec fn i32_leq() -> spec_fn(i32, i32) -> bool {
    |a: i32, b: i32| a <= b
}

/// A sequence in ascending order.
pub open spec fn i32_sorted(s: Seq<i32>) -> bool {
    forall|i: int, j: int| 0 <= i <= j < s.len() ==> s[i] <= s[j]
}

/// The ascending permutation of a sequence.
pub open spec fn sorted_version(s: Seq<i32>) -> Seq<i32> {
    s.sort_by(i32_leq())
}

/// The median of a sequence: the middle of its ascending permutation, the
/// mean of the two middles for even lengths; nothing for an empty
/// sequence.
pub open spec fn median_q(s: Seq<i32>) -> Option<Qr> {
    if s.len() == 0 {
        Option::None
    } else if s.len() == 1 {
        Option::Some(q_int(s[0] as int))
    } else {
        let t = sorted_version(s);
        let half = s.len() as int / 2;
        if s.len() % 2 == 0 {
            Option::Some(Qr { n: t[half - 1] + t[half], d: 2 })
        } else {
            Option::Some(q_int(t[half] as int))
        }
    }
}

/// The ordering the median sorts by orders every pair of values.
proof fn lemma_i32_leq_total()
    ensures
        vstd::relations::total_ordering(i32_leq()),
{
    let leq = i32_leq();
    assert(vstd::relations::reflexive(leq)) by {
        assert(forall|a: i32| #[trigger] leq(a, a));
    }
    assert(vstd::relations::antisymmetric(leq)) by {
        assert(forall|a: i32, b: i32| #[trigger] leq(a, b) && #[trigger] leq(b, a) ==> a == b);
    }
    assert(vstd::relations::transitive(leq)) by {
        assert(forall|a: i32, b: i32, c: i32|
            #[trigger] leq(a, b) && #[trigger] leq(b, c) ==> leq(a, c));
    }
    assert(vstd::relations::strongly_connected(leq)) by {
        assert(forall|a: i32, b: i32| #[trigger] leq(a, b) || #[trigger] leq(b, a));
    }
}

/// Inserting an element anywhere adds it to the multiset of the sequence.
proof fn lemma_insert_multiset(s: Seq<i32>, idx: int, x: i32)
    requires
        0 <= idx <= s.len(),
    ensures
        s.insert(idx, x).to_multiset() == s.to_multiset().insert(x),
{
    broadcast use vstd::seq_lib::group_to_multiset_ensures;

    let t = s.insert(idx, x);
    s.insert_ensures(idx, x);
    assert(t.remove(idx) =~= s) by {
        t.remove_ensures(idx);
        s.insert_ensures(idx, x);
    }
    assert(t.to_multiset().remove(t[idx]) =~= s.to_multiset());
    assert(t.contains(x)) by {
        assert(t[idx] == x);
    }
    assert(t.to_multiset().count(x) > 0);
    assert(t.to_multiset() =~= s.to_multiset().insert(x)) by {
        assert(forall|y: i32|
            y != x ==> #[trigger] t.to_multiset().count(y) == t.to_multiset().remove(x).count(y));
        assert(t.to_multiset().count(x) == t.to_multiset().remove(x).count(x) + 1);
    }
}

/// Sorts the vector ascending by repeated insertion.
fn sort_i32_vec(v: &mut Vec<i32>)
    ensures
        i32_sorted(final(v)@),
        final(v)@.to_multiset() == old(v)@.to_multiset(),
        final(v)@.len() == old(v)@.len(),
{
    broadcast use vstd::seq_lib::group_to_multiset_ensures;

    let n: usize = v.len();
    let mut out: Vec<i32> = Vec::new();
    let mut i: usize = 0;
    while i < n
        invariant
            n == v@.len(),
            0 <= i <= n,
            i32_sorted(out@),
            out@.len() == i,
            out@.to_multiset() == v@.subrange(0, i as int).to_multiset(),
        decreases n - i,
    {
        let x: i32 = v[i];
        let mut idx: usize = 0;
        while idx < out.len() && out[idx] <= x
            invariant
                idx <= out@.len(),
                forall|k: int| 0 <= k < idx ==> out@[k] <= x,
                i32_sorted(out@),
            decreases out@.len() - idx,
        {
            idx = idx + 1;
        }
        proof {
            out@.insert_ensures(idx as int, x);
        }
        let ghost old_out = out@;
        out.insert(idx, x);
        proof {
            assert(i32_sorted(out@)) by {
                assert(forall|a: int, b: int|
                    0 <= a <= b < out@.len() ==> out@[a] <= out@[b]) by {
                    assert forall|a: int, b: int|
                        0 <= a <= b < out@.len() implies out@[a] <= out@[b] by {
                        if b < idx {
                        } else if a > idx {
                            assert(out@[a] == old_out[a - 1] && out@[b] == old_out[b - 1]);
                        } else if a == idx && b == idx {
                        } else if a < idx && b == idx {
                            assert(out@[a] == old_out[a] && out@[b] == x);
                        } else if a == idx && b > idx {
                            // Everything from the insertion point on was
                            // larger than x.
                            assert(out@[b] == old_out[b - 1]);
                            assert(old_out[b - 1] >= old_out[idx as int]);
                            assert(!(old_out[idx as int] <= x));
                        } else {
                            assert(a < idx && b > idx);
                            assert(out@[a] == old_out[a] && out@[b] == old_out[b - 1]);
                            if b - 1 == idx {
                                assert(!(old_out[idx as int] <= x));
                            }
                        }
                    }
                }
            }
            lemma_insert_multiset(old_out, idx as int, x);
            assert(v@.subrange(0, (i + 1) as int).to_multiset() == v@.subrange(
                0,
                i as int,
            ).to_multiset().insert(x)) by {
                assert(v@.subrange(0, (i + 1) as int) =~= v@.subrange(0, i as int).push(x));
                v@.subrange(0, i as int).to_multiset_ensures();
                assert(v@.subrange(0, i as int).push(x).to_multiset() =~= v@.subrange(
                    0,
                    i as int,
                ).to_multiset().insert(x));
            }
        }
        i = i + 1;
    }
    proof {
        assert(v@.subrange(0, n as int) =~= v@);
    }
    *v = out;
}

/// The median of the values: nothing for an empty sequence, the single
/// value for one, and the middle of the ascending order otherwise. The
/// vector is left in ascending order whenever sorting was needed.
pub fn median(array: &mut Vec<i32>) -> (r: Option<Rat>)
    ensures
        old(array)@.len() <= 1 ==> final(array)@ == old(array)@,
        old(array)@.len() >= 2 ==> final(array)@ == sorted_version(old(array)@),
        (r is Some) <==> old(array)@.len() > 0,
        r matches Some(m) ==> m.wf() && (median_q(old(array)@) matches Some(q) && m.q() == q),
{
    if array.len() == 0 {
        return None;
    }
    let first_elem = return_first_elem_if_only_one_elem(array);
    if let FunctionResult::Success = first_elem.1 {
        return first_elem.0;
    }
    sort_i32_vec(array);
    proof {
        lemma_i32_leq_total();
        old(array)@.lemma_sort_by_ensures(i32_leq());
        assert(vstd::relations::sorted_by(array@, i32_leq())) by {
            assert(forall|i: int, j: int|
                0 <= i < j < array@.len() ==> #[trigger] i32_leq()(array@[i], array@[j]));
        }
        vstd::seq_lib::lemma_sorted_unique(array@, sorted_version(old(array)@), i32_leq());
        assert(array@ == sorted_version(old(array)@));
    }
    let n: usize = array.len();
    if n % 2 == 0 {
        let left: i32 = array[n / 2 - 1];
        let right: i32 = array[n / 2];
        Some(Rat { num: left as i128 + right as i128, den: 2 })
    } else {
        let mid: i32 = array[n / 2];
        Some(Rat::from_int(mid as i64))
    }
}


/// The sum of a sequence of 32-bit values grows at most linearly.
proof fn lemma_seq_sum_bounds(s: Seq<i32>)
    ensures
        -0x8000_0000 * s.len() <= seq_sum(s) <= 0x7fff_ffff * s.len(),
    decreases s.len(),
{
    if s.len() > 0 {
        lemma_seq_sum_bounds(s.drop_last());
    }
}

/// The largest value; nothing for an empty sequence.
fn max_of(array: &[i32]) -> (r: Option<i32>)
    ensures
        (array@.len() == 0) <==> (r is None),
        r matches Some(m) ==> m == seq_max(array@),
{
    let n: usize = array.len();
    if n == 0 {
        return None;
    }
    let mut max: i32 = array[0];
    let mut i: usize = 1;
    proof {
        lemma_seq_minmax_extend(array@, 0);
    }
    while i < n
        invariant
            n == array@.len(),
            1 <= i <= n,
            max == seq_max(array@.subrange(0, i as int)),
        decreases n - i,
    {
        let v: i32 = array[i];
        proof {
            lemma_seq_minmax_extend(array@, i as int);
        }
        if v > max {
            max = v;
        }
        i = i + 1;
    }
    proof {
        assert(array@.subrange(0, n as int) =~= array@);
    }
    Some(max)
}

/// Everything the statistics block reports about one simulation run.
///
/// A `None` field is one the report leaves out: the mode is only reported
/// when some value repeats, the range only when there are at least two
/// values, and nothing is reported over an empty sequence.
pub struct SuccessStatistics {
    pub mean_succeed_magic_find: Option<Rat>,
    pub median_succeed_magic_find: Option<Rat>,
    pub mode_succeed_magic_find: Option<i32>,
    pub range_succeed_magic_find: Option<i32>,
    /// Whether the meter percentages below are hypothetical because the
    /// drop has no RNG meter.
    pub meter_is_hypothetical: bool,
    pub mean_succeed_rolls: Option<Rat>,
    pub mean_succeed_meter: Option<Rat>,
    pub median_succeed_rolls: Option<Rat>,
    pub median_succeed_meter: Option<Rat>,
    pub mode_succeed_rolls: Option<i32>,
    pub mode_succeed_meter: Option<Rat>,
    pub range_succeed_rolls: Option<i32>,
    pub range_succeed_meter: Option<Rat>,
    pub max_succeed_rolls: Option<i32>,
    pub max_succeed_meter: Option<Rat>,
}

/// The meter percentage a rolls-until-success value corresponds to, for
/// the odds of the original drop chance.
pub open spec fn stat_meter_q(base: Qr, value: Qr) -> Qr {
    rng_meter_percent_q(get_odds_q(base), value)
}

/// Computes the whole statistics block of a run: mean, median, mode and
/// range of the minimum-Magic-Find values, and the same statistics of the
/// rolls-until-success counts, each re-expressed as an RNG-meter
/// percentage against the original drop chance. Both vectors are left
/// sorted ascending when they held at least two values.
pub fn compute_statistics(
    original_drop_chance: &Rat,
    all_succeeded_magic_find_values: &mut Vec<i32>,
    meter_succeeded_rolls: &mut Vec<i32>,
    has_meter: bool,
) -> (r: SuccessStatistics)
    requires
        base_chance_ok(*original_drop_chance),
        old(all_succeeded_magic_find_values)@.len() <= 2_000_000_000,
        old(meter_succeeded_rolls)@.len() <= 2_000_000_000,
        old(all_succeeded_magic_find_values)@.len() > 0 ==> seq_max(
            old(all_succeeded_magic_find_values)@,
        ) - seq_min(old(all_succeeded_magic_find_values)@) <= i32::MAX,
        old(meter_succeeded_rolls)@.len() > 0 ==> seq_max(old(meter_succeeded_rolls)@) - seq_min(
            old(meter_succeeded_rolls)@,
        ) <= i32::MAX,
    ensures
        ({
            let s1 = old(all_succeeded_magic_find_values)@;
            let s2 = old(meter_succeeded_rolls)@;
            let b = original_drop_chance.q();
            &&& (r.mean_succeed_magic_find is Some <==> s1.len() > 0)
            &&& (r.mean_succeed_magic_find matches Some(m) ==> m.wf() && m.q().n == seq_sum(s1)
                && m.q().d == s1.len() as int)
            &&& (r.median_succeed_magic_find is Some <==> s1.len() > 0)
            &&& (r.median_succeed_magic_find matches Some(m) ==> m.wf() && (median_q(s1)
                matches Some(q) && m.q() == q))
            &&& (r.mode_succeed_magic_find is Some <==> s1.len() > 0 && !all_unique(s1))
            &&& (r.mode_succeed_magic_find matches Some(m) ==> s1.contains(m) && (forall|v: i32|
                count_in(s1, v) <= count_in(s1, m)))
            &&& (r.range_succeed_magic_find is Some <==> s1.len() > 1)
            &&& (r.range_succeed_magic_find matches Some(d) ==> d == seq_max(s1) - seq_min(s1))
            &&& r.meter_is_hypothetical == !has_meter
            &&& (r.mean_succeed_rolls is Some <==> s2.len() > 0)
            &&& (r.mean_succeed_rolls matches Some(m) ==> m.wf() && m.q().n == seq_sum(s2)
                && m.q().d == s2.len() as int)
            &&& (r.mean_succeed_meter is Some <==> s2.len() > 0)
            &&& (r.mean_succeed_meter matches Some(m) ==> m.wf() && q_eq(
                m.q(),
                stat_meter_q(b, Qr { n: seq_sum(s2), d: s2.len() as int }),
            ))
            &&& (r.median_succeed_rolls is Some <==> s2.len() > 0)
            &&& (r.median_succeed_rolls matches Some(m) ==> m.wf() && (median_q(s2)
                matches Some(q) && m.q() == q))
            &&& (r.median_succeed_meter is Some <==> s2.len() > 0)
            &&& (r.median_succeed_meter matches Some(m) ==> m.wf() && (median_q(s2)
                matches Some(q) && q_eq(m.q(), stat_meter_q(b, q))))
            &&& (r.mode_succeed_rolls is Some <==> s2.len() > 0 && !all_unique(s2))
            &&& (r.mode_succeed_rolls matches Some(m) ==> s2.contains(m) && (forall|v: i32|
                count_in(s2, v) <= count_in(s2, m)))
            &&& (r.mode_succeed_meter is Some <==> s2.len() > 0 && !all_unique(s2))
            &&& (r.mode_succeed_meter matches Some(m) ==> m.wf() && (r.mode_succeed_rolls
                matches Some(v) && q_eq(m.q(), stat_meter_q(b, q_int(v as int)))))
            &&& (r.range_succeed_rolls is Some <==> s2.len() > 1)
            &&& (r.range_succeed_rolls matches Some(d) ==> d == seq_max(s2) - seq_min(s2))
            &&& (r.range_succeed_meter is Some <==> s2.len() > 1)
            &&& (r.range_succeed_meter matches Some(m) ==> m.wf() && (r.range_succeed_rolls
                matches Some(v) && q_eq(m.q(), stat_meter_q(b, q_int(v as int)))))
            &&& (r.max_succeed_rolls is Some <==> s2.len() > 0)
            &&& (r.max_succeed_rolls matches Some(m) ==> m == seq_max(s2))
            &&& (r.max_succeed_meter is Some <==> s2.len() > 0)
            &&& (r.max_succeed_meter matches Some(m) ==> m.wf() && (r.max_succeed_rolls
                matches Some(v) && q_eq(m.q(), stat_meter_q(b, q_int(v as int)))))
        }),
{
    // The order-insensitive statistics come first; taking the median then
    // leaves each vector sorted.
    let s1_unique: bool = has_unique_elements(all_succeeded_magic_find_values.as_slice());
    let s1_mode: Option<i32> = if !s1_unique {
        mode(all_succeeded_magic_find_values)
    } else {
        None
    };
    let s1_range: Option<i32> = if all_succeeded_magic_find_values.len() > 1 {
        range(all_succeeded_magic_find_values.as_slice())
    } else {
        None
    };
    let s1_mean: Option<Rat> = mean(all_succeeded_magic_find_values);
    let s1_median: Option<Rat> = median(all_succeeded_magic_find_values);

    let s2_unique: bool = has_unique_elements(meter_succeeded_rolls.as_slice());
    let s2_mode: Option<i32> = if !s2_unique {
        mode(meter_succeeded_rolls)
    } else {
        None
    };
    let s2_range: Option<i32> = if meter_succeeded_rolls.len() > 1 {
        range(meter_succeeded_rolls.as_slice())
    } else {
        None
    };
    let s2_max: Option<i32> = max_of(meter_succeeded_rolls.as_slice());
    let s2_mean: Option<Rat> = mean(meter_succeeded_rolls);
    proof {
        lemma_seq_sum_bounds(meter_succeeded_rolls@);
    }
    let s2_median: Option<Rat> = median(meter_succeeded_rolls);

    let mean_meter: Option<Rat> = match &s2_mean {
        Some(m) => Some(rng_meter_percent(original_drop_chance, m)),
        None => None,
    };
    let median_meter: Option<Rat> = match &s2_median {
        Some(m) => Some(rng_meter_percent(original_drop_chance, m)),
        None => None,
    };
    let mode_meter: Option<Rat> = match &s2_mode {
        Some(v) => Some(rng_meter_percent(original_drop_chance, &Rat::from_int(*v as i64))),
        None => None,
    };
    let range_meter: Option<Rat> = match &s2_range {
        Some(v) => Some(rng_meter_percent(original_drop_chance, &Rat::from_int(*v as i64))),
        None => None,
    };
    let max_meter: Option<Rat> = match &s2_max {
        Some(v) => Some(rng_meter_percent(original_drop_chance, &Rat::from_int(*v as i64))),
        None => None,
    };
    SuccessStatistics {
        mean_succeed_magic_find: s1_mean,
        median_succeed_magic_find: s1_median,
        mode_succeed_magic_find: s1_mode,
        range_succeed_magic_find: s1_range,
        meter_is_hypothetical: !has_meter,
        mean_succeed_rolls: s2_mean,
        mean_succeed_meter: mean_meter,
        median_succeed_rolls: s2_median,
        median_succeed_meter: median_meter,
        mode_succeed_rolls: s2_mode,
        mode_succeed_meter: mode_meter,
        range_succeed_rolls: s2_range,
        range_succeed_meter: range_meter,
        max_succeed_rolls: s2_max,
        max_succeed_meter: max_meter,
    }
}

} // verus!
