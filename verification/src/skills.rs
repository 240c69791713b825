//! Skill-average math: how many skill levels are still needed to reach a
//! target average.
use vstd::prelude::*;

use crate::rat::Rat;

verus! {

/// One player skill: its display name, current level, and level cap.
#[derive(Clone, Copy, Debug)]
pub struct Skill {
    pub name: &'static str,
    pub level: i32,
    pub max_level: i32,
}

impl Skill {
    /// Builds a skill from its name and levels.
    pub fn new(name: &'static str, level: i32, max_level: i32) -> (s: Skill)
        ensures
            s.name == name,
            s.level == level,
            s.max_level == max_level,
    {
        Skill { name, level, max_level }
    }
}

/// Whether `k` added levels still leave the average short of the target.
pub open spec fn levels_short_of_target(s: Seq<Skill>, target: Rat, k: int) -> bool {
    (levels_sum(s) + k) * target.den < target.num * s.len()
}

/// The sum of the current levels of a skill list.
pub open spec fn levels_sum(s: Seq<Skill>) -> int
    decreases s.len(),
{
    if s.len() == 0 {
        0
    } else {
        levels_sum(s.drop_last()) + s.last().level
    }
}

/// Extending a prefix by one skill adds its level to the sum.
proof fn lemma_levels_sum_extend(s: Seq<Skill>, i: int)
    requires
        0 <= i < s.len(),
    ensures
        levels_sum(s.subrange(0, i + 1)) == levels_sum(s.subrange(0, i)) + s[i].level,
{
    let pre = s.subrange(0, i + 1);
    assert(pre.drop_last() =~= s.subrange(0, i));
}

/// How many skill levels, added anywhere, raise the skill average to the
/// target: the smallest count that brings the level sum to the target
/// average times the number of skills.
pub fn get_skill_levels_required_for_target_average(
    skills: &[Skill],
    target_skill_average: &Rat,
) -> (r: i32)
    requires
        1 <= skills@.len() <= 100,
        forall|i: int| 0 <= i < skills@.len() ==> 0 <= #[trigger] skills@[i].level <= 1_000,
        target_skill_average.wf(),
        0 <= target_skill_average.num <= 1_000 * target_skill_average.den,
        target_skill_average.den <= 1_000_000,
    ensures
        0 <= r,
        !levels_short_of_target(skills@, *target_skill_average, r as int),
        forall|k: int| 0 <= k < r ==> levels_short_of_target(skills@, *target_skill_average, k),
{
    let n: usize = skills.len();
    let mut sum: i64 = 0;
    let mut i: usize = 0;
    while i < n
        invariant
            n == skills@.len(),
            n <= 100,
            0 <= i <= n,
            forall|j: int| 0 <= j < skills@.len() ==> 0 <= #[trigger] skills@[j].level <= 1_000,
            sum == levels_sum(skills@.subrange(0, i as int)),
            0 <= sum <= 1_000 * i,
        decreases n - i,
    {
        proof {
            lemma_levels_sum_extend(skills@, i as int);
        }
        sum = sum + skills[i].level as i64;
        i = i + 1;
    }
    proof {
        assert(skills@.subrange(0, n as int) =~= skills@);
    }
    let tn: i128 = target_skill_average.num;
    let td: i128 = target_skill_average.den;
    proof {
        assert(0 <= tn * (n as int) <= 100_000_000_000i128) by (nonlinear_arith)
            requires
                0 <= tn <= 1_000 * td,
                0 < td <= 1_000_000i128,
                1 <= n as int <= 100,
        ;
    }
    let goal: i128 = tn * (n as i128);
    let mut skill_levels_needed: i32 = 0;
    loop
        invariant
            0 <= skill_levels_needed <= 200_000,
            0 <= sum <= 100_000,
            0 < td <= 1_000_000,
            0 <= tn <= 1_000 * td,
            goal == tn * (n as int),
            1 <= n <= 100,
            sum == levels_sum(skills@),
            tn == target_skill_average.num,
            td == target_skill_average.den,
            n == skills@.len(),
            forall|k: int|
                0 <= k < skill_levels_needed ==> levels_short_of_target(
                    skills@,
                    *target_skill_average,
                    k,
                ),
        ensures
            !levels_short_of_target(skills@, *target_skill_average, skill_levels_needed as int),
            forall|k: int|
                0 <= k < skill_levels_needed ==> levels_short_of_target(
                    skills@,
                    *target_skill_average,
                    k,
                ),
            0 <= skill_levels_needed,
        decreases 200_001 - skill_levels_needed,
    {
        proof {
            assert(0 <= ((sum as int) + (skill_levels_needed as int)) * td
                <= 1_000_000_000_000i128) by (nonlinear_arith)
                requires
                    0 <= sum <= 100_000,
                    0 <= skill_levels_needed <= 200_000,
                    0 < td <= 1_000_000i128,
            ;
        }
        let still_short: bool = ((sum as i128) + (skill_levels_needed as i128)) * td < goal;
        if !still_short {
            break ;
        }
        proof {
            // The loop cannot pass the point where the goal is met.
            assert(sum + skill_levels_needed < 100_001) by (nonlinear_arith)
                requires
                    ((sum as int) + (skill_levels_needed as int)) * td < goal,
                    0 < td,
                    0 <= tn <= 1_000 * td,
                    1 <= n as int <= 100,
                    0 <= sum,
                    0 <= skill_levels_needed,
                    goal == tn * (n as int),
            ;
        }
        skill_levels_needed = skill_levels_needed + 1;
    }
    skill_levels_needed
}

} // verus!
