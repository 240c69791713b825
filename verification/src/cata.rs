//! Catacombs stat-boost math: the cumulative gear boost a Catacombs level
//! grants, and the boost of the General's Medallion.
use vstd::prelude::*;

use crate::constants::SECRETS_NEEDED_FOR_MAX_GENERALS_MEDALLION;

verus! {

/// The boost one Catacombs level adds, by level bracket.
pub open spec fn cata_level_boost(level: int) -> int {
    if level == 0 {
        10
    } else if 1 <= level <= 5 {
        4
    } else if 6 <= level <= 10 {
        5
    } else if 11 <= level <= 15 {
        6
    } else if 16 <= level <= 20 {
        7
    } else if 21 <= level <= 25 {
        8
    } else if 26 <= level <= 30 {
        9
    } else if 31 <= level <= 35 {
        10
    } else if 36 <= level <= 40 {
        12
    } else if 41 <= level <= 45 {
        14
    } else if level == 46 {
        16
    } else if level == 47 {
        17
    } else if level == 48 {
        18
    } else if level == 49 {
        19
    } else if level == 50 {
        20
    } else {
        0
    }
}

/// The cumulative boost of all levels up to and including `level`.
pub open spec fn cata_boost_sum(level: int) -> int
    decreases level + 1,
{
    if level < 0 {
        0
    } else {
        cata_boost_sum(level - 1) + cata_level_boost(level)
    }
}

/// Levels past 50 add nothing, so the sum settles at its level-50 value.
proof fn lemma_cata_boost_sum_settles(level: int)
    requires
        level >= 50,
    ensures
        cata_boost_sum(level) == cata_boost_sum(50),
    decreases level + 1,
{
    if level > 50 {
        lemma_cata_boost_sum_settles(level - 1);
    }
}

/// The cumulative Catacombs stat boost of a level.
pub fn get_cata_stat_boost(catacombs_level: i32) -> (r: i32)
    ensures
        r == cata_boost_sum(catacombs_level as int),
{
    let mut cata_stat_boost: i32 = 0;
    let mut level: i32 = 0;
    if catacombs_level < 0 {
        return 0;
    }
    let top: i32 = if catacombs_level > 50 {
        50
    } else {
        catacombs_level
    };
    while level <= top
        invariant
            0 <= level <= top + 1,
            top <= 50,
            top == if catacombs_level > 50 {
                50int
            } else {
                catacombs_level as int
            },
            cata_stat_boost == cata_boost_sum(level - 1),
            0 <= cata_stat_boost <= 10 + 20 * level,
        decreases top + 1 - level,
    {
        let add: i32 = match level {
            0 => 10,
            1..=5 => 4,
            6..=10 => 5,
            11..=15 => 6,
            16..=20 => 7,
            21..=25 => 8,
            26..=30 => 9,
            31..=35 => 10,
            36..=40 => 12,
            41..=45 => 14,
            46 => 16,
            47 => 17,
            48 => 18,
            49 => 19,
            50 => 20,
            _ => 0,
        };
        cata_stat_boost = cata_stat_boost + add;
        level = level + 1;
    }
    proof {
        if catacombs_level > 50 {
            lemma_cata_boost_sum_settles(catacombs_level as int);
        }
    }
    cata_stat_boost
}

/// The General's Medallion boost: one more than the number of secret
/// digits, with the secrets capped at the maximum the medallion counts.
pub fn generals_medallion_stat_boost(secrets: i32) -> (r: i32)
    requires
        0 <= secrets,
    ensures
        1 <= r <= 6,
        ({
            let capped = if secrets > SECRETS_NEEDED_FOR_MAX_GENERALS_MEDALLION {
                SECRETS_NEEDED_FOR_MAX_GENERALS_MEDALLION as int
            } else {
                secrets as int
            };
            &&& (capped >= 100_000 ==> r == 6)
            &&& (10_000 <= capped < 100_000 ==> r == 5)
            &&& (1_000 <= capped < 10_000 ==> r == 4)
            &&& (100 <= capped < 1_000 ==> r == 3)
            &&& (10 <= capped < 100 ==> r == 2)
            &&& (capped < 10 ==> r == 1)
        }),
{
    let capped: i32 = if secrets > SECRETS_NEEDED_FOR_MAX_GENERALS_MEDALLION {
        SECRETS_NEEDED_FOR_MAX_GENERALS_MEDALLION
    } else {
        secrets
    };
    let log: i32 = if capped >= 100_000 {
        5
    } else if capped >= 10_000 {
        4
    } else if capped >= 1_000 {
        3
    } else if capped >= 100 {
        2
    } else if capped >= 10 {
        1
    } else {
        0
    };
    log + 1
}

} // verus!
