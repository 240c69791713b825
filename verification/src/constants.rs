//! Game constants: drop chances, damage tables, and stat limits.
use vstd::prelude::*;

verus! {

pub const SECRETS_NEEDED_FOR_MAX_GENERALS_MEDALLION: i32 = 100_000;

/// The largest Magic Find value the game allows.
pub const MAXIMUM_MAGIC_FIND: i32 = 900;

/// Drop chances are percentages given in ten-thousandths of a percent,
/// over this common denominator.
pub const DROP_CHANCE_DEN: i128 = 10_000;

/// 1.0000 percent.
pub const CHIMERA_DROP_CHANCE_NUM: i128 = 10_000;

/// 0.0565 percent.
pub const JUDGEMENT_CORE_DROP_CHANCE_NUM: i128 = 565;

/// 0.0138 percent.
pub const WARDEN_HEART_DROP_CHANCE_NUM: i128 = 138;

/// 0.0406 percent.
pub const OVERFLUX_CAPACITOR_DROP_CHANCE_NUM: i128 = 406;

/// 0.1094 percent.
pub const NECRONS_HANDLE_DROP_CHANCE_NUM: i128 = 1_094;

/// 0.1296 percent.
pub const NECRONS_HANDLE_MASTER_MODE_DROP_CHANCE_NUM: i128 = 1_296;

/// 0.0720 percent.
pub const DARK_CLAYMORE_DROP_CHANCE_NUM: i128 = 720;

// Shadow Assassin damage per floor.
pub const F3_SHADOW_ASSASSIN_DAMAGE: i32 = 3280;

pub const F4_SHADOW_ASSASSIN_DAMAGE: i32 = F3_SHADOW_ASSASSIN_DAMAGE;

pub const F5_SHADOW_ASSASSIN_DAMAGE: i32 = 6640;

pub const F6_SHADOW_ASSASSIN_DAMAGE: i32 = 8640;

pub const F7_SHADOW_ASSASSIN_DAMAGE: i32 = 48000;

// Master Mode Shadow Assassin damage per floor.
pub const M3_SHADOW_ASSASSIN_DAMAGE: i32 = 175_000;

pub const M4_SHADOW_ASSASSIN_DAMAGE: i32 = M3_SHADOW_ASSASSIN_DAMAGE;

pub const M5_SHADOW_ASSASSIN_DAMAGE: i32 = 270_000;

pub const M6_SHADOW_ASSASSIN_DAMAGE: i32 = 400_000;

pub const M7_SHADOW_ASSASSIN_DAMAGE: i32 = M6_SHADOW_ASSASSIN_DAMAGE;

// Fels damage per floor.
pub const F5_FELS_DAMAGE: i32 = 8000;

pub const F6_FELS_DAMAGE: i32 = 9600;

pub const F7_FELS_DAMAGE: i32 = 20000;

// Master Mode Fels damage per floor.
pub const M5_FELS_DAMAGE: i32 = 150_000;

pub const M6_FELS_DAMAGE: i32 = 200_000;

pub const M7_FELS_DAMAGE: i32 = 240_000;

// Voidgloom Seraph total damage per tier (base hit plus area hit).
pub const VOIDGLOOM_SERAPH_TIER_1_BASE_DAMAGE: i32 = 1200;

pub const VOIDGLOOM_SERAPH_TIER_1_AOE_DAMAGE: i32 = 720;

pub const VOIDGLOOM_SERAPH_TIER_1_TOTAL_DAMAGE: i32 = VOIDGLOOM_SERAPH_TIER_1_BASE_DAMAGE
    + VOIDGLOOM_SERAPH_TIER_1_AOE_DAMAGE;

pub const VOIDGLOOM_SERAPH_TIER_2_BASE_DAMAGE: i32 = 5000;

pub const VOIDGLOOM_SERAPH_TIER_2_AOE_DAMAGE: i32 = 3000;

pub const VOIDGLOOM_SERAPH_TIER_2_TOTAL_DAMAGE: i32 = VOIDGLOOM_SERAPH_TIER_2_BASE_DAMAGE
    + VOIDGLOOM_SERAPH_TIER_2_AOE_DAMAGE;

pub const VOIDGLOOM_SERAPH_TIER_3_BASE_DAMAGE: i32 = 12000;

pub const VOIDGLOOM_SERAPH_TIER_3_AOE_DAMAGE: i32 = 7200;

pub const VOIDGLOOM_SERAPH_TIER_3_TOTAL_DAMAGE: i32 = VOIDGLOOM_SERAPH_TIER_3_BASE_DAMAGE
    + VOIDGLOOM_SERAPH_TIER_3_AOE_DAMAGE;

pub const VOIDGLOOM_SERAPH_TIER_4_BASE_DAMAGE: i32 = 21000;

pub const VOIDGLOOM_SERAPH_TIER_4_AOE_DAMAGE: i32 = 12600;

pub const VOIDGLOOM_SERAPH_TIER_4_TOTAL_DAMAGE: i32 = VOIDGLOOM_SERAPH_TIER_4_BASE_DAMAGE
    + VOIDGLOOM_SERAPH_TIER_4_AOE_DAMAGE;

} // verus!
