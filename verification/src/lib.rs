//! Exact-arithmetic models and simulators for Hypixel SkyBlock drop
//! mechanics: drop chances under Magic Find and Looting, the RNG meter,
//! a seeded roll simulator, and the statistics reported over a run.
pub mod cata;
pub mod constants;
pub mod drops;
pub mod meter;
pub mod rat;
pub mod rng;
pub mod simulator;
pub mod skills;
pub mod skulls;
pub mod stats;
pub mod survivability;
pub mod text;
pub mod watcher;
