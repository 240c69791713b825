//! The roll simulator end to end: determinism, empty runs, meter
//! behavior, draws, and the statistics block.
use jandom::Random;
use skyblock_tools::meter::final_drop_chance;
use skyblock_tools::meter::rng_meter_percent;
use skyblock_tools::rat::Rat;
use skyblock_tools::rng::DRAW_DEN;
use skyblock_tools::rng::gen_draws;
use skyblock_tools::rng::rand_draw;
use skyblock_tools::simulator::DropProfile;
use skyblock_tools::simulator::PlayerModifiers;
use skyblock_tools::simulator::SimulationRequest;
use skyblock_tools::simulator::do_rolls_and_get_drops;
use skyblock_tools::simulator::simulate;
use skyblock_tools::simulator::get_drop_chance;
use skyblock_tools::drops::drop_rate_with_magic_find_and_looting;
use skyblock_tools::drops::get_minimum_magic_find_needed_to_succeed;
use skyblock_tools::simulator::possible_drops_percent;
use skyblock_tools::stats::compute_statistics;

#[test]
fn draws_match_the_generator_doubles() {
    // The draw numerator over 2^53 is exactly what nextDouble returns.
    let mut taking_bits = Random::new(7);
    let mut taking_doubles = Random::new(7);
    for _ in 0..50 {
        let numerator = rand_draw(&mut taking_bits);
        let double = taking_doubles.next_f64();
        assert!(numerator < DRAW_DEN);
        assert_eq!(numerator as f64 / DRAW_DEN as f64, double);
    }
}

#[test]
fn seeded_draws_are_reproducible() {
    let mut first = Random::new(42);
    let mut second = Random::new(42);
    let draws_first = gen_draws(&mut first, 200);
    let draws_second = gen_draws(&mut second, 200);
    assert_eq!(draws_first, draws_second);
}

#[test]
fn simulation_is_deterministic_for_a_seed() {
    let mut first = Random::new(1337);
    let mut second = Random::new(1337);
    let draws_first = gen_draws(&mut first, 300);
    let draws_second = gen_draws(&mut second, 300);

    let base = Rat::new(565, 10_000);
    let meter = Some(Rat::from_int(26));

    let mut mf_values_first: Vec<i32> = Vec::new();
    let mut meter_rolls_first: Vec<i32> = Vec::new();
    let mut outcomes_first = Vec::new();
    let drops_first = do_rolls_and_get_drops(
        &base,
        meter,
        15,
        100,
        &draws_first,
        &mut mf_values_first,
        &mut meter_rolls_first,
        &mut outcomes_first,
    );

    let mut mf_values_second: Vec<i32> = Vec::new();
    let mut meter_rolls_second: Vec<i32> = Vec::new();
    let mut outcomes_second = Vec::new();
    let drops_second = do_rolls_and_get_drops(
        &base,
        meter,
        15,
        100,
        &draws_second,
        &mut mf_values_second,
        &mut meter_rolls_second,
        &mut outcomes_second,
    );

    assert_eq!(drops_first, drops_second);
    assert_eq!(mf_values_first, mf_values_second);
    assert_eq!(meter_rolls_first, meter_rolls_second);
    assert_eq!(outcomes_first, outcomes_second);
}

#[test]
fn no_rolls_no_results() {
    let draws: Vec<u64> = Vec::new();
    let base = Rat::from_int(1);
    let mut mf_values: Vec<i32> = Vec::new();
    let mut meter_rolls: Vec<i32> = Vec::new();
    let mut outcomes = Vec::new();
    let drops = do_rolls_and_get_drops(
        &base,
        None,
        0,
        0,
        &draws,
        &mut mf_values,
        &mut meter_rolls,
        &mut outcomes,
    );
    assert_eq!(drops, 0);
    assert!(mf_values.is_empty());
    assert!(meter_rolls.is_empty());
    assert!(outcomes.is_empty());

    // The statistics block reports nothing over empty sequences.
    let stats = compute_statistics(&base, &mut mf_values, &mut meter_rolls, false);
    assert!(stats.mean_succeed_magic_find.is_none());
    assert!(stats.median_succeed_magic_find.is_none());
    assert!(stats.mode_succeed_magic_find.is_none());
    assert!(stats.range_succeed_magic_find.is_none());
    assert!(stats.mean_succeed_rolls.is_none());
    assert!(stats.max_succeed_rolls.is_none());
}

#[test]
fn full_meter_guarantees_the_first_roll() {
    // A 100% meter makes the very first roll a guaranteed success.
    let mut rng = Random::new(5);
    let draws = gen_draws(&mut rng, 3);
    let base = Rat::new(565, 10_000);
    let mut mf_values: Vec<i32> = Vec::new();
    let mut meter_rolls: Vec<i32> = Vec::new();
    let mut outcomes = Vec::new();
    let drops = do_rolls_and_get_drops(
        &base,
        Some(Rat::from_int(100)),
        0,
        0,
        &draws,
        &mut mf_values,
        &mut meter_rolls,
        &mut outcomes,
    );
    assert!(drops >= 1);
    assert!(outcomes[0].succeeded);
    assert_eq!(outcomes[0].minimum_magic_find_to_succeed, 0);
}

#[test]
fn meterless_drop_chance_stays_unboosted() {
    // Below the odds, a drop without a meter keeps its base chance.
    let base = Rat::new(565, 10_000);
    let chance = final_drop_chance(&base, 5, false);
    assert!(chance.eq_rat(&base));

    // With a meter the same progress boosts the chance.
    let boosted = final_drop_chance(&base, 5, true);
    assert!(!boosted.eq_rat(&base));

    // At the odds the guarantee branch fires even without a meter.
    let guaranteed = final_drop_chance(&base, 2_000_000, false);
    assert!(guaranteed.eq_rat(&Rat::from_int(100)));
}

#[test]
fn impossible_draws_report_the_sentinel() {
    // A draw of nearly one against a minuscule chance fails even at the
    // maximum Magic Find.
    let draw = Rat::new((DRAW_DEN - 1) as i128, DRAW_DEN as i128);
    let chance = Rat::new(1, 10_000);
    let minimum = get_minimum_magic_find_needed_to_succeed(
        &draw,
        &chance,
        &Rat::from_int(0),
        None,
    );
    assert_eq!(minimum, 901);
}

#[test]
fn meter_percent_saturates_at_the_odds() {
    // A 1% drop has odds 100: progress 50 reads 50%, progress 100 and
    // beyond read 100%.
    let base = Rat::from_int(1);
    let halfway = rng_meter_percent(&base, &Rat::from_int(50));
    assert!(halfway.eq_rat(&Rat::from_int(50)));
    let full = rng_meter_percent(&base, &Rat::from_int(100));
    assert!(full.eq_rat(&Rat::from_int(100)));
    let beyond = rng_meter_percent(&base, &Rat::from_int(170));
    assert!(beyond.eq_rat(&Rat::from_int(100)));
}

#[test]
fn catalog_chances_and_looting_flags() {
    let mut no_looting = true;
    let chimera = get_drop_chance(1, &mut no_looting);
    assert!(!no_looting);
    assert!(chimera.eq_rat(&Rat::from_int(1)));

    let mut no_looting_core = true;
    let core = get_drop_chance(2, &mut no_looting_core);
    assert!(no_looting_core);
    assert!(core.eq_rat(&Rat::new(565, 10_000)));
}

#[test]
fn possible_drops_percent_halves() {
    let percent = possible_drops_percent(5, 10);
    assert!(percent.eq_rat(&Rat::from_int(50)));
}

#[test]
fn statistics_report_modes_only_with_duplicates() {
    let base = Rat::from_int(1);
    let mut mf_values: Vec<i32> = vec![3, 1, 2];
    let mut meter_rolls: Vec<i32> = vec![4, 4, 10];
    let stats = compute_statistics(&base, &mut mf_values, &mut meter_rolls, true);

    // All the minimum-Magic-Find values are distinct: no mode.
    assert!(stats.mode_succeed_magic_find.is_none());
    assert!(stats.mean_succeed_magic_find.unwrap().eq_rat(&Rat::from_int(2)));
    assert!(stats.median_succeed_magic_find.unwrap().eq_rat(&Rat::from_int(2)));
    assert_eq!(stats.range_succeed_magic_find, Some(2));

    // The rolls repeat 4, so the mode is reported.
    assert_eq!(stats.mode_succeed_rolls, Some(4));
    assert!(stats.mean_succeed_rolls.unwrap().eq_rat(&Rat::from_int(6)));
    assert_eq!(stats.max_succeed_rolls, Some(10));
    assert!(!stats.meter_is_hypothetical);
    // Progress 6 of 100 odds reads 6% on the meter.
    assert!(stats.mean_succeed_meter.unwrap().eq_rat(&Rat::from_int(6)));
}

#[test]
fn unmodified_drop_rate_is_the_base_chance() {
    // With no Magic Find and no Looting the scaled rate is the base rate.
    let base = Rat::new(565, 10_000);
    let rate = drop_rate_with_magic_find_and_looting(&base, 0, &Rat::from_int(0));
    assert!(rate.eq_rat(&base));
}

#[test]
fn simulate_matches_the_raw_roll_run() {
    let mut rng = Random::new(99);
    let draws = gen_draws(&mut rng, 250);

    let request = SimulationRequest {
        profile: DropProfile {
            base_chance: Rat::new(565, 10_000),
            supports_looting: false,
            supports_meter: true,
        },
        modifiers: PlayerModifiers {
            magic_find: 100,
            looting_level: 3,
            meter_completion_percent: Some(Rat::from_int(26)),
        },
    };
    let result = simulate(&request, &draws);

    // Looting is ineligible, so the raw run uses no looting bonus.
    let mut mf_values: Vec<i32> = Vec::new();
    let mut meter_rolls: Vec<i32> = Vec::new();
    let mut outcomes = Vec::new();
    let drops = do_rolls_and_get_drops(
        &request.profile.base_chance,
        request.modifiers.meter_completion_percent,
        0,
        100,
        &draws,
        &mut mf_values,
        &mut meter_rolls,
        &mut outcomes,
    );

    assert_eq!(result.total_successes, drops);
    assert_eq!(result.all_minimum_magic_find_values, mf_values);
    assert_eq!(result.meter_succeeded_rolls, meter_rolls);
    assert_eq!(result.outcomes, outcomes);
    assert_eq!(result.meter_succeeded_rolls.len(), result.total_successes as usize);
    assert_eq!(result.outcomes.len(), draws.len());
}
