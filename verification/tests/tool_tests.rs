//! The calculator kernels and text helpers of the other tools.
use skyblock_tools::cata::generals_medallion_stat_boost;
use skyblock_tools::cata::get_cata_stat_boost;
use skyblock_tools::rat::Rat;
use skyblock_tools::skills::Skill;
use skyblock_tools::skills::get_skill_levels_required_for_target_average;
use skyblock_tools::skulls::required_amount_to_upgrade;
use skyblock_tools::survivability::calculate_effective_health;
use skyblock_tools::survivability::calculate_hits_to_die;
use skyblock_tools::survivability::calculate_next_effective_health_milestone;
use skyblock_tools::survivability::find_needed_defense;
use skyblock_tools::survivability::find_needed_health;
use skyblock_tools::survivability::get_enemy_damage_per_hit;
use skyblock_tools::text::conditional_value_or_default;
use skyblock_tools::text::contains_str;
use skyblock_tools::text::crop_letters;
use skyblock_tools::text::crop_netty;
use skyblock_tools::text::parse_decimal;
use skyblock_tools::text::remove_color_codes;
use skyblock_tools::watcher::VoidgloomData;
use skyblock_tools::watcher::duration_diff;
use skyblock_tools::watcher::get_data_dir;
use skyblock_tools::watcher::get_global_data_file;
use skyblock_tools::watcher::get_last_session_data_file;
use skyblock_tools::watcher::get_log_file_path;
use skyblock_tools::watcher::is_copy_worthy_line;
use skyblock_tools::watcher::is_tracked_log_line;
use skyblock_tools::watcher::parse_log_line;

#[test]
fn conditional_value_or_default_works() {
    assert_eq!(conditional_value_or_default(false, || { unreachable!() }, 100), 100);

    assert_eq!(conditional_value_or_default(true, || { 100 }, 50), 100);
}

#[test]
fn effective_health_math() {
    assert_eq!(calculate_effective_health(100, 250), 300);
    assert_eq!(calculate_effective_health(100, 0), 100);

    let hits = calculate_hits_to_die(300, 90);
    // 1 + 300/90 hits.
    assert!(hits.eq_rat(&Rat::new(13, 3)));

    let floored = calculate_hits_to_die(50, 90);
    assert!(floored.eq_rat(&Rat::from_int(2)));
}

#[test]
fn next_milestone_completes_the_started_hit() {
    // 100 effective health against 30 damage dies in 1 + 3.33 hits; 120
    // completes the fourth hit.
    assert_eq!(calculate_next_effective_health_milestone(100, 30), 120);
    // A whole number of hits steps a full hit forward.
    assert_eq!(calculate_next_effective_health_milestone(90, 30), 120);
}

#[test]
fn needed_stats_for_one_more_hit() {
    // 100 health at 0 defense: effective health equals health.
    assert_eq!(find_needed_health(100, 0, 120), 20);
    // 100 health: 100 more defense doubles it.
    assert_eq!(find_needed_defense(100, 0, 120), 100);
    assert_eq!(find_needed_health(100, 0, 90), 0);
}

#[test]
fn enemy_damage_table() {
    assert_eq!(get_enemy_damage_per_hit(1, 1), 3280);
    assert_eq!(get_enemy_damage_per_hit(2, 3), 20000);
    assert_eq!(get_enemy_damage_per_hit(3, 4), 33600);
    assert_eq!(get_enemy_damage_per_hit(9, 9), 0);
}

#[test]
fn skill_levels_needed_for_target() {
    let skills = [Skill::new("Farming", 10, 60), Skill::new("Mining", 20, 60)];
    let needed = get_skill_levels_required_for_target_average(&skills, &Rat::from_int(20));
    assert_eq!(needed, 10);
    let none_needed = get_skill_levels_required_for_target_average(&skills, &Rat::from_int(15));
    assert_eq!(none_needed, 0);
}

#[test]
fn skull_upgrade_amounts() {
    // From tier 1 to tier 4, combining tier-1 skulls, having a tier-3.
    assert_eq!(required_amount_to_upgrade(1, 3, 4), 48);
    // Already at the target: a single skull, nothing subtracted.
    assert_eq!(required_amount_to_upgrade(1, 1, 1), 1);
}

#[test]
fn cata_boost_accumulates() {
    assert_eq!(get_cata_stat_boost(0), 10);
    assert_eq!(get_cata_stat_boost(5), 30);
    assert_eq!(get_cata_stat_boost(50), get_cata_stat_boost(60));
}

#[test]
fn medallion_boost_counts_digits() {
    assert_eq!(generals_medallion_stat_boost(0), 1);
    assert_eq!(generals_medallion_stat_boost(99), 2);
    assert_eq!(generals_medallion_stat_boost(100_000), 6);
    assert_eq!(generals_medallion_stat_boost(2_000_000), 6);
}

#[test]
fn color_codes_are_stripped() {
    assert_eq!(remove_color_codes("\u{a7}aHello \u{a7}lWorld\u{a7}r"), "Hello World");
    assert_eq!(remove_color_codes("plain"), "plain");
}

#[test]
fn crop_letters_skips_prefix() {
    assert_eq!(crop_letters("Hello", 2), "llo");
    assert_eq!(crop_letters("Hello", 9), "");
}

#[test]
fn crop_netty_strips_thread_markers() {
    let line = String::from("] Netty Epoll Client IO #3/INFO] CHAT] RARE DROP!");
    assert_eq!(crop_netty(line, 4), "RARE DROP!");
}

#[test]
fn contains_finds_substrings() {
    assert!(contains_str("SLAYER QUEST COMPLETE!", "QUEST"));
    assert!(!contains_str("SLAYER", "QUEST"));
}

#[test]
fn decimal_parsing_is_exact() {
    let chance = parse_decimal("0.0565").unwrap();
    assert_eq!((chance.num, chance.den), (565, 10_000));

    let negative = parse_decimal("-3.5").unwrap();
    assert_eq!((negative.num, negative.den), (-35, 10));

    let whole = parse_decimal("12").unwrap();
    assert_eq!((whole.num, whole.den), (12, 1));

    assert!(parse_decimal("abc").is_none());
    assert!(parse_decimal("").is_none());
    assert!(parse_decimal("1.2.3").is_none());
}

#[test]
fn log_lines_update_counters() {
    let mut session = VoidgloomData::default();
    let mut global = VoidgloomData::default();
    parse_log_line(&mut session, &mut global, "SLAYER QUEST COMPLETE!");
    assert_eq!(session.bosses_done, 1);
    assert_eq!(global.bosses_done, 1);

    parse_log_line(&mut session, &mut global, "RARE DROP! (Twilight Arrow Poison)");
    assert_eq!(session.twilight_arrow_poisons, 1);

    // A zealot eye announces as a plain rare drop and is not counted.
    parse_log_line(&mut session, &mut global, "RARE DROP! (Summoning Eye)");
    assert_eq!(session.summoning_eyes, 0);

    // A boss eye with doubled spaces is counted.
    parse_log_line(&mut session, &mut global, "VERY RARE DROP!  (Summoning Eye)");
    assert_eq!(session.summoning_eyes, 1);
    assert_eq!(global.summoning_eyes, 1);
}

#[test]
fn watcher_line_classification() {
    assert!(is_tracked_log_line("VERY RARE DROP! (Summoning Eye)"));
    assert!(is_tracked_log_line("SLAYER QUEST COMPLETE!"));
    assert!(!is_tracked_log_line("\u{a7}7: hello"));
    assert!(!is_tracked_log_line("just chatter"));

    assert!(is_copy_worthy_line("INSANE DROP! (Judgement Core)"));
    assert!(!is_copy_worthy_line("RARE DROP! (Enchanted Ender Pearl)"));
}

#[test]
fn durations_and_paths() {
    assert_eq!(duration_diff(10, 4), 6);
    assert_eq!(duration_diff(4, 10), 6);
    assert_eq!(get_data_dir(), "data");
    assert_eq!(get_global_data_file(), "data/global.json");
    assert_eq!(get_last_session_data_file(), "data/last_session.json");
    assert_eq!(get_log_file_path("/home/player/.minecraft"), "/home/player/.minecraft/logs/latest.log");
}
