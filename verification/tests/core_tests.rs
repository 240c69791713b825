//! The utility and drop-model behaviors, checked on concrete values.
use skyblock_tools::drops::drop_rate_with_magic_find_and_looting;
use skyblock_tools::drops::get_minimum_magic_find_needed_to_succeed;
use skyblock_tools::drops::passes;
use skyblock_tools::rat::Rat;
use skyblock_tools::rat::cap;
use skyblock_tools::rat::get_odds;
use skyblock_tools::rat::percent_of;
use skyblock_tools::rat::percentage_change;
use skyblock_tools::rng::DRAW_DEN;
use skyblock_tools::rng::new_rng;
use skyblock_tools::rng::rand_draw;
use skyblock_tools::stats::FunctionResult;
use skyblock_tools::stats::has_unique_elements;
use skyblock_tools::stats::mean;
use skyblock_tools::stats::median;
use skyblock_tools::stats::mode;
use skyblock_tools::stats::range;
use skyblock_tools::stats::return_first_elem_if_only_one_elem;
use skyblock_tools::skulls::get_total_required_amount;
use skyblock_tools::text::parse_decimal;
use skyblock_tools::text::with_comma_separators;

#[test]
fn compare_f64_works() {
    assert!(Rat::from_int(1).eq_rat(&Rat::from_int(1)));
    assert!(Rat::from_int(-1).eq_rat(&Rat::from_int(-1)));

    assert!(!Rat::new(11, 10).eq_rat(&Rat::from_int(1)));
    assert!(!Rat::new(-11, 10).eq_rat(&Rat::from_int(-1)));
}

#[test]
fn mean_works() {
    let mean = mean(&vec![1, 2, 3, 4, 5]).unwrap();
    let expected_result = Rat::from_int(3);

    assert!(mean.eq_rat(&expected_result), "{mean:?} != {expected_result:?}");
}

#[test]
fn mean_overflow_i32() {
    let mean = mean(&vec![i32::MAX >> 1; 3]).unwrap();
    let expected_result = Rat::from_int((i32::MAX >> 1) as i64);

    assert!(mean.eq_rat(&expected_result), "{mean:?} != {expected_result:?}");
}

#[test]
fn with_comma_separators_works() {
    assert_eq!(with_comma_separators("100000").unwrap(), "100,000");
}

#[test]
fn with_comma_separators_fraction() {
    assert_eq!(with_comma_separators("-1234567.5").unwrap(), "-1,234,567.5");
    assert!(with_comma_separators("12a4").is_none());
    assert!(with_comma_separators("1.2.3").is_none());
}

#[test]
fn percentage_change_works() {
    let value = percentage_change(&Rat::from_int(1), &Rat::from_int(2));
    let expected_result = Rat::from_int(100);

    assert!(value.eq_rat(&expected_result), "{value:?} != {expected_result:?}");
}

#[test]
fn percent_of_works() {
    let value = percent_of(&Rat::from_int(50), &Rat::from_int(25));
    let expected_result = Rat::new(25, 2);

    assert!(value.eq_rat(&expected_result), "{value:?} != {expected_result:?}");
}

#[test]
fn range_works() {
    assert_eq!(range(&[1, 2, 3, 4, 5]).unwrap(), 4);
}

#[test]
fn mode_works() {
    assert_eq!(mode(&vec![1, 2, 3, 4, 5, 2, 2, 3]).unwrap(), 2);
}

#[test]
fn median_works() {
    let value = median(&mut vec![1, 2, 3, 4, 5]).unwrap();
    let expected_result = Rat::from_int(3);

    assert!(value.eq_rat(&expected_result), "{value:?} != {expected_result:?}");
}

#[test]
fn median_2() {
    let value = median(&mut vec![1, 2, 3, 4, 5, 6]).unwrap();
    let expected_result = Rat::new(7, 2);

    assert!(value.eq_rat(&expected_result), "{value:?} != {expected_result:?}");
}

#[test]
fn cap_works() {
    let value = cap(&Rat::from_int(11), &Rat::from_int(10));
    let expected_result = Rat::from_int(10);

    assert!(value.eq_rat(&expected_result), "{value:?} != {expected_result:?}");
}

#[test]
fn has_unique_elements_works() {
    assert!(has_unique_elements(&[1, 2, 3, 4, 5]));
    assert!(!has_unique_elements(&[1, 2, 3, 4, 5, 2]));
}

#[test]
fn get_odds_works() {
    let value = get_odds(&parse_decimal("0.5").unwrap());
    let expected_result = Rat::from_int(200);

    assert!(value.eq_rat(&expected_result), "{value:?} != {expected_result:?}");
}

#[test]
fn drop_rate_with_magic_find_and_looting_works() {
    let value = drop_rate_with_magic_find_and_looting(
        &Rat::from_int(1),
        50,
        &Rat::from_int(50),
    );
    let expected_result = Rat::new(9, 4);

    assert!(value.eq_rat(&expected_result), "{value:?} != {expected_result:?}");
}

#[test]
fn passes_works() {
    let drop_chance = Rat::from_int(6);
    let mut rng = new_rng();
    let magic_number = Rat::new(rand_draw(&mut rng) as i128, DRAW_DEN as i128);

    let magic_find = 900;
    let looting_extra_chance = Rat::from_int(75);

    let drop_rate = drop_rate_with_magic_find_and_looting(
        &drop_chance,
        magic_find,
        &looting_extra_chance,
    );

    let expected_result = Rat::from_int(105);

    assert!(drop_rate.eq_rat(&expected_result), "{drop_rate:?} != {expected_result:?}");

    assert!(
        passes(&magic_number, &drop_chance, magic_find, &looting_extra_chance),
        "{magic_number:?} should be below the drop rate {drop_rate:?}"
    );
}

#[test]
fn get_minimum_magic_find_needed_to_succeed_works() {
    let mut rng = new_rng();
    assert_eq!(
        get_minimum_magic_find_needed_to_succeed(
            &Rat::new(rand_draw(&mut rng) as i128, DRAW_DEN as i128),
            &Rat::from_int(100),
            &Rat::from_int(0),
            None
        ),
        0
    );

    // A draw that came from the generator and got pinned: the minimum must
    // reproduce exactly.
    let draw_numerator = (0.174_911_835_457_161_56_f64 * DRAW_DEN as f64) as u64;
    assert_eq!(
        get_minimum_magic_find_needed_to_succeed(
            &Rat::new(draw_numerator as i128, DRAW_DEN as i128),
            &Rat::from_int(12),
            &Rat::from_int(15),
            Some(26)
        ),
        27
    );
}

#[test]
fn get_total_required_amount_works() {
    assert_eq!(get_total_required_amount(1, 7), 4096);
}

#[test]
fn return_first_elem_if_only_elem() {
    test_return_first_elem_if_only_elem0(&[15], Some(Rat::from_int(15)), &FunctionResult::Success);
    test_return_first_elem_if_only_elem0(&[], None, &FunctionResult::Failure);
    test_return_first_elem_if_only_elem0(&[1, 2], None, &FunctionResult::Failure);
}

fn test_return_first_elem_if_only_elem0(
    values: &[i32],
    expected_value: Option<Rat>,
    expected_function_result: &FunctionResult,
) {
    let result = return_first_elem_if_only_one_elem(&values.to_vec());

    if let Some(expected_result) = expected_value {
        let value = result.0.unwrap();

        assert!(value.eq_rat(&expected_result), "{value:?} != {expected_result:?}");
    } else {
        assert!(result.0.is_none());
    }

    match result.1 {
        FunctionResult::Success => {
            if matches!(*expected_function_result, FunctionResult::Failure) {
                panic!("expected Success, got Failure");
            }
        },
        FunctionResult::Failure => {
            if matches!(*expected_function_result, FunctionResult::Success) {
                panic!("expected Failure, got Success");
            }
        },
    }
}

#[test]
fn statistics_of_nothing_are_nothing() {
    assert!(mean(&Vec::new()).is_none());
    assert!(median(&mut Vec::new()).is_none());
    assert!(mode(&Vec::new()).is_none());
    assert!(range(&[]).is_none());
}
