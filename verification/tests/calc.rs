use rocket_equation::calc::calc_fuel_for_modules_and_fuel_mass;
use rocket_equation::calc::calc_fuel_for_modules_basic;
use rocket_equation::calc::calc_fuel_for_modules_via;
use rocket_equation::calc::check_sums_fit;
use rocket_equation::calc::CalcError;
use rocket_equation::calc::FuelMode;

fn lines(strs: &[&str]) -> Vec<String> {
    let mut v: Vec<String> = Vec::new();
    for s in strs {
        v.push(String::from(*s));
    }
    v
}

#[test]
fn empty_input_yields_zero_for_both_aggregations() {
    let input = lines(&[]);
    assert_eq!(calc_fuel_for_modules_basic(&input), Ok(0));
    assert_eq!(calc_fuel_for_modules_and_fuel_mass(&input), Ok(0));
}

#[test]
fn single_zero_mass_contributes_minus_two_and_no_follow_on() {
    let input = lines(&["0"]);
    assert_eq!(calc_fuel_for_modules_basic(&input), Ok(-2));
    assert_eq!(calc_fuel_for_modules_and_fuel_mass(&input), Ok(-2));
}

#[test]
fn fixture_totals_for_both_aggregations() {
    let input = lines(&["12", "14", "1969", "100756"]);
    // direct: 2 + 2 + 654 + 33583
    assert_eq!(calc_fuel_for_modules_basic(&input), Ok(34241));
    // with fuel mass: 2 + 2 + 966 + 50346
    assert_eq!(calc_fuel_for_modules_and_fuel_mass(&input), Ok(51316));
}

#[test]
fn signed_masses_are_summed_in_order() {
    let input = lines(&["+5", "-14"]);
    // fuel(5) = -1, fuel(-14) = floor(-14/3) - 2 = -7
    assert_eq!(calc_fuel_for_modules_basic(&input), Ok(-8));
}

#[test]
fn running_an_aggregation_twice_yields_identical_totals() {
    let input = lines(&["12", "14", "1969", "100756"]);
    let basic_first = calc_fuel_for_modules_basic(&input);
    let basic_second = calc_fuel_for_modules_basic(&input);
    assert_eq!(basic_first, basic_second);
    let recursive_first = calc_fuel_for_modules_and_fuel_mass(&input);
    let recursive_second = calc_fuel_for_modules_and_fuel_mass(&input);
    assert_eq!(recursive_first, recursive_second);
}

#[test]
fn both_modes_run_through_the_shared_aggregation() {
    let input = lines(&["1969"]);
    assert_eq!(calc_fuel_for_modules_via(&input, FuelMode::Basic), Ok(654));
    assert_eq!(calc_fuel_for_modules_via(&input, FuelMode::WithFuelMass), Ok(966));
}

#[test]
fn partial_totals_in_range_are_accepted() {
    let input = lines(&["12", "14", "1969", "100756"]);
    assert!(check_sums_fit(&input, FuelMode::Basic));
    assert!(check_sums_fit(&input, FuelMode::WithFuelMass));
    let empty = lines(&[]);
    assert!(check_sums_fit(&empty, FuelMode::Basic));
}

#[test]
fn overflowing_totals_are_detected() {
    let big = lines(&["2147483647", "2147483647", "2147483647", "2147483647"]);
    assert!(!check_sums_fit(&big, FuelMode::Basic));
    assert!(!check_sums_fit(&big, FuelMode::WithFuelMass));
    // partial totals past an unparseable line are never formed
    let cut = lines(&["2147483647", "oops", "2147483647", "2147483647", "2147483647"]);
    assert!(check_sums_fit(&cut, FuelMode::Basic));
}

#[test]
fn non_numeric_line_fails_the_whole_aggregation() {
    let input = lines(&["12", "abc", "14"]);
    assert_eq!(
        calc_fuel_for_modules_basic(&input),
        Err(CalcError::ParseError { line: 1 })
    );
    assert_eq!(
        calc_fuel_for_modules_and_fuel_mass(&input),
        Err(CalcError::ParseError { line: 1 })
    );
}

#[test]
fn blank_line_is_a_parse_error() {
    let input = lines(&["", "12"]);
    assert_eq!(
        calc_fuel_for_modules_basic(&input),
        Err(CalcError::ParseError { line: 0 })
    );
}

#[test]
fn error_reports_the_first_unparseable_line() {
    let input = lines(&["1", "2", "9999999999", "oops"]);
    assert_eq!(
        calc_fuel_for_modules_basic(&input),
        Err(CalcError::ParseError { line: 2 })
    );
}
