use recipes::decimal::format_fixed;

#[test]
fn whole_numbers_round_half_to_even() {
    assert_eq!(format_fixed(2_500_000, 6, 0), "2");
    assert_eq!(format_fixed(3_500_000, 6, 0), "4");
    assert_eq!(format_fixed(3_499_999, 6, 0), "3");
    assert_eq!(format_fixed(3_500_001, 6, 0), "4");
}

#[test]
fn two_decimals_are_padded() {
    assert_eq!(format_fixed(1_234_567, 6, 2), "1.23");
    assert_eq!(format_fixed(1_005_000, 6, 2), "1.00");
    assert_eq!(format_fixed(1_015_000, 6, 2), "1.02");
    assert_eq!(format_fixed(50_000, 6, 2), "0.05");
    assert_eq!(format_fixed(0, 6, 2), "0.00");
}

#[test]
fn negative_values_have_a_sign() {
    assert_eq!(format_fixed(-1_500_000, 6, 0), "-2");
    assert_eq!(format_fixed(-1_250, 3, 1), "-1.2");
}

#[test]
fn extreme_values_format() {
    assert_eq!(format_fixed(i128::MAX, 0, 0), "170141183460469231731687303715884105727");
    assert_eq!(format_fixed(i128::MIN, 0, 0), "-170141183460469231731687303715884105728");
}
