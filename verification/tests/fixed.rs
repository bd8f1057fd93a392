use rtty::fixed::{
    add_samples, div_samples, divide, lifted, mul_samples, narrow, power_of_two, saturate,
    sub_samples, MAX_PRECISION,
};

#[test]
fn the_binary_point_stays_within_the_word() {
    assert_eq!(MAX_PRECISION, 31);
}

#[test]
fn saturate_keeps_what_fits_and_pins_the_rest() {
    assert_eq!(saturate(0), 0);
    assert_eq!(saturate(-7), -7);
    assert_eq!(saturate(2147483647), i32::MAX);
    assert_eq!(saturate(2147483648), i32::MAX);
    assert_eq!(saturate(-2147483648), i32::MIN);
    assert_eq!(saturate(-2147483649), i32::MIN);
    assert_eq!(saturate(i128::MAX), i32::MAX);
    assert_eq!(saturate(i128::MIN), i32::MIN);
}

#[test]
fn powers_of_two() {
    assert_eq!(power_of_two(0), 1);
    assert_eq!(power_of_two(1), 2);
    assert_eq!(power_of_two(31), 2147483648);
    assert_eq!(power_of_two(62), 4611686018427387904);
}

#[test]
fn divide_rounds_toward_zero() {
    assert_eq!(divide(7, 2), 3);
    assert_eq!(divide(-7, 2), -3);
    assert_eq!(divide(7, -2), -3);
    assert_eq!(divide(-7, -2), 3);
    assert_eq!(divide(0, -5), 0);
    assert_eq!(divide(6, 3), 2);
    assert_eq!(divide(1, 1000), 0);
    assert_eq!(divide(-1, 1000), 0);
}

#[test]
fn lifted_multiplies_by_a_power_of_two() {
    assert_eq!(lifted(3, 0, 0), 3);
    assert_eq!(lifted(3, 2, 5), 24);
    assert_eq!(lifted(-3, 0, 31), -3 * 2147483648);
    assert_eq!(lifted(i32::MIN, 0, 31), -(1i128 << 62));
}

#[test]
fn narrow_cuts_bits_off_toward_zero() {
    assert_eq!(narrow(13, 2), 3);
    assert_eq!(narrow(-13, 2), -3);
    assert_eq!(narrow(13, 0), 13);
    assert_eq!(narrow(1i128 << 62, 31), i32::MAX);
    assert_eq!(narrow(-(1i128 << 62), 31), i32::MIN);
    assert_eq!(narrow(1i128 << 62, 62), 1);
}

#[test]
fn sample_sums_and_differences() {
    assert_eq!(add_samples(3, 1, 1, 2), 7);
    assert_eq!(add_samples(1, 2, 3, 1), 7);
    assert_eq!(sub_samples(1, 2, 3, 1), -5);
    assert_eq!(sub_samples(3, 1, 1, 2), 5);
    assert_eq!(add_samples(i32::MAX, 0, 1, 0), i32::MAX);
    assert_eq!(sub_samples(i32::MIN, 0, 1, 0), i32::MIN);
    assert_eq!(add_samples(1, 0, 0, 31), i32::MAX);
    assert_eq!(add_samples(-1, 0, 0, 31), i32::MIN);
    assert_eq!(sub_samples(0, 31, 1, 0), i32::MIN);
}

#[test]
fn sample_products() {
    assert_eq!(mul_samples(3, 0, 4, 0), 12);
    // One half times one half, both with 16 fractional bits.
    assert_eq!(mul_samples(32768, 16, 32768, 16), 16384);
    assert_eq!(mul_samples(3, 1, 9, 2), 13);
    assert_eq!(mul_samples(-3, 1, 9, 2), -13);
    assert_eq!(mul_samples(i32::MIN, 0, i32::MIN, 0), i32::MAX);
    assert_eq!(mul_samples(i32::MIN, 31, i32::MIN, 31), i32::MAX);
    assert_eq!(mul_samples(i32::MIN, 31, i32::MAX, 31), -i32::MAX);
}

#[test]
fn sample_quotients() {
    assert_eq!(div_samples(12, 0, 4, 0), 3);
    assert_eq!(div_samples(5, 0, 0, 0), 0);
    assert_eq!(div_samples(0, 0, 0, 0), 0);
    // One by three with 16 fractional bits.
    assert_eq!(div_samples(65536, 16, 196608, 16), 21845);
    assert_eq!(div_samples(-65536, 16, 196608, 16), -21845);
    assert_eq!(div_samples(6, 1, 2, 2), 24);
    assert_eq!(div_samples(12, 2, 3, 1), 8);
    assert_eq!(div_samples(i32::MIN, 0, 1, 31), i32::MIN);
    assert_eq!(div_samples(i32::MAX, 0, 1, 31), i32::MAX);
    assert_eq!(div_samples(i32::MIN, 31, -1, 0), i32::MAX);
}
