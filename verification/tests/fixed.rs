use yasa::fixed::clamp_to;
use yasa::fixed::floor_div;
use yasa::fixed::narrow;
use yasa::fixed::sat_add;
use yasa::fixed::sat_sub;
use yasa::fixed::scale_floor;
use yasa::fixed::FAR;
use yasa::fixed::UNIT;

#[test]
fn unit_is_one_million() {
    assert_eq!(UNIT, 1_000_000);
}

#[test]
fn narrow_saturates_at_both_ends() {
    assert_eq!(narrow(5), 5);
    assert_eq!(narrow(-5), -5);
    assert_eq!(narrow(i64::MAX as i128 + 1), i64::MAX);
    assert_eq!(narrow(i64::MIN as i128 - 1), i64::MIN);
}

#[test]
fn saturating_sum_and_difference() {
    assert_eq!(sat_add(2, 3), 5);
    assert_eq!(sat_add(i64::MAX, 1), i64::MAX);
    assert_eq!(sat_add(i64::MIN, -1), i64::MIN);
    assert_eq!(sat_sub(2, 3), -1);
    assert_eq!(sat_sub(i64::MIN, 1), i64::MIN);
    assert_eq!(sat_sub(i64::MAX, -1), i64::MAX);
}

#[test]
fn floor_division_rounds_towards_minus_infinity() {
    assert_eq!(floor_div(7, 2), 3);
    assert_eq!(floor_div(-7, 2), -4);
    assert_eq!(floor_div(-8, 2), -4);
    assert_eq!(floor_div(0, 5), 0);
    assert_eq!(floor_div(-1, 1_000_000), -1);
}

#[test]
fn scale_floor_handles_signs_and_remainders() {
    assert_eq!(scale_floor(7, 3, 2), 10);
    assert_eq!(scale_floor(-7, 3, 2), -11);
    assert_eq!(scale_floor(7, -3, 2), -11);
    assert_eq!(scale_floor(-7, -3, 2), 10);
    assert_eq!(scale_floor(-6, 3, 2), -9);
    assert_eq!(scale_floor(0, 3, 2), 0);
}

#[test]
fn scale_floor_stops_at_far() {
    let big: i128 = (1i128 << 64) - 1;
    assert_eq!(scale_floor(big, big, 1), FAR);
    assert_eq!(scale_floor(-big, big, 1), -FAR);
    assert_eq!(scale_floor(big, big, big), big);
}

#[test]
fn clamp_keeps_lower_bound_for_empty_range() {
    assert_eq!(clamp_to(5, 0, 10), 5);
    assert_eq!(clamp_to(-5, 0, 10), 0);
    assert_eq!(clamp_to(50, 0, 10), 10);
    assert_eq!(clamp_to(5, 0, -1), 0);
}
