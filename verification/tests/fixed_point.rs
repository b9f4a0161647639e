use shark_sim::fixed::{
    fx_add, fx_clamp, fx_div, fx_mean, fx_mul, fx_norm, fx_sub, int_sqrt, saturate, LIMIT, SCALE,
};
use shark_sim::trig::{fx_atan2, heading_vector, wrap_angle, HALF_PI, PI, TWO_PI};

#[test]
fn sums_and_differences_are_exact_in_range() {
    assert_eq!(fx_add(1_500_000, 2_250_000), 3_750_000);
    assert_eq!(fx_sub(1_500_000, 2_250_000), -750_000);
}

#[test]
fn sums_saturate_at_the_limit() {
    assert_eq!(fx_add(LIMIT, 1), LIMIT);
    assert_eq!(fx_sub(-LIMIT, 1), -LIMIT);
    assert_eq!(fx_add(i64::MAX, i64::MAX), LIMIT);
    assert_eq!(saturate(-(LIMIT as i128) - 5), -LIMIT);
}

#[test]
fn products_round_to_nearest() {
    assert_eq!(fx_mul(1_500_000, 2_000_000), 3_000_000);
    assert_eq!(fx_mul(1, 500_000), 1);
    assert_eq!(fx_mul(1, 499_999), 0);
    assert_eq!(fx_mul(-1, 500_000), -1);
    assert_eq!(fx_mul(333_333, 3_000_000), 999_999);
}

#[test]
fn quotients_round_to_nearest_and_survive_zero() {
    assert_eq!(fx_div(1_000_000, 3_000_000), 333_333);
    assert_eq!(fx_div(2_000_000, 3_000_000), 666_667);
    assert_eq!(fx_div(-2_000_000, 3_000_000), -666_667);
    assert_eq!(fx_div(2_000_000, -3_000_000), -666_667);
    assert_eq!(fx_div(5_000_000, 0), 0);
    assert_eq!(fx_mean(10, 4), 3);
    assert_eq!(fx_mean(-10, 4), -3);
    assert_eq!(fx_mean(7, 0), 0);
}

#[test]
fn clamp_lets_the_upper_bound_win() {
    assert_eq!(fx_clamp(5, 0, 10), 5);
    assert_eq!(fx_clamp(-5, 0, 10), 0);
    assert_eq!(fx_clamp(15, 0, 10), 10);
    assert_eq!(fx_clamp(5, 10, 0), 0);
}

#[test]
fn square_roots_round_down() {
    assert_eq!(int_sqrt(0), 0);
    assert_eq!(int_sqrt(15), 3);
    assert_eq!(int_sqrt(16), 4);
    assert_eq!(int_sqrt(u128::MAX), u64::MAX);
    assert_eq!(fx_norm(3_000_000, 4_000_000), 5_000_000);
    assert_eq!(fx_norm(-3_000_000, 4_000_000), 5_000_000);
    assert_eq!(fx_norm(1, 1), 1);
    assert_eq!(fx_norm(i64::MIN, i64::MIN), LIMIT);
}

#[test]
fn angles_wrap_into_half_open_turn() {
    assert_eq!(wrap_angle(0), 0);
    assert_eq!(wrap_angle(PI), PI);
    assert_eq!(wrap_angle(-PI), PI);
    assert_eq!(wrap_angle(PI + 1), -PI + 1);
    assert_eq!(wrap_angle(TWO_PI), 0);
    assert_eq!(wrap_angle(-TWO_PI * 5 + 7), 7);
    assert_eq!(wrap_angle(TWO_PI * 1000 - 3), -3);
}

#[test]
fn heading_zero_points_along_the_first_axis() {
    assert_eq!(heading_vector(0), (SCALE, 0));
    assert_eq!(heading_vector(TWO_PI), (SCALE, 0));
}

#[test]
fn unit_vectors_match_the_real_functions() {
    let mut h: i64 = -4 * TWO_PI;
    while h <= 4 * TWO_PI {
        let (c, s) = heading_vector(h);
        let angle = h as f64 / 1e6;
        assert!((c as f64 / 1e6 - angle.cos()).abs() < 5e-6, "cos at {}", h);
        assert!((s as f64 / 1e6 - angle.sin()).abs() < 5e-6, "sin at {}", h);
        h += 12_347;
    }
}

#[test]
fn quarter_turns_are_exact() {
    assert_eq!(heading_vector(HALF_PI), (0, SCALE));
    assert_eq!(heading_vector(-HALF_PI), (0, -SCALE));
    assert_eq!(heading_vector(PI).1.abs() <= 2, true);
    assert_eq!(heading_vector(PI).0, -SCALE);
}

#[test]
fn bearings_match_the_real_function() {
    let mut k: i64 = 0;
    while k < 720 {
        let angle = (k as f64) * std::f64::consts::PI / 360.0 - std::f64::consts::PI + 0.001;
        let x = (angle.cos() * 3.0e6) as i64;
        let y = (angle.sin() * 3.0e6) as i64;
        let got = fx_atan2(y, x) as f64 / 1e6;
        let want = (y as f64).atan2(x as f64);
        assert!((got - want).abs() < 5e-6, "atan2({}, {}) = {} not {}", y, x, got, want);
        k += 1;
    }
}

#[test]
fn bearings_of_the_axes() {
    assert_eq!(fx_atan2(0, 0), 0);
    assert_eq!(fx_atan2(0, 5), 0);
    assert_eq!(fx_atan2(5, 0), HALF_PI);
    assert_eq!(fx_atan2(-5, 0), -HALF_PI);
    assert_eq!(fx_atan2(0, -5), PI);
    assert_eq!(fx_atan2(7, 7), 785_398);
}
