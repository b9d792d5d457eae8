use submarine::fixed::{isqrt, MICRO};
use submarine::trig::{atan2, cos, sin, EIGHTH_TURN, FULL_TURN, HALF_TURN, QUARTER_TURN};

#[test]
fn sine_and_cosine_are_exact_at_the_quarter_turns() {
    assert_eq!(sin(0), 0);
    assert_eq!(cos(0), MICRO);
    assert_eq!(sin(QUARTER_TURN), MICRO);
    assert_eq!(cos(QUARTER_TURN), 0);
    assert_eq!(sin(HALF_TURN), 0);
    assert_eq!(cos(HALF_TURN), -MICRO);
    assert_eq!(sin(3 * QUARTER_TURN), -MICRO);
    assert_eq!(cos(3 * QUARTER_TURN), 0);
    assert_eq!(sin(FULL_TURN), 0);
    assert_eq!(sin(-QUARTER_TURN), -MICRO);
}

#[test]
fn sine_at_a_sixth_of_a_half_turn() {
    // 16 p / (5 pi^2 - 4 p) with p = x (pi - x) at x = 523_599
    assert_eq!(sin(523_599), 500_000);
}

#[test]
fn sine_stays_close_to_the_true_sine() {
    let mut a: i64 = -20_000_000;
    while a <= 20_000_000 {
        let got = sin(a) as f64 / 1e6;
        let want = (a as f64 / 1e6).sin();
        assert!((got - want).abs() < 0.002, "sin({}) = {} against {}", a, got, want);
        let got = cos(a) as f64 / 1e6;
        let want = (a as f64 / 1e6).cos();
        assert!((got - want).abs() < 0.002, "cos({}) = {} against {}", a, got, want);
        a += 7_919;
    }
}

#[test]
fn sine_is_defined_at_the_ends_of_the_range() {
    for a in [i64::MIN, i64::MIN + 1, i64::MAX - 1, i64::MAX] {
        assert!(sin(a).abs() <= MICRO);
        assert!(cos(a).abs() <= MICRO);
    }
}

#[test]
fn arctangent_is_exact_on_axes_and_diagonals() {
    assert_eq!(atan2(0, 0), 0);
    assert_eq!(atan2(0, 5), 0);
    assert_eq!(atan2(5, 0), QUARTER_TURN);
    assert_eq!(atan2(0, -5), HALF_TURN);
    assert_eq!(atan2(-5, 0), -QUARTER_TURN);
    assert_eq!(atan2(7, 7), EIGHTH_TURN);
    assert_eq!(atan2(7, -7), HALF_TURN - EIGHTH_TURN);
    assert_eq!(atan2(-7, -7), -(HALF_TURN - EIGHTH_TURN));
    assert_eq!(atan2(-7, 7), -EIGHTH_TURN);
}

#[test]
fn arctangent_of_one_half() {
    // r = 0.5: r (pi/4 + (1 - r) (0.2447 + 0.0663 r)) = 0.4621615 by the same roundings
    assert_eq!(atan2(1, 2), 462_161);
}

#[test]
fn arctangent_stays_close_to_the_true_arctangent() {
    let steps: i64 = 97;
    for i in -steps..=steps {
        for j in -steps..=steps {
            if i == 0 && j == 0 {
                continue;
            }
            let y = i * 1_234_567;
            let x = j * 7_654_321;
            let got = atan2(y, x) as f64 / 1e6;
            let want = (y as f64).atan2(x as f64);
            let mut diff = (got - want).abs();
            if diff > 3.0 {
                diff = (diff - 2.0 * std::f64::consts::PI).abs();
            }
            assert!(diff < 0.002, "atan2({}, {}) = {} against {}", y, x, got, want);
        }
    }
}

#[test]
fn arctangent_takes_the_extreme_coordinates() {
    assert_eq!(atan2(i64::MIN, i64::MIN), -(HALF_TURN - EIGHTH_TURN));
    assert_eq!(atan2(i64::MAX, i64::MAX), EIGHTH_TURN);
    assert_eq!(atan2(i64::MIN, 0), -QUARTER_TURN);
    assert_eq!(atan2(0, i64::MIN), HALF_TURN);
}

#[test]
fn integer_square_root() {
    assert_eq!(isqrt(0), 0);
    assert_eq!(isqrt(1), 1);
    assert_eq!(isqrt(3), 1);
    assert_eq!(isqrt(4), 2);
    assert_eq!(isqrt(99), 9);
    assert_eq!(isqrt(100), 10);
    assert_eq!(isqrt(2_500_000_000_000_000), 50_000_000);
    assert_eq!(isqrt(2_499_999_999_999_999), 49_999_999);
    assert_eq!(isqrt(u128::MAX), u64::MAX);
}
