//! The bit-pattern comparisons, held against real float arithmetic.

use std::cmp::Ordering;
use optlib::bits::{abs_bits, bits_finite, bits_nan, compare_floats, fit_better, le_ieee, with_sign_of};
use optlib::exact::{abs_diff_exceeds, draw_hits};

fn b(x: f64) -> u64 {
    x.to_bits()
}

#[test]
fn test_compare_floats() {
    assert_eq!(compare_floats(b(f64::INFINITY), b(f64::INFINITY)), Ordering::Equal);
    assert_eq!(compare_floats(b(f64::NAN), b(f64::NAN)), Ordering::Equal);
    assert_eq!(compare_floats(b(1.0_f64), b(f64::NAN)), Ordering::Less);
    assert_eq!(compare_floats(b(f64::NAN), b(1.0_f64)), Ordering::Greater);
    assert_eq!(compare_floats(b(2.0_f64), b(1.0_f64)), Ordering::Greater);
    assert_eq!(compare_floats(b(2.0_f64), b(3.0_f64)), Ordering::Less);
    assert_eq!(compare_floats(b(3.0_f64), b(3.0_f64)), Ordering::Equal);
}

#[test]
fn compare_floats_negative_and_zero() {
    assert_eq!(compare_floats(b(-1.0), b(1.0)), Ordering::Less);
    assert_eq!(compare_floats(b(-2.0), b(-1.0)), Ordering::Less);
    assert_eq!(compare_floats(b(0.0), b(-0.0)), Ordering::Equal);
    assert_eq!(compare_floats(b(-0.5), b(0.0)), Ordering::Less);
    assert!(fit_better(b(-3.0), b(2.0)));
    assert!(fit_better(b(2.0), b(f64::NEG_INFINITY)));
}

#[test]
fn classification_matches_std() {
    for x in [0.0, -0.0, 1.5, -7.25, 1e300, f64::INFINITY, f64::NEG_INFINITY, f64::NAN, f64::MIN_POSITIVE / 4.0] {
        assert_eq!(bits_finite(b(x)), x.is_finite(), "finite of {x}");
        assert_eq!(bits_nan(b(x)), x.is_nan(), "nan of {x}");
    }
}

#[test]
fn le_ieee_matches_std() {
    let values = [
        -1e300, -5.5, -0.0, 0.0, 1e-308, 2.25, 7.0, 1e300, f64::INFINITY, f64::NEG_INFINITY,
        f64::NAN,
    ];
    for &x in &values {
        for &y in &values {
            assert_eq!(le_ieee(b(x), b(y)), x <= y, "le of {x} and {y}");
        }
    }
}

#[test]
fn sign_transfer_matches_std() {
    assert_eq!(with_sign_of(b(3.5), b(-1.0)), b(-3.5));
    assert_eq!(with_sign_of(b(-3.5), b(1.0)), b(3.5));
    assert_eq!(abs_bits(b(-2.5)), b(2.5));
    assert_eq!(abs_bits(b(2.5)), b(2.5));
}

#[test]
fn abs_diff_exceeds_matches_std() {
    let values = [-100.0, -1.5, -1e-9, 0.0, 1e-9, 0.5, 1.0, 1.5, 100.0];
    let deltas = [0.0, 1e-9, 0.5, 2.0, 1e300];
    for &x in &values {
        for &y in &values {
            for &d in &deltas {
                assert_eq!(
                    abs_diff_exceeds(b(x), b(y), b(d)),
                    (x - y).abs() > d,
                    "delta compare of {x} {y} {d}",
                );
            }
        }
    }
    // The comparison is exact where float subtraction rounds: these two
    // values differ by exactly one, so the difference never exceeds one.
    let big = 2f64.powi(53);
    assert!(!abs_diff_exceeds(b(big + 2.0), b(big), b(2.0)));
    assert!(abs_diff_exceeds(b(big + 2.0), b(big), b(1.0)));
    // Rounded float subtraction loses the small term here; the exact
    // comparison does not.
    assert!(abs_diff_exceeds(b(-100.0), b(1e300), b(1e300)));
    assert!(!((-100.0f64 - 1e300).abs() > 1e300));
    // Infinite and NaN thresholds.
    assert!(!abs_diff_exceeds(b(1.0), b(5.0), b(f64::INFINITY)));
    assert!(abs_diff_exceeds(b(1.0), b(5.0), b(f64::NEG_INFINITY)));
    assert!(!abs_diff_exceeds(b(1.0), b(5.0), b(f64::NAN)));
    // A negative threshold is always exceeded.
    assert!(abs_diff_exceeds(b(1.0), b(1.0), b(-1.0)));
}

#[test]
fn draw_hits_bounds() {
    // A zero or negative probability admits no draw; a draw of one hundred
    // percent admits every draw.
    for draw in [0u64, 1, u64::MAX / 2, u64::MAX] {
        assert!(!draw_hits(draw, b(0.0)));
        assert!(!draw_hits(draw, b(-5.0)));
        assert!(draw_hits(draw, b(100.0)));
        assert!(draw_hits(draw, b(f64::INFINITY)));
        assert!(!draw_hits(draw, b(f64::NAN)));
    }
    // Fifty percent cuts the draw space in half.
    assert!(draw_hits(0, b(50.0)));
    assert!(draw_hits(u64::MAX / 2 - 1, b(50.0)));
    assert!(!draw_hits(u64::MAX / 2 + 1, b(50.0)));
    assert!(!draw_hits(u64::MAX, b(50.0)));
}
