use lx_audiolabs::level::Level;
use lx_audiolabs::wide::Wide;

fn f(x: f32) -> Level {
    Level::from_bits(x.to_bits())
}

fn w(x: f64) -> Wide {
    Wide { bits: x.to_bits() }
}

const SAMPLES: [f32; 12] = [
    0.0,
    -0.0,
    1.0,
    -1.0,
    0.5,
    -90.0,
    1.0e-30,
    -1.0e-30,
    f32::INFINITY,
    f32::NEG_INFINITY,
    f32::MAX,
    f32::NAN,
];

#[test]
fn levels_order_as_numbers() {
    for a in SAMPLES {
        for b in SAMPLES {
            assert_eq!(f(a).gt(f(b)), a > b);
            assert_eq!(f(a).ge(f(b)), a >= b);
            assert_eq!(f(a).equals(f(b)), a == b);
        }
        assert_eq!(f(a).is_nan(), a.is_nan());
        assert_eq!(f(a).is_finite(), a.is_finite());
        assert_eq!(f(a).abs().bits, a.abs().to_bits());
    }
}

#[test]
fn levels_take_the_larger_and_the_smaller() {
    assert_eq!(f(1.0).max(f(2.0)), f(2.0));
    assert_eq!(f(1.0).min(f(2.0)), f(1.0));
    assert_eq!(f(f32::NAN).max(f(-3.0)), f(-3.0));
    assert_eq!(f(-3.0).max(f(f32::NAN)), f(-3.0));
    assert_eq!(f(f32::NAN).min(f(-3.0)), f(-3.0));
}

#[test]
fn levels_are_held_between_bounds() {
    assert_eq!(f(-20.0).clamp(f(-12.0), f(12.0)), f(-12.0));
    assert_eq!(f(20.0).clamp(f(-12.0), f(12.0)), f(12.0));
    assert_eq!(f(3.5).clamp(f(-12.0), f(12.0)), f(3.5));
    assert!(f(f32::NAN).clamp(f(-12.0), f(12.0)).is_nan());
}

#[test]
fn silence_is_minus_ninety() {
    assert_eq!(Level::silence(), f(-90.0));
}

#[test]
fn wide_numbers_order_as_numbers() {
    let samples = [0.0f64, -0.0, 1.0, -1.0, 1.0e-300, f64::INFINITY, f64::NEG_INFINITY, f64::NAN];
    for a in samples {
        for b in samples {
            assert_eq!(w(a).gt(w(b)), a > b);
        }
        assert_eq!(w(a).is_finite(), a.is_finite());
        assert_eq!(w(a).is_zero(), a == 0.0);
    }
}
