use planets::scalar::{Color, Real, Vector2, HALF_BITS, INFINITY_BITS, SIGN_BIT};

fn number(value: f64) -> Real {
    Real::from_bits(value.to_bits())
}

#[test]
fn a_real_is_its_bit_pattern() {
    assert_eq!(number(1.5).to_bits(), 1.5f64.to_bits());
    assert_eq!(Real::from_bits(7).to_bits(), 7);
    assert_eq!(number(1.0).to_bits(), 0x3FF0_0000_0000_0000);
}

#[test]
fn zero_is_positive_zero() {
    assert_eq!(Real::zero().to_bits(), 0.0f64.to_bits());
    assert_eq!(Vector2::zero(), Vector2::new(number(0.0), number(0.0)));
    assert_ne!(Real::zero(), number(-0.0));
}

#[test]
fn the_constants_are_the_encodings_they_name() {
    assert_eq!(SIGN_BIT, (-0.0f64).to_bits());
    assert_eq!(INFINITY_BITS, f64::INFINITY.to_bits());
    assert_eq!(HALF_BITS, 0.5f32.to_bits());
}

#[test]
fn not_a_number_is_recognised() {
    assert!(number(f64::NAN).is_nan());
    assert!(number(-f64::NAN).is_nan());
    assert!(!number(f64::INFINITY).is_nan());
    assert!(!number(f64::NEG_INFINITY).is_nan());
    assert!(!number(0.0).is_nan());
    assert!(!number(-1.0e300).is_nan());
}

#[test]
fn less_than_agrees_with_the_numbers() {
    let samples = [
        f64::NEG_INFINITY,
        -1.0e300,
        -2.0,
        -1.0,
        -f64::MIN_POSITIVE,
        -5.0e-324,
        -0.0,
        0.0,
        5.0e-324,
        f64::MIN_POSITIVE,
        0.5,
        1.0,
        5.972e24,
        1.989e30,
        f64::MAX,
        f64::INFINITY,
        f64::NAN,
    ];
    for a in samples {
        for b in samples {
            assert_eq!(number(a).less_than(number(b)), a < b, "{} < {}", a, b);
        }
    }
}

#[test]
fn zero_has_two_signs() {
    assert!(number(0.0).is_zero());
    assert!(number(-0.0).is_zero());
    assert!(!number(5.0e-324).is_zero());
    assert!(!number(-1.0).is_zero());
    assert!(!number(f64::NAN).is_zero());
}

#[test]
fn colours_are_plain_values() {
    let color = Color { red: 1, green: 2, blue: 3, alpha: 4 };
    let copy = color;
    assert_eq!(color, copy);
}
