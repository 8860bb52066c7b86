//! The fixed-point arithmetic, exercised on concrete values.

use lil_city::math::Coord;
use lil_city::math::Position;
use lil_city::math::Scalar;
use lil_city::math::Vector;
use lil_city::units;

#[test]
fn test_sqrts() {
    for i in 0..5000 {
        test_sqrt_err(i);
    }
}

fn test_sqrt_err(num: i32) {
    let val: Scalar = Scalar::from(num);

    let root = val.rough_sqrt();
    let approx = root.squared();

    // very generous test
    assert!(
        val - Scalar::from(1) < approx && approx <= val,
        "rough_sqrt of {num} is off: root bits {}, squared bits {}",
        root.into_bits(),
        approx.into_bits()
    );
}

fn test_small_sqrt(num: i64) {
    let val = Scalar::from_bits(num);

    let root = val.rough_sqrt();
    let approx = root.squared();

    // very generous test
    assert!(
        (val - approx).squared() < Scalar::from(1),
        "rough_sqrt of bits {num} is off: root bits {}, squared bits {}",
        root.into_bits(),
        approx.into_bits()
    );
}

#[test]
fn test_small_sqrts_exhaustive() {
    println!("Testing");
    let max_val: Scalar = Scalar::from(8);
    for val in 0..max_val.into_bits() {
        test_small_sqrt(val);
    }
}

#[test]
fn scalar_arithmetic_is_exact() {
    assert_eq!((Scalar::from(3) + Scalar::from(4)).into_bits(), 7 * 65536);
    assert_eq!((Scalar::from(3) - Scalar::from(4)).into_bits(), -65536);
    assert_eq!((Scalar::from(3) * Scalar::from(4)).into_bits(), 12 * 65536);
    assert_eq!((Scalar::from(7) / Scalar::from(2)).into_bits(), 7 * 65536 / 2);
    // division truncates toward zero
    assert_eq!((Scalar::from(-7) / Scalar::from(2)).into_bits(), -7 * 65536 / 2);
    // multiplication rounds toward negative infinity
    assert_eq!((Scalar::from_bits(-1) * Scalar::from_bits(1)).into_bits(), -1);
    assert_eq!((Scalar::from_bits(1) * Scalar::from_bits(1)).into_bits(), 0);
}

#[test]
fn scalar_arithmetic_wraps() {
    assert_eq!(
        (Scalar::from_bits(i64::MAX) + Scalar::from_bits(1)).into_bits(),
        i64::MIN
    );
    assert_eq!(
        (Scalar::from_bits(i64::MIN) - Scalar::from_bits(1)).into_bits(),
        i64::MAX
    );
}

#[test]
fn scalar_ordering() {
    assert!(Scalar::from(-3) < Scalar::from(2));
    assert!(Scalar::from(5) > Scalar::from(4));
    assert!(Coord::from(1) < Coord::from(2));
    assert_eq!(Scalar::default().into_bits(), 0);
}

#[test]
fn vector_products() {
    let a = Vector::new(Scalar::from(3), Scalar::from(4));
    let b = Vector::new(Scalar::from(-1), Scalar::from(2));
    assert_eq!(Vector::inner(a, b).into_bits(), 5 * 65536);
    assert_eq!(a.squared().into_bits(), 25 * 65536);
    // the rough square root carries about 8 fractional bits
    let mag = a.magnitude();
    assert!((mag - Scalar::from(5)).into_bits().abs() <= 512);
}

#[test]
fn position_displacement_round_trip() {
    let p = Position::new(Coord::from(10), Coord::from(-2));
    let d = Vector::new(Scalar::from(1), Scalar::from(5));
    let q = p + d;
    assert_eq!((q - p).x.into_bits(), 65536);
    assert_eq!((q - p).y.into_bits(), 5 * 65536);
    assert_eq!((q - d).x.into_bits(), p.x.into_bits());
}

#[test]
fn moments_and_instants() {
    assert_eq!(units::moments(16).into_bits(), 65536);
    assert_eq!(units::moments(1).into_bits(), 4096);
    assert_eq!(units::moments(-3).into_bits(), -3 * 4096);
    assert_eq!(units::instants(1).into_bits(), 1);
    assert_eq!(units::instants(7).into_bits(), 7);
}
