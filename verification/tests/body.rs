//! The kinematic body on concrete trajectories.

use lil_city::math::Coord;
use lil_city::math::Position;
use lil_city::math::Scalar;
use lil_city::math::Vector;
use lil_city::space::Body;

fn pos(x: i32, y: i32) -> Position {
    Position::new(Coord::from(x), Coord::from(y))
}

fn vel(x: i32, y: i32) -> Vector {
    Vector::new(Scalar::from(x), Scalar::from(y))
}

#[test]
fn position_extrapolates_linearly() {
    let body = Body::new(pos(0, 0), vel(50, 0), Coord::from(0));
    let at2 = body.position(Coord::from(2));
    assert_eq!(at2.x.into_bits(), 100 * 65536);
    assert_eq!(at2.y.into_bits(), 0);
}

#[test]
fn interpolation_of_constant_velocity() {
    // position(t3) - position(t2) == (position(t2) - position(t1))
    //     * (t3 - t2) / (t2 - t1), for exactly representable inputs
    let body = Body::new(pos(7, -3), vel(12, -4), Coord::from(0));
    let t1 = Coord::from(1);
    let t2 = Coord::from(3);
    let t3 = Coord::from(8);
    let p1 = body.position(t1);
    let p2 = body.position(t2);
    let p3 = body.position(t3);
    let lhs = p3 - p2;
    let rhs = (p2 - p1) * ((t3 - t2) / (t2 - t1));
    assert_eq!(lhs.x.into_bits(), rhs.x.into_bits());
    assert_eq!(lhs.y.into_bits(), rhs.y.into_bits());
    // the same identity with the product taken before the quotient
    let rhs2 = ((p2 - p1) * (t3 - t2)) / (t2 - t1);
    assert_eq!(lhs.x.into_bits(), rhs2.x.into_bits());
    assert_eq!(lhs.y.into_bits(), rhs2.y.into_bits());
}

#[test]
fn still_bodies_compare_regardless_of_anchor_time() {
    let a = Body::new(pos(5, 5), vel(0, 0), Coord::from(3));
    let b = Body::new(pos(5, 5), vel(0, 0), Coord::from(9));
    assert!(a == b);

    let c = Body::new(pos(5, 5), vel(1, 0), Coord::from(3));
    let d = Body::new(pos(5, 5), vel(1, 0), Coord::from(9));
    assert!(c != d);
    let e = Body::new(pos(5, 5), vel(1, 0), Coord::from(3));
    assert!(c == e);

    let f = Body::new(pos(6, 5), vel(0, 0), Coord::from(3));
    assert!(a != f);
}

#[test]
fn split_keeps_position_continuous() {
    let body = Body::new(pos(0, 0), vel(10, 0), Coord::from(0));
    let turned = body.split(vel(0, 10), Coord::from(2));
    let at2 = turned.position(Coord::from(2));
    assert_eq!(at2.x.into_bits(), 20 * 65536);
    assert_eq!(at2.y.into_bits(), 0);
    let at3 = turned.position(Coord::from(3));
    assert_eq!(at3.x.into_bits(), 20 * 65536);
    assert_eq!(at3.y.into_bits(), 10 * 65536);
}

#[test]
fn with_end_point_reaches_the_end() {
    let body = Body::with_end_point(pos(0, 0), pos(10, 0), Coord::from(0), Scalar::from(5));
    let arrived = body.position(Coord::from(5));
    assert_eq!(arrived.x.into_bits(), 10 * 65536);

    // an instantaneous trip freezes at the destination
    let frozen = Body::with_end_point(pos(0, 0), pos(10, 0), Coord::from(0), Scalar::from(0));
    assert_eq!(frozen.velocity().x.into_bits(), 0);
    assert_eq!(frozen.position(Coord::from(99)).x.into_bits(), 10 * 65536);
}

#[test]
fn freeze_stops_a_body_where_it_stands() {
    let mut body = Body::new(pos(0, 0), vel(10, 0), Coord::from(0));
    body.freeze(Coord::from(4));
    assert_eq!(body.velocity().x.into_bits(), 0);
    assert_eq!(body.position(Coord::from(9)).x.into_bits(), 40 * 65536);
}

#[test]
fn bounce_changes_velocity_in_place() {
    let mut body = Body::new(pos(0, 0), vel(10, 0), Coord::from(0));
    body.bounce(vel(-10, 0), Coord::from(1));
    assert_eq!(body.position(Coord::from(2)).x.into_bits(), 0);
    assert_eq!(body.velocity().x.into_bits(), -10 * 65536);
}
