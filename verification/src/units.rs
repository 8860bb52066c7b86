//! Names for the quantities the simulation works in, and the two clock
//! granularities: moments, the coarse render-driven unit, and instants,
//! the finest representable step of simulation time.

use vstd::prelude::*;

verus! {

/// An absolute instant of simulation time.
pub type Time = crate::math::Coord;

/// A span of simulation time.
pub type Duration = crate::math::Scalar;

/// How fast something moves, in units per unit of time.
pub type Speed = crate::math::Scalar;

/// How far apart two things are.
pub type Distance = crate::math::Scalar;

/// A difference between two positions.
pub type Displacement = crate::math::Vector;

/// A rate of change of position.
pub type Velocity = crate::math::Vector;

/// A location in the plane.
pub type Position = crate::math::Position;

/// A plain vector, for products that mix quantities, such as the inner
/// product of a displacement with a velocity.
pub type Vector = crate::math::Vector;

/// A plain scalar.
pub type Scalar = crate::math::Scalar;

/// A plain coordinate.
pub type Coord = crate::math::Coord;

/// Moments per unit of time: things meant to be seen last at least one
/// moment, so a frame rate above this count will show them.
pub const MOMENT_RATE: u16 = 16;

/// A duration of `num` moments.
pub fn moments(num: i32) -> (r: Duration)
    ensures
        r@ == num * 4096,
{
    let as_scalar: Scalar = crate::math::Scalar::from(num);
    proof {
        vstd::arithmetic::div_mod::lemma_div_by_multiple(
            if num >= 0 {
                num * 4096
            } else {
                -(num * 4096)
            },
            16,
        );
        assert(num * 65536 == (num * 4096) * 16) by (nonlinear_arith);
    }
    as_scalar / (MOMENT_RATE as i64)
}

/// A duration of `num` indivisible instants: the smallest representable
/// steps of simulation time.
pub fn instants(num: i64) -> (r: Duration)
    ensures
        r@ == num as int,
{
    crate::math::Scalar::from_bits(num)
}

} // verus!
