use vstd::prelude::*;

use crate::math::Coord;
use crate::math::Scalar;
use crate::math::fix_add;
use crate::math::fix_div;
use crate::math::fix_mul;
use crate::math::fix_neg;
use crate::math::fix_sub;
use crate::math::scalar::spec_sqrt_bits;

verus! {

/// A two-dimensional fixed-point difference: displacements, velocities.
#[derive(Clone, Copy, PartialEq, Eq, Structural, Hash, Debug)]
pub struct Vector {
    pub x: Scalar,
    pub y: Scalar,
}

/// A two-dimensional fixed-point location in the plane.
#[derive(Clone, Copy, PartialEq, Eq, Structural, Hash, Debug)]
pub struct Position {
    pub x: Coord,
    pub y: Coord,
}

/// Raw value of the fixed-point inner product of `(ax, ay)` and `(bx, by)`.
pub open spec fn vec_inner(ax: int, ay: int, bx: int, by: int) -> int {
    fix_add(fix_mul(ax, bx), fix_mul(ay, by))
}

/// Raw value of the squared length of the vector `(x, y)`.
pub open spec fn vec_squared(x: int, y: int) -> int {
    vec_inner(x, y, x, y)
}

/// Raw value of the approximate length of the vector `(x, y)`.
pub open spec fn vec_magnitude(x: int, y: int) -> int {
    spec_sqrt_bits(vec_squared(x, y))
}

impl Vector {
    /// Builds the vector with these components.
    pub fn new(x: Scalar, y: Scalar) -> (r: Vector)
        ensures
            r.x == x,
            r.y == y,
    {
        Vector { x, y }
    }

    /// The fixed-point inner product of two vectors.
    pub fn inner(self, other: Vector) -> (r: Scalar)
        ensures
            r@ == vec_inner(self.x@, self.y@, other.x@, other.y@),
    {
        self.x * other.x + self.y * other.y
    }

    /// The squared length of this vector.
    pub fn squared(self) -> (r: Scalar)
        ensures
            r@ == vec_squared(self.x@, self.y@),
    {
        Vector::inner(self, self)
    }

    /// The approximate length of this vector, through the rough square root.
    pub fn rough_magnitude(self) -> (r: Scalar)
        ensures
            r@ == vec_magnitude(self.x@, self.y@),
    {
        self.squared().rough_sqrt()
    }

    /// The length of this vector, as exactly as the square root gives it.
    pub fn magnitude(self) -> (r: Scalar)
        ensures
            r@ == vec_magnitude(self.x@, self.y@),
    {
        self.squared().sqrt()
    }
}

impl Position {
    /// Builds the position with these coordinates.
    pub fn new(x: Coord, y: Coord) -> (r: Position)
        ensures
            r.x == x,
            r.y == y,
    {
        Position { x, y }
    }
}

impl Default for Vector {
    /// The zero vector.
    fn default() -> (r: Vector)
        ensures
            r.x@ == 0,
            r.y@ == 0,
    {
        Vector { x: Scalar { bits: 0 }, y: Scalar { bits: 0 } }
    }
}

impl Default for Position {
    /// The origin.
    fn default() -> (r: Position)
        ensures
            r.x@ == 0,
            r.y@ == 0,
    {
        Position { x: Coord { bits: 0 }, y: Coord { bits: 0 } }
    }
}

// ---------------------------------------------------------------------------
// Vector arithmetic
// ---------------------------------------------------------------------------

impl std::ops::Neg for Vector {
    type Output = Vector;

    fn neg(self) -> (r: Vector) {
        Vector { x: self.x.neg(), y: self.y.neg() }
    }
}

impl vstd::std_specs::ops::NegSpecImpl for Vector {
    open spec fn obeys_neg_spec() -> bool {
        true
    }

    open spec fn neg_req(self) -> bool {
        true
    }

    open spec fn neg_spec(self) -> Vector {
        Vector {
            x: Scalar { bits: fix_neg(self.x@) as i64 },
            y: Scalar { bits: fix_neg(self.y@) as i64 },
        }
    }
}

impl std::ops::Add for Vector {
    type Output = Vector;

    fn add(self, other: Vector) -> (r: Vector) {
        Vector { x: self.x + other.x, y: self.y + other.y }
    }
}

impl vstd::std_specs::ops::AddSpecImpl for Vector {
    open spec fn obeys_add_spec() -> bool {
        true
    }

    open spec fn add_req(self, other: Vector) -> bool {
        true
    }

    open spec fn add_spec(self, other: Vector) -> Vector {
        Vector {
            x: Scalar { bits: fix_add(self.x@, other.x@) as i64 },
            y: Scalar { bits: fix_add(self.y@, other.y@) as i64 },
        }
    }
}

impl std::ops::Sub for Vector {
    type Output = Vector;

    fn sub(self, other: Vector) -> (r: Vector) {
        Vector { x: self.x - other.x, y: self.y - other.y }
    }
}

impl vstd::std_specs::ops::SubSpecImpl for Vector {
    open spec fn obeys_sub_spec() -> bool {
        true
    }

    open spec fn sub_req(self, other: Vector) -> bool {
        true
    }

    open spec fn sub_spec(self, other: Vector) -> Vector {
        Vector {
            x: Scalar { bits: fix_sub(self.x@, other.x@) as i64 },
            y: Scalar { bits: fix_sub(self.y@, other.y@) as i64 },
        }
    }
}

impl std::ops::Mul<Scalar> for Vector {
    type Output = Vector;

    fn mul(self, other: Scalar) -> (r: Vector) {
        Vector { x: self.x * other, y: self.y * other }
    }
}

impl vstd::std_specs::ops::MulSpecImpl<Scalar> for Vector {
    open spec fn obeys_mul_spec() -> bool {
        true
    }

    open spec fn mul_req(self, other: Scalar) -> bool {
        true
    }

    open spec fn mul_spec(self, other: Scalar) -> Vector {
        Vector {
            x: Scalar { bits: fix_mul(self.x@, other@) as i64 },
            y: Scalar { bits: fix_mul(self.y@, other@) as i64 },
        }
    }
}

impl std::ops::Mul<Vector> for Scalar {
    type Output = Vector;

    fn mul(self, other: Vector) -> (r: Vector) {
        Vector { x: other.x * self, y: other.y * self }
    }
}

impl vstd::std_specs::ops::MulSpecImpl<Vector> for Scalar {
    open spec fn obeys_mul_spec() -> bool {
        true
    }

    open spec fn mul_req(self, other: Vector) -> bool {
        true
    }

    open spec fn mul_spec(self, other: Vector) -> Vector {
        Vector {
            x: Scalar { bits: fix_mul(other.x@, self@) as i64 },
            y: Scalar { bits: fix_mul(other.y@, self@) as i64 },
        }
    }
}

impl std::ops::Div<Scalar> for Vector {
    type Output = Vector;

    fn div(self, other: Scalar) -> (r: Vector) {
        Vector { x: self.x / other, y: self.y / other }
    }
}

impl vstd::std_specs::ops::DivSpecImpl<Scalar> for Vector {
    open spec fn obeys_div_spec() -> bool {
        true
    }

    open spec fn div_req(self, other: Scalar) -> bool {
        other@ != 0
    }

    open spec fn div_spec(self, other: Scalar) -> Vector {
        Vector {
            x: Scalar { bits: fix_div(self.x@, other@) as i64 },
            y: Scalar { bits: fix_div(self.y@, other@) as i64 },
        }
    }
}

// ---------------------------------------------------------------------------
// Position arithmetic
// ---------------------------------------------------------------------------

impl std::ops::Add<Vector> for Position {
    type Output = Position;

    fn add(self, other: Vector) -> (r: Position) {
        Position { x: self.x + other.x, y: self.y + other.y }
    }
}

impl vstd::std_specs::ops::AddSpecImpl<Vector> for Position {
    open spec fn obeys_add_spec() -> bool {
        true
    }

    open spec fn add_req(self, other: Vector) -> bool {
        true
    }

    open spec fn add_spec(self, other: Vector) -> Position {
        Position {
            x: Coord { bits: fix_add(self.x@, other.x@) as i64 },
            y: Coord { bits: fix_add(self.y@, other.y@) as i64 },
        }
    }
}

impl std::ops::Add<Position> for Vector {
    type Output = Position;

    fn add(self, other: Position) -> (r: Position) {
        Position { x: other.x + self.x, y: other.y + self.y }
    }
}

impl vstd::std_specs::ops::AddSpecImpl<Position> for Vector {
    open spec fn obeys_add_spec() -> bool {
        true
    }

    open spec fn add_req(self, other: Position) -> bool {
        true
    }

    open spec fn add_spec(self, other: Position) -> Position {
        Position {
            x: Coord { bits: fix_add(other.x@, self.x@) as i64 },
            y: Coord { bits: fix_add(other.y@, self.y@) as i64 },
        }
    }
}

impl std::ops::Sub<Vector> for Position {
    type Output = Position;

    fn sub(self, other: Vector) -> (r: Position) {
        Position { x: self.x - other.x, y: self.y - other.y }
    }
}

impl vstd::std_specs::ops::SubSpecImpl<Vector> for Position {
    open spec fn obeys_sub_spec() -> bool {
        true
    }

    open spec fn sub_req(self, other: Vector) -> bool {
        true
    }

    open spec fn sub_spec(self, other: Vector) -> Position {
        Position {
            x: Coord { bits: fix_sub(self.x@, other.x@) as i64 },
            y: Coord { bits: fix_sub(self.y@, other.y@) as i64 },
        }
    }
}

impl std::ops::Sub for Position {
    type Output = Vector;

    fn sub(self, other: Position) -> (r: Vector) {
        Vector { x: self.x - other.x, y: self.y - other.y }
    }
}

impl vstd::std_specs::ops::SubSpecImpl for Position {
    open spec fn obeys_sub_spec() -> bool {
        true
    }

    open spec fn sub_req(self, other: Position) -> bool {
        true
    }

    open spec fn sub_spec(self, other: Position) -> Vector {
        Vector {
            x: Scalar { bits: fix_sub(self.x@, other.x@) as i64 },
            y: Scalar { bits: fix_sub(self.y@, other.y@) as i64 },
        }
    }
}

} // verus!
