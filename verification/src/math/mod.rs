//! Fixed-point scalars, coordinates and two-dimensional vectors.
//!
//! Every quantity is a signed 64-bit integer counting 1/65536ths of a unit.
//! Arithmetic wraps at the 64-bit boundary, exactly as the released build of
//! a plain integer implementation would; the spec functions here give the
//! bit-exact meaning of each operation, and lemmas recover ordinary algebra
//! whenever the operands are far from the boundary.

mod scalar;
mod vector;

pub use self::scalar::Coord;
pub use self::scalar::Scalar;
pub use self::scalar::lemma_wrap_i64_range;
pub use self::scalar::low_32;
pub use self::scalar::spec_sqrt_bits;
pub use self::scalar::sqrt_iterate;
pub use self::vector::Position;
pub use self::vector::Vector;
pub use self::vector::vec_inner;
pub use self::vector::vec_magnitude;
pub use self::vector::vec_squared;



use vstd::prelude::*;

verus! {

/// The fixed-point unit: raw values count increments of 1/65536.
pub const FIX_ONE: i64 = 65536;

/// Wraps a mathematical integer into the value range of an `i64`.
pub open spec fn wrap_i64(v: int) -> int {
    ((v + 0x8000_0000_0000_0000) % 0x1_0000_0000_0000_0000) - 0x8000_0000_0000_0000
}

/// Absolute value of a mathematical integer.
pub open spec fn abs1(v: int) -> int {
    if v < 0 {
        -v
    } else {
        v
    }
}

/// Division truncating toward zero, as Rust's `/` computes it.  The
/// spec-level `/` is Euclidean, so it is phrased over magnitudes.
pub open spec fn trunc_div(p: int, d: int) -> int {
    if (p < 0) != (d < 0) {
        -(abs1(p) / abs1(d))
    } else {
        abs1(p) / abs1(d)
    }
}

/// Raw value of the fixed-point sum of raw values `a` and `b`.
pub open spec fn fix_add(a: int, b: int) -> int {
    wrap_i64(a + b)
}

/// Raw value of the fixed-point difference of raw values `a` and `b`.
pub open spec fn fix_sub(a: int, b: int) -> int {
    wrap_i64(a - b)
}

/// Raw value of the fixed-point negation of raw value `a`.
pub open spec fn fix_neg(a: int) -> int {
    wrap_i64(-a)
}

/// Raw value of the fixed-point product of raw values `a` and `b`:
/// the full product scaled back down, rounding toward negative infinity.
pub open spec fn fix_mul(a: int, b: int) -> int {
    wrap_i64((a * b) / (FIX_ONE as int))
}

/// Raw value of the fixed-point quotient of raw values `a` and `b`:
/// the dividend scaled up first, rounding toward zero as Rust division does.
pub open spec fn fix_div(a: int, b: int) -> int {
    wrap_i64(trunc_div(a * (FIX_ONE as int), b))
}

/// Raw value of a fixed-point quantity scaled by a plain integer factor.
pub open spec fn scale_mul(a: int, k: int) -> int {
    wrap_i64(a * k)
}

/// Raw value of a fixed-point quantity divided by a plain integer factor,
/// rounding toward zero as Rust division does.
pub open spec fn scale_div(a: int, k: int) -> int {
    trunc_div(a, k)
}

/// Whether a mathematical integer already lies in the `i64` value range,
/// so that wrapping it changes nothing.
pub open spec fn fits_i64(v: int) -> bool {
    i64::MIN <= v <= i64::MAX
}

/// Wrapping is the identity on values that fit.
pub proof fn lemma_wrap_i64_id(v: int)
    requires
        fits_i64(v),
    ensures
        wrap_i64(v) == v,
{
    assert(wrap_i64(v) == v) by {
        assert((v + 0x8000_0000_0000_0000) % 0x1_0000_0000_0000_0000 == v + 0x8000_0000_0000_0000)
            by {
            vstd::arithmetic::div_mod::lemma_small_mod(
                (v + 0x8000_0000_0000_0000) as nat,
                0x1_0000_0000_0000_0000 as nat,
            );
        };
    };
}

} // verus!
