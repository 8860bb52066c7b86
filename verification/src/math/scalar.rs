use vstd::prelude::*;

use core::cmp::Ordering;

use crate::math::abs1;
use crate::math::fix_add;
use crate::math::fix_div;
use crate::math::fix_mul;
use crate::math::fix_neg;
use crate::math::fix_sub;
use crate::math::scale_div;
use crate::math::scale_mul;
use crate::math::trunc_div;
use crate::math::wrap_i64;

use vstd::arithmetic::div_mod::lemma_div_is_ordered;
use vstd::arithmetic::div_mod::lemma_div_is_ordered_by_denominator;
use vstd::arithmetic::div_mod::lemma_div_nonincreasing;
use vstd::arithmetic::div_mod::lemma_fundamental_div_mod;
use vstd::arithmetic::div_mod::lemma_fundamental_div_mod_converse;
use vstd::arithmetic::div_mod::lemma_mod_add_multiples_vanish;
use vstd::arithmetic::div_mod::lemma_mod_division_less_than_divisor;
use vstd::arithmetic::div_mod::lemma_small_mod;

verus! {

/// A fixed-point difference quantity: durations, distances, speeds.
#[derive(Clone, Copy, PartialEq, Eq, Structural, Hash, Debug)]
pub struct Scalar {
    pub bits: i64,
}

/// A fixed-point absolute coordinate: instants in time, axis positions.
#[derive(Clone, Copy, PartialEq, Eq, Structural, Hash, Debug)]
pub struct Coord {
    pub bits: i64,
}

impl View for Scalar {
    type V = int;

    open spec fn view(&self) -> int {
        self.bits as int
    }
}

impl View for Coord {
    type V = int;

    open spec fn view(&self) -> int {
        self.bits as int
    }
}

// ---------------------------------------------------------------------------
// Wrapping arithmetic, proved against the spec functions of the parent module
// ---------------------------------------------------------------------------

/// The wrapped value always lies in the `i64` range.
pub proof fn lemma_wrap_i64_range(v: int)
    ensures
        i64::MIN <= wrap_i64(v) <= i64::MAX,
{
    lemma_mod_division_less_than_divisor(v + 0x8000_0000_0000_0000, 0x1_0000_0000_0000_0000);
}

/// The wrapped sum of two `i64` values is what `wrapping_add` computes.
proof fn lemma_wrap_of_sum(a: i64, b: i64)
    ensures
        wrap_i64(a + b) == vstd::wrapping::i64_specs::wrapping_add(a, b) as int,
{
    let s: int = a + b;
    let period: int = 0x1_0000_0000_0000_0000;
    if s > i64::MAX {
        assert((s + 0x8000_0000_0000_0000) % period == s + 0x8000_0000_0000_0000 - period) by {
            lemma_small_mod((s + 0x8000_0000_0000_0000 - period) as nat, period as nat);
            lemma_mod_add_multiples_vanish(s + 0x8000_0000_0000_0000 - period, period);
        };
    } else if s < i64::MIN {
        assert((s + 0x8000_0000_0000_0000) % period == s + 0x8000_0000_0000_0000 + period) by {
            lemma_small_mod((s + 0x8000_0000_0000_0000 + period) as nat, period as nat);
            lemma_mod_add_multiples_vanish(s + 0x8000_0000_0000_0000, period);
        };
    } else {
        assert((s + 0x8000_0000_0000_0000) % period == s + 0x8000_0000_0000_0000) by {
            lemma_small_mod((s + 0x8000_0000_0000_0000) as nat, period as nat);
        };
    }
}

/// The wrapped difference of two `i64` values is what `wrapping_sub` computes.
proof fn lemma_wrap_of_diff(a: i64, b: i64)
    ensures
        wrap_i64(a - b) == vstd::wrapping::i64_specs::wrapping_sub(a, b) as int,
{
    let s: int = a - b;
    let period: int = 0x1_0000_0000_0000_0000;
    if s > i64::MAX {
        assert((s + 0x8000_0000_0000_0000) % period == s + 0x8000_0000_0000_0000 - period) by {
            lemma_small_mod((s + 0x8000_0000_0000_0000 - period) as nat, period as nat);
            lemma_mod_add_multiples_vanish(s + 0x8000_0000_0000_0000 - period, period);
        };
    } else if s < i64::MIN {
        assert((s + 0x8000_0000_0000_0000) % period == s + 0x8000_0000_0000_0000 + period) by {
            lemma_small_mod((s + 0x8000_0000_0000_0000 + period) as nat, period as nat);
            lemma_mod_add_multiples_vanish(s + 0x8000_0000_0000_0000, period);
        };
    } else {
        assert((s + 0x8000_0000_0000_0000) % period == s + 0x8000_0000_0000_0000) by {
            lemma_small_mod((s + 0x8000_0000_0000_0000) as nat, period as nat);
        };
    }
}

/// The Euclidean quotient of a negative dividend by a positive divisor,
/// written over the magnitude of the dividend.
proof fn lemma_div_of_negative(m: int, d: int)
    requires
        m >= 0,
        d > 0,
    ensures
        m % d == 0 ==> (-m) / d == -(m / d) && (-m) % d == 0,
        m % d != 0 ==> (-m) / d == -(m / d) - 1 && (-m) % d == d - m % d,
{
    let k: int = m / d;
    let s: int = m % d;
    lemma_fundamental_div_mod(m, d);
    lemma_mod_division_less_than_divisor(m, d);
    if s == 0 {
        assert(-m == (-k) * d + 0) by (nonlinear_arith)
            requires
                m == d * k + s,
                s == 0,
        ;
        lemma_fundamental_div_mod_converse(-m, d, -k, 0);
    } else {
        assert(-m == (-k - 1) * d + (d - s)) by (nonlinear_arith)
            requires
                m == d * k + s,
        ;
        lemma_fundamental_div_mod_converse(-m, d, -k - 1, d - s);
    }
}

/// Reduces a 128-bit intermediate to the 64-bit wrapped result.
fn wrap_to_i64(v: i128) -> (r: i64)
    requires
        i128::MIN < v,
    ensures
        r as int == wrap_i64(v as int),
{
    let period: i128 = 0x1_0000_0000_0000_0000i128;
    let m2: i128 = if v >= 0 {
        v % period
    } else {
        let s: i128 = (-v) % period;
        proof {
            lemma_div_of_negative(-(v as int), period as int);
            lemma_mod_division_less_than_divisor(-(v as int), period as int);
        }
        if s == 0 {
            0
        } else {
            period - s
        }
    };
    proof {
        let vi: int = v as int;
        let p: int = 0x1_0000_0000_0000_0000;
        lemma_mod_division_less_than_divisor(vi, p);
        assert(m2 as int == vi % p);
        vstd::arithmetic::div_mod::lemma_add_mod_noop(vi, 0x8000_0000_0000_0000, p);
        lemma_small_mod(0x8000_0000_0000_0000nat, p as nat);
        if vi % p < 0x8000_0000_0000_0000 {
            lemma_small_mod((vi % p + 0x8000_0000_0000_0000) as nat, p as nat);
        } else {
            lemma_small_mod((vi % p - 0x8000_0000_0000_0000) as nat, p as nat);
            lemma_mod_add_multiples_vanish(vi % p - 0x8000_0000_0000_0000, p);
        }
    }
    let r128: i128 = if m2 >= 0x8000_0000_0000_0000i128 {
        m2 - 0x1_0000_0000_0000_0000i128
    } else {
        m2
    };
    r128 as i64
}

/// A product of two `i64` values fits comfortably inside an `i128`.
proof fn lemma_i64_product_fits(a: int, b: int)
    requires
        i64::MIN <= a <= i64::MAX,
        i64::MIN <= b <= i64::MAX,
    ensures
        -0x4000_0000_0000_0000_0000_0000_0000_0000 <= a * b
            <= 0x4000_0000_0000_0000_0000_0000_0000_0000,
{
    assert(-0x4000_0000_0000_0000_0000_0000_0000_0000 <= a * b
        <= 0x4000_0000_0000_0000_0000_0000_0000_0000) by (nonlinear_arith)
        requires
            -0x8000_0000_0000_0000 <= a <= 0x7FFF_FFFF_FFFF_FFFF,
            -0x8000_0000_0000_0000 <= b <= 0x7FFF_FFFF_FFFF_FFFF,
    ;
}

/// The raw fixed-point product: full product, scaled down toward
/// negative infinity, wrapped to 64 bits.
fn mul_bits(a: i64, b: i64) -> (r: i64)
    ensures
        r as int == fix_mul(a as int, b as int),
{
    proof {
        lemma_i64_product_fits(a as int, b as int);
    }
    let p: i128 = (a as i128) * (b as i128);
    let q: i128 = if p >= 0 {
        p / 65536
    } else {
        let m: i128 = -p;
        proof {
            lemma_div_of_negative(m as int, 65536);
            lemma_div_nonincreasing(m as int, 65536);
        }
        if m % 65536 != 0 {
            -(m / 65536) - 1
        } else {
            -(m / 65536)
        }
    };
    proof {
        assert(q as int == (p as int) / 65536);
    }
    wrap_to_i64(q)
}

/// The raw fixed-point quotient: dividend scaled up, then divided with
/// truncation toward zero as Rust division rounds, wrapped to 64 bits.
fn div_bits(a: i64, b: i64) -> (r: i64)
    requires
        b != 0,
    ensures
        r as int == fix_div(a as int, b as int),
{
    let n: i128 = (a as i128) * 65536;
    let na: i128 = if n < 0 {
        -n
    } else {
        n
    };
    let nb: i128 = if b < 0 {
        -(b as i128)
    } else {
        b as i128
    };
    let qmag: i128 = na / nb;
    proof {
        lemma_div_nonincreasing(na as int, nb as int);
    }
    let q: i128 = if (a < 0) != (b < 0) {
        -qmag
    } else {
        qmag
    };
    proof {
        assert(q as int == trunc_div(a as int * 65536, b as int));
    }
    wrap_to_i64(q)
}

/// Truncating division of raw bits by a plain integer factor.
fn div_bits_i64(a: i64, k: i64) -> (r: i64)
    requires
        k != 0,
        !(a == i64::MIN && k == -1),
    ensures
        r as int == trunc_div(a as int, k as int),
{
    let na: i128 = if a < 0 {
        -(a as i128)
    } else {
        a as i128
    };
    let nk: i128 = if k < 0 {
        -(k as i128)
    } else {
        k as i128
    };
    let qmag: i128 = na / nk;
    proof {
        lemma_div_nonincreasing(na as int, nk as int);
        if a == i64::MIN && k < 0 {
            lemma_div_is_ordered_by_denominator(na as int, 2, nk as int);
        }
    }
    let q: i128 = if (a < 0) != (k < 0) {
        -qmag
    } else {
        qmag
    };
    q as i64
}

// ---------------------------------------------------------------------------
// Scalar construction and destruction
// ---------------------------------------------------------------------------

impl Scalar {
    /// Builds the scalar with exactly this raw bit count.
    pub fn from_bits(bits: i64) -> (r: Scalar)
        ensures
            r@ == bits as int,
    {
        Scalar { bits }
    }

    /// The raw bit count of this scalar.
    pub fn into_bits(self) -> (r: i64)
        ensures
            r as int == self@,
    {
        self.bits
    }

    /// The fixed-point square of this scalar.
    pub fn squared(self) -> (r: Scalar)
        ensures
            r@ == fix_mul(self@, self@),
    {
        self * self
    }
}

impl Coord {
    /// Builds the coordinate with exactly this raw bit count.
    pub fn from_bits(bits: i64) -> (r: Coord)
        ensures
            r@ == bits as int,
    {
        Coord { bits }
    }

    /// The raw bit count of this coordinate.
    pub fn into_bits(self) -> (r: i64)
        ensures
            r as int == self@,
    {
        self.bits
    }
}

impl Default for Scalar {
    /// The zero scalar.
    fn default() -> (r: Scalar)
        ensures
            r@ == 0,
    {
        Scalar { bits: 0 }
    }
}

impl Default for Coord {
    /// The origin coordinate.
    fn default() -> (r: Coord)
        ensures
            r@ == 0,
    {
        Coord { bits: 0 }
    }
}

impl From<i32> for Scalar {
    /// A whole number of units.
    fn from(v: i32) -> (r: Scalar) {
        Scalar { bits: (v as i64) * 65536 }
    }
}

impl vstd::std_specs::convert::FromSpecImpl<i32> for Scalar {
    open spec fn obeys_from_spec() -> bool {
        true
    }

    open spec fn from_spec(v: i32) -> Scalar {
        Scalar { bits: (v * 65536) as i64 }
    }
}

impl From<i32> for Coord {
    /// A whole number of units from the origin.
    fn from(v: i32) -> (r: Coord) {
        Coord { bits: (v as i64) * 65536 }
    }
}

impl vstd::std_specs::convert::FromSpecImpl<i32> for Coord {
    open spec fn obeys_from_spec() -> bool {
        true
    }

    open spec fn from_spec(v: i32) -> Coord {
        Coord { bits: (v * 65536) as i64 }
    }
}

// ---------------------------------------------------------------------------
// Ordering
// ---------------------------------------------------------------------------

impl PartialOrd for Scalar {
    fn partial_cmp(&self, other: &Scalar) -> (r: Option<Ordering>) {
        if self.bits < other.bits {
            Some(Ordering::Less)
        } else if self.bits > other.bits {
            Some(Ordering::Greater)
        } else {
            Some(Ordering::Equal)
        }
    }
}

impl vstd::std_specs::cmp::PartialOrdSpecImpl for Scalar {
    open spec fn obeys_partial_cmp_spec() -> bool {
        true
    }

    open spec fn partial_cmp_spec(&self, other: &Scalar) -> Option<Ordering> {
        if self@ < other@ {
            Some(Ordering::Less)
        } else if self@ > other@ {
            Some(Ordering::Greater)
        } else {
            Some(Ordering::Equal)
        }
    }
}

impl PartialOrd for Coord {
    fn partial_cmp(&self, other: &Coord) -> (r: Option<Ordering>) {
        if self.bits < other.bits {
            Some(Ordering::Less)
        } else if self.bits > other.bits {
            Some(Ordering::Greater)
        } else {
            Some(Ordering::Equal)
        }
    }
}

impl vstd::std_specs::cmp::PartialOrdSpecImpl for Coord {
    open spec fn obeys_partial_cmp_spec() -> bool {
        true
    }

    open spec fn partial_cmp_spec(&self, other: &Coord) -> Option<Ordering> {
        if self@ < other@ {
            Some(Ordering::Less)
        } else if self@ > other@ {
            Some(Ordering::Greater)
        } else {
            Some(Ordering::Equal)
        }
    }
}

// ---------------------------------------------------------------------------
// Scalar arithmetic
// ---------------------------------------------------------------------------

impl std::ops::Neg for Scalar {
    type Output = Scalar;

    fn neg(self) -> (r: Scalar) {
        proof {
            lemma_wrap_of_diff(0i64, self.bits);
        }
        Scalar { bits: (0i64).wrapping_sub(self.bits) }
    }
}

impl vstd::std_specs::ops::NegSpecImpl for Scalar {
    open spec fn obeys_neg_spec() -> bool {
        true
    }

    open spec fn neg_req(self) -> bool {
        true
    }

    open spec fn neg_spec(self) -> Scalar {
        Scalar { bits: fix_neg(self@) as i64 }
    }
}

impl std::ops::Add for Scalar {
    type Output = Scalar;

    fn add(self, other: Scalar) -> (r: Scalar) {
        proof {
            lemma_wrap_of_sum(self.bits, other.bits);
        }
        Scalar { bits: self.bits.wrapping_add(other.bits) }
    }
}

impl vstd::std_specs::ops::AddSpecImpl for Scalar {
    open spec fn obeys_add_spec() -> bool {
        true
    }

    open spec fn add_req(self, other: Scalar) -> bool {
        true
    }

    open spec fn add_spec(self, other: Scalar) -> Scalar {
        Scalar { bits: fix_add(self@, other@) as i64 }
    }
}

impl std::ops::Sub for Scalar {
    type Output = Scalar;

    fn sub(self, other: Scalar) -> (r: Scalar) {
        proof {
            lemma_wrap_of_diff(self.bits, other.bits);
        }
        Scalar { bits: self.bits.wrapping_sub(other.bits) }
    }
}

impl vstd::std_specs::ops::SubSpecImpl for Scalar {
    open spec fn obeys_sub_spec() -> bool {
        true
    }

    open spec fn sub_req(self, other: Scalar) -> bool {
        true
    }

    open spec fn sub_spec(self, other: Scalar) -> Scalar {
        Scalar { bits: fix_sub(self@, other@) as i64 }
    }
}

impl std::ops::Mul for Scalar {
    type Output = Scalar;

    fn mul(self, other: Scalar) -> (r: Scalar) {
        Scalar { bits: mul_bits(self.bits, other.bits) }
    }
}

impl vstd::std_specs::ops::MulSpecImpl for Scalar {
    open spec fn obeys_mul_spec() -> bool {
        true
    }

    open spec fn mul_req(self, other: Scalar) -> bool {
        true
    }

    open spec fn mul_spec(self, other: Scalar) -> Scalar {
        Scalar { bits: fix_mul(self@, other@) as i64 }
    }
}

impl std::ops::Div for Scalar {
    type Output = Scalar;

    fn div(self, other: Scalar) -> (r: Scalar) {
        Scalar { bits: div_bits(self.bits, other.bits) }
    }
}

impl vstd::std_specs::ops::DivSpecImpl for Scalar {
    open spec fn obeys_div_spec() -> bool {
        true
    }

    open spec fn div_req(self, other: Scalar) -> bool {
        other@ != 0
    }

    open spec fn div_spec(self, other: Scalar) -> Scalar {
        Scalar { bits: fix_div(self@, other@) as i64 }
    }
}

impl std::ops::Mul<i64> for Scalar {
    type Output = Scalar;

    fn mul(self, other: i64) -> (r: Scalar) {
        proof {
            lemma_i64_product_fits(self.bits as int, other as int);
        }
        Scalar { bits: wrap_to_i64((self.bits as i128) * (other as i128)) }
    }
}

impl vstd::std_specs::ops::MulSpecImpl<i64> for Scalar {
    open spec fn obeys_mul_spec() -> bool {
        true
    }

    open spec fn mul_req(self, other: i64) -> bool {
        true
    }

    open spec fn mul_spec(self, other: i64) -> Scalar {
        Scalar { bits: scale_mul(self@, other as int) as i64 }
    }
}

impl std::ops::Div<i64> for Scalar {
    type Output = Scalar;

    fn div(self, other: i64) -> (r: Scalar) {
        Scalar { bits: div_bits_i64(self.bits, other) }
    }
}

impl vstd::std_specs::ops::DivSpecImpl<i64> for Scalar {
    open spec fn obeys_div_spec() -> bool {
        true
    }

    open spec fn div_req(self, other: i64) -> bool {
        other != 0 && !(self@ == i64::MIN && other == -1)
    }

    open spec fn div_spec(self, other: i64) -> Scalar {
        Scalar { bits: scale_div(self@, other as int) as i64 }
    }
}

// ---------------------------------------------------------------------------
// Coordinate arithmetic
// ---------------------------------------------------------------------------

impl std::ops::Add<Scalar> for Coord {
    type Output = Coord;

    fn add(self, other: Scalar) -> (r: Coord) {
        proof {
            lemma_wrap_of_sum(self.bits, other.bits);
        }
        Coord { bits: self.bits.wrapping_add(other.bits) }
    }
}

impl vstd::std_specs::ops::AddSpecImpl<Scalar> for Coord {
    open spec fn obeys_add_spec() -> bool {
        true
    }

    open spec fn add_req(self, other: Scalar) -> bool {
        true
    }

    open spec fn add_spec(self, other: Scalar) -> Coord {
        Coord { bits: fix_add(self@, other@) as i64 }
    }
}

impl std::ops::Add<Coord> for Scalar {
    type Output = Coord;

    fn add(self, other: Coord) -> (r: Coord) {
        proof {
            lemma_wrap_of_sum(other.bits, self.bits);
        }
        Coord { bits: other.bits.wrapping_add(self.bits) }
    }
}

impl vstd::std_specs::ops::AddSpecImpl<Coord> for Scalar {
    open spec fn obeys_add_spec() -> bool {
        true
    }

    open spec fn add_req(self, other: Coord) -> bool {
        true
    }

    open spec fn add_spec(self, other: Coord) -> Coord {
        Coord { bits: fix_add(other@, self@) as i64 }
    }
}

impl std::ops::Sub<Scalar> for Coord {
    type Output = Coord;

    fn sub(self, other: Scalar) -> (r: Coord) {
        proof {
            lemma_wrap_of_diff(self.bits, other.bits);
        }
        Coord { bits: self.bits.wrapping_sub(other.bits) }
    }
}

impl vstd::std_specs::ops::SubSpecImpl<Scalar> for Coord {
    open spec fn obeys_sub_spec() -> bool {
        true
    }

    open spec fn sub_req(self, other: Scalar) -> bool {
        true
    }

    open spec fn sub_spec(self, other: Scalar) -> Coord {
        Coord { bits: fix_sub(self@, other@) as i64 }
    }
}

impl std::ops::Sub for Coord {
    type Output = Scalar;

    fn sub(self, other: Coord) -> (r: Scalar) {
        proof {
            lemma_wrap_of_diff(self.bits, other.bits);
        }
        Scalar { bits: self.bits.wrapping_sub(other.bits) }
    }
}

impl vstd::std_specs::ops::SubSpecImpl for Coord {
    open spec fn obeys_sub_spec() -> bool {
        true
    }

    open spec fn sub_req(self, other: Coord) -> bool {
        true
    }

    open spec fn sub_spec(self, other: Coord) -> Scalar {
        Scalar { bits: fix_sub(self@, other@) as i64 }
    }
}

// ---------------------------------------------------------------------------
// Square roots
// ---------------------------------------------------------------------------

/// One round of the Newton iteration, `n` times, starting from `r`.
pub open spec fn sqrt_iterate(val: int, r: int, n: nat) -> int
    decreases n,
{
    if n == 0 {
        r
    } else {
        sqrt_iterate(val, val / 2 / r + r / 2, (n - 1) as nat)
    }
}

/// The low 32 bits of a raw value, read as an unsigned magnitude, exactly
/// as the unchecked cast of a plain integer implementation reads them.
pub open spec fn low_32(bits: int) -> int {
    bits % 0x1_0000_0000
}

/// The raw bits of the rough square root of a scalar with raw value `bits`:
/// the low 32 bits carry 16 fractional bits, six Newton rounds produce a
/// root with 8 fractional bits, and the result is scaled back to 16.
pub open spec fn spec_sqrt_bits(bits: int) -> int {
    sqrt_iterate(low_32(bits), low_32(bits) / 4096 + 32, 6) * 256
}

/// Iterating once more applies one further Newton round to the result.
proof fn lemma_sqrt_iterate_unfold(val: int, r: int, n: nat)
    ensures
        sqrt_iterate(val, r, n + 1) == val / 2 / sqrt_iterate(val, r, n) + sqrt_iterate(val, r, n)
            / 2,
    decreases n,
{
    let stepped: int = val / 2 / r + r / 2;
    if n == 0 {
        assert(sqrt_iterate(val, r, 1) == sqrt_iterate(val, stepped, 0));
        assert(sqrt_iterate(val, stepped, 0) == stepped);
        assert(sqrt_iterate(val, r, 0) == r);
    } else {
        assert(sqrt_iterate(val, r, n + 1) == sqrt_iterate(val, stepped, n));
        lemma_sqrt_iterate_unfold(val, stepped, (n - 1) as nat);
        assert(sqrt_iterate(val, r, n) == sqrt_iterate(val, stepped, (n - 1) as nat));
    }
}

/// Lower margin that keeps the Newton divisor away from zero while
/// iterations remain.
spec fn sqrt_margin(i: int) -> int {
    if i <= 0 {
        32
    } else if i == 1 {
        16
    } else if i == 2 {
        8
    } else if i == 3 {
        4
    } else if i == 4 {
        2
    } else if i == 5 {
        1
    } else {
        0
    }
}

/// Newton's method for the integer square root, as far as six rounds take it.
fn rough_sqrt_u32(val: u32) -> (r: u32)
    ensures
        r as int == sqrt_iterate(val as int, val as int / 4096 + 32, 6),
{
    let mut result: u32 = val / 4096 + 32;
    let mut i: u32 = 0;
    while i < 6
        invariant
            0 <= i <= 6,
            result as int == sqrt_iterate(val as int, val as int / 4096 + 32, i as nat),
            result as int >= sqrt_margin(i as int),
            i < 6 ==> result <= 0x8000_0000,
            result <= 0xC000_0000,
        decreases 6 - i,
    {
        proof {
            lemma_sqrt_iterate_unfold(val as int, val as int / 4096 + 32, i as nat);
            lemma_div_nonincreasing(val as int / 2, result as int);
            if result >= 2 {
                lemma_div_is_ordered_by_denominator(val as int / 2, 2, result as int);
                vstd::arithmetic::div_mod::lemma_div_denominator(val as int, 2, 2);
                lemma_div_is_ordered(val as int, 0xFFFF_FFFF, 4);
            }
            lemma_div_is_ordered(result as int, 0x8000_0000, 2);
            if result >= 1 {
                lemma_div_is_ordered_by_denominator(val as int / 2, 1, result as int);
                lemma_div_is_ordered(val as int, 0xFFFF_FFFF, 2);
            }
        }
        result = val / 2 / result + result / 2;
        i = i + 1;
    }
    result
}

impl Scalar {
    /// An approximate square root: cheap, with about 8 bits of fraction.
    /// On a value outside the unsigned 32-bit range it operates on the low
    /// 32 bits of the raw value, as the unchecked release arithmetic of a
    /// plain integer implementation would.
    pub fn rough_sqrt(self) -> (r: Scalar)
        ensures
            r@ == spec_sqrt_bits(self@),
    {
        let period: i64 = 0x1_0000_0000;
        let m2: i64 = if self.bits >= 0 {
            self.bits % period
        } else {
            let s: i64 = (-(self.bits as i128) % (period as i128)) as i64;
            proof {
                lemma_div_of_negative(-(self.bits as int), period as int);
                lemma_mod_division_less_than_divisor(-(self.bits as int), period as int);
            }
            if s == 0 {
                0
            } else {
                period - s
            }
        };
        proof {
            lemma_mod_division_less_than_divisor(self.bits as int, period as int);
        }
        let v32: u32 = m2 as u32;
        let root: u32 = rough_sqrt_u32(v32);
        Scalar { bits: (root as i64) * 256 }
    }

    /// The square root used by the collision mathematics.
    pub fn sqrt(self) -> (r: Scalar)
        ensures
            r@ == spec_sqrt_bits(self@),
    {
        self.rough_sqrt()
    }
}

} // verus!
