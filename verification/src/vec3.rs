use vstd::prelude::*;
use crate::fixed::{
    ceil_sqrt, clamp_i64, is_ceil_sqrt, lemma_ceil_sqrt_exists, mul_fixed, sat_add, sat_neg, sat_sub, spec_ceil_sqrt,
    spec_mul_fixed, spec_sat_add, spec_sat_neg, spec_sat_sub, trunc_div, ONE,
};

verus! {

/// A vector of three fixed-point coordinates.
#[derive(Clone, Copy, Debug, PartialEq, Eq, Structural)]
pub struct Vec3 {
    pub x: i64,
    pub y: i64,
    pub z: i64,
}

/// Two to the power of 32: what the coordinates of a short vector are multiplied
/// by before its length is taken, so that rounding the length up costs little.
pub const MAGNIFIER: u128 = 0x1_0000_0000;

/// The factor for a vector of the given squared length: [`MAGNIFIER`] where the
/// square of the magnified length still fits 128 bits, one otherwise. Either way
/// the magnified length is at least two to the power of 32.
pub open spec fn spec_magnifier(sqr_len: int) -> int {
    if sqr_len < 0x1_0000_0000_0000_0000 {
        MAGNIFIER as int
    } else {
        1
    }
}

/// One coordinate of a unit vector: `v` over the length `len`, in fixed point.
pub open spec fn spec_ratio(v: int, len: int) -> i64 {
    trunc_div(v * ONE, len) as i64
}

/// The size of a number, without its sign.
pub open spec fn magnitude(v: int) -> int {
    if v < 0 {
        -v
    } else {
        v
    }
}

/// Whether adding `v` to `p` stays within the range of the coordinates.
pub open spec fn sum_in_range(p: Vec3, v: Vec3) -> bool {
    &&& i64::MIN <= p.x + v.x <= i64::MAX
    &&& i64::MIN <= p.y + v.y <= i64::MAX
    &&& i64::MIN <= p.z + v.z <= i64::MAX
}

/// The square of the distance between two coordinates.
pub open spec fn spec_sqr_gap(a: i64, b: i64) -> int {
    (a - b) * (a - b)
}

impl Vec3 {
    pub open spec fn spec_zero() -> Vec3 {
        Vec3 { x: 0, y: 0, z: 0 }
    }

    pub open spec fn spec_up() -> Vec3 {
        Vec3 { x: 0, y: ONE, z: 0 }
    }

    pub open spec fn spec_plus(self, other: Vec3) -> Vec3 {
        Vec3 {
            x: spec_sat_add(self.x, other.x),
            y: spec_sat_add(self.y, other.y),
            z: spec_sat_add(self.z, other.z),
        }
    }

    pub open spec fn spec_minus(self, other: Vec3) -> Vec3 {
        Vec3 {
            x: spec_sat_sub(self.x, other.x),
            y: spec_sat_sub(self.y, other.y),
            z: spec_sat_sub(self.z, other.z),
        }
    }

    pub open spec fn spec_negated(self) -> Vec3 {
        Vec3 { x: spec_sat_neg(self.x), y: spec_sat_neg(self.y), z: spec_sat_neg(self.z) }
    }

    pub open spec fn spec_scale(self, factor: i64) -> Vec3 {
        Vec3 {
            x: spec_mul_fixed(self.x, factor),
            y: spec_mul_fixed(self.y, factor),
            z: spec_mul_fixed(self.z, factor),
        }
    }

    /// The square of the length, in squared raw units.
    pub open spec fn spec_sqr_len(self) -> int {
        self.x * self.x + self.y * self.y + self.z * self.z
    }

    /// The square of the distance to `other`, in squared raw units, with no rounding.
    pub open spec fn spec_sqr_distance(self, other: Vec3) -> int {
        spec_sqr_gap(self.x, other.x) + spec_sqr_gap(self.y, other.y) + spec_sqr_gap(
            self.z,
            other.z,
        )
    }

    /// The vector of length one, or a little less, that points where `self` does:
    /// each coordinate over the length, both magnified, the length rounded up and
    /// the quotient rounded toward zero. `None` for the zero vector, which points
    /// nowhere.
    pub open spec fn spec_normalized(self) -> Option<Vec3> {
        if self.spec_sqr_len() == 0 {
            None
        } else {
            let k = spec_magnifier(self.spec_sqr_len());
            let len = spec_ceil_sqrt(self.spec_sqr_len() * (k * k));
            Some(
                Vec3 {
                    x: spec_ratio(self.x * k, len),
                    y: spec_ratio(self.y * k, len),
                    z: spec_ratio(self.z * k, len),
                },
            )
        }
    }

    pub fn new(x: i64, y: i64, z: i64) -> (r: Vec3)
        ensures
            r == (Vec3 { x, y, z }),
    {
        Vec3 { x, y, z }
    }

    #[verifier::when_used_as_spec(spec_zero)]
    pub fn zero() -> (r: Vec3)
        ensures
            r == Vec3::spec_zero(),
    {
        Vec3 { x: 0, y: 0, z: 0 }
    }

    #[verifier::when_used_as_spec(spec_up)]
    pub fn up() -> (r: Vec3)
        ensures
            r == Vec3::spec_up(),
    {
        Vec3 { x: 0, y: ONE, z: 0 }
    }

    pub fn plus(&self, other: &Vec3) -> (r: Vec3)
        ensures
            r == self.spec_plus(*other),
    {
        Vec3 {
            x: sat_add(self.x, other.x),
            y: sat_add(self.y, other.y),
            z: sat_add(self.z, other.z),
        }
    }

    pub fn minus(&self, other: &Vec3) -> (r: Vec3)
        ensures
            r == self.spec_minus(*other),
    {
        Vec3 {
            x: sat_sub(self.x, other.x),
            y: sat_sub(self.y, other.y),
            z: sat_sub(self.z, other.z),
        }
    }

    pub fn negated(&self) -> (r: Vec3)
        ensures
            r == self.spec_negated(),
    {
        Vec3 { x: sat_neg(self.x), y: sat_neg(self.y), z: sat_neg(self.z) }
    }

    pub fn scale(&self, factor: i64) -> (r: Vec3)
        ensures
            r == self.spec_scale(factor),
    {
        Vec3 {
            x: mul_fixed(self.x, factor),
            y: mul_fixed(self.y, factor),
            z: mul_fixed(self.z, factor),
        }
    }

    pub fn sqr_len(&self) -> (r: u128)
        ensures
            r == self.spec_sqr_len(),
            r <= 3 * 0x4000_0000_0000_0000_0000_0000_0000_0000,
    {
        square(self.x) + square(self.y) + square(self.z)
    }

    pub fn normalized(&self) -> (r: Option<Vec3>)
        ensures
            r == self.spec_normalized(),
            r.is_none() <==> *self == Vec3::spec_zero(),
            r.is_some() ==> (ONE - 4) * (ONE - 4) <= r.unwrap().spec_sqr_len() <= ONE * ONE,
    {
        let n: u128 = self.sqr_len();
        proof {
            lemma_only_zero_has_no_length(*self);
        }
        if n == 0 {
            None
        } else {
            let k: u128 = if n < 0x1_0000_0000_0000_0000 {
                MAGNIFIER
            } else {
                1
            };
            proof {
                lemma_magnified(*self);
            }
            let len: u128 = ceil_sqrt(n * (k * k));
            proof {
                let (a, b, c) = (self.x * k, self.y * k, self.z * k);
                lemma_length_bounds(a, b, c, len as int);
                lemma_unit_from_length(a, b, c, len as int);
                lemma_normalized_within_one(*self);
            }
            Some(
                Vec3 {
                    x: ratio(self.x, k, len),
                    y: ratio(self.y, k, len),
                    z: ratio(self.z, k, len),
                },
            )
        }
    }

    /// Whether `self` lies farther from `other` than `limit`.
    pub fn farther_than(&self, other: &Vec3, limit: i64) -> (r: bool)
        ensures
            r == (self.spec_sqr_distance(*other) > limit * limit),
    {
        proof {
            lemma_sqr_gap_nonnegative(self.x, other.x);
            lemma_sqr_gap_nonnegative(self.y, other.y);
            lemma_sqr_gap_nonnegative(self.z, other.z);
        }
        let bound: u128 = square(limit);
        let gx: u128 = sqr_gap(self.x, other.x);
        if gx > bound {
            return true;
        }
        let gy: u128 = sqr_gap(self.y, other.y);
        if gy > bound - gx {
            return true;
        }
        let gz: u128 = sqr_gap(self.z, other.z);
        gz > bound - gx - gy
    }
}

/// No squared gap is negative.
pub proof fn lemma_sqr_gap_nonnegative(a: i64, b: i64)
    ensures
        spec_sqr_gap(a, b) >= 0,
{
    assert((a - b) * (a - b) >= 0) by (nonlinear_arith);
}

fn square(v: i64) -> (r: u128)
    ensures
        r == v * v,
        r <= 0x4000_0000_0000_0000_0000_0000_0000_0000,
{
    assert(0 <= v * v <= 0x4000_0000_0000_0000_0000_0000_0000_0000) by (nonlinear_arith)
        requires
            -0x8000_0000_0000_0000 <= v < 0x8000_0000_0000_0000,
    ;
    let wide: i128 = v as i128;
    (wide * wide) as u128
}

fn sqr_gap(a: i64, b: i64) -> (r: u128)
    ensures
        r == spec_sqr_gap(a, b),
{
    let gap: i128 = a as i128 - b as i128;
    let size: u128 = if gap < 0 {
        (-gap) as u128
    } else {
        gap as u128
    };
    assert(size * size == gap * gap && size * size <= 0xffff_ffff_ffff_ffff * 0xffff_ffff_ffff_ffff)
        by (nonlinear_arith)
        requires
            size == gap || size == -gap,
            0 <= size <= 0xffff_ffff_ffff_ffff,
    ;
    size * size
}

fn ratio(v: i64, k: u128, len: u128) -> (r: i64)
    requires
        k == 1 || k == MAGNIFIER,
        0 < len <= 0x1_0000_0000_0000_0000,
        -len <= v * k <= len,
    ensures
        r == spec_ratio(v * k, len as int),
{
    assert(-0x8000_0000_0000_0000_0000_0000 <= v * k <= 0x8000_0000_0000_0000_0000_0000)
        by (nonlinear_arith)
        requires
            -0x8000_0000_0000_0000 <= v < 0x8000_0000_0000_0000,
            0 < k <= 0x1_0000_0000,
    ;
    let magnified: i128 = v as i128 * k as i128;
    assert(-0x1_0000_0000_0000_0000 * 1_000_000 <= magnified * ONE <= 0x1_0000_0000_0000_0000
        * 1_000_000) by (nonlinear_arith)
        requires
            -0x1_0000_0000_0000_0000 <= magnified <= 0x1_0000_0000_0000_0000,
            ONE == 1_000_000,
    ;
    let wide: i128 = magnified * ONE as i128;
    let q: i128 = wide / (len as i128);
    proof {
        lemma_ratio_bounds(magnified as int, len as int);
    }
    q as i64
}

/// A coordinate that is no longer than the vector has a ratio between minus one and one.
pub proof fn lemma_ratio_bounds(v: int, len: int)
    requires
        0 < len,
        -len <= v <= len,
    ensures
        -ONE <= trunc_div(v * ONE, len) <= ONE,
{
    if v >= 0 {
        assert(0 <= (v * ONE) / len <= ONE) by (nonlinear_arith)
            requires
                0 <= v <= len,
                0 < len,
        ;
    } else {
        assert(0 <= (-(v * ONE)) / len <= ONE) by (nonlinear_arith)
            requires
                0 <= -v <= len,
                0 < len,
        ;
    }
}

/// The squared length of a vector other than zero, magnified, fits 128 bits and
/// is at least two to the power of 64; it is the sum of the squares of the
/// magnified coordinates.
pub proof fn lemma_magnified(v: Vec3)
    requires
        v.spec_sqr_len() != 0,
    ensures
        ({
            let k = spec_magnifier(v.spec_sqr_len());
            let m = v.spec_sqr_len() * (k * k);
            &&& 0x1_0000_0000_0000_0000 <= m <= 0xffff_ffff_ffff_ffff_ffff_ffff_ffff_ffff
            &&& m == sum_of_squares(v.x * k, v.y * k, v.z * k)
        }),
{
    let n = v.spec_sqr_len();
    let k = spec_magnifier(n);
    lemma_only_zero_has_no_length(v);
    lemma_product_squares(v.x as int, v.y as int, v.z as int, k);
    assert(v.x * v.x <= 0x4000_0000_0000_0000_0000_0000_0000_0000) by (nonlinear_arith)
        requires
            -0x8000_0000_0000_0000 <= v.x < 0x8000_0000_0000_0000,
    ;
    assert(v.y * v.y <= 0x4000_0000_0000_0000_0000_0000_0000_0000) by (nonlinear_arith)
        requires
            -0x8000_0000_0000_0000 <= v.y < 0x8000_0000_0000_0000,
    ;
    assert(v.z * v.z <= 0x4000_0000_0000_0000_0000_0000_0000_0000) by (nonlinear_arith)
        requires
            -0x8000_0000_0000_0000 <= v.z < 0x8000_0000_0000_0000,
    ;
    if n < 0x1_0000_0000_0000_0000 {
        assert(k * k == 0x1_0000_0000_0000_0000) by (nonlinear_arith)
            requires
                k == 0x1_0000_0000,
        ;
        assert(0x1_0000_0000_0000_0000 <= n * 0x1_0000_0000_0000_0000
            <= 0xffff_ffff_ffff_ffff_ffff_ffff_ffff_ffff) by (nonlinear_arith)
            requires
                1 <= n <= 0xffff_ffff_ffff_ffff,
        ;
    } else {
        assert(k * k == 1);
    }
}

/// The rounded-up root of a sum of squares that is not zero and fits 128 bits is
/// positive, fits in 65 bits, and none of the three numbers is larger in size.
pub proof fn lemma_length_bounds(a: int, b: int, c: int, len: int)
    requires
        0 < sum_of_squares(a, b, c) <= 0xffff_ffff_ffff_ffff_ffff_ffff_ffff_ffff,
        is_ceil_sqrt(sum_of_squares(a, b, c), len),
    ensures
        0 < len <= 0x1_0000_0000_0000_0000,
        -len <= a <= len,
        -len <= b <= len,
        -len <= c <= len,
{
    assert(a * a >= 0 && b * b >= 0 && c * c >= 0) by (nonlinear_arith);
    assert(len != 0);
    if len > 0x1_0000_0000_0000_0000 {
        assert((len - 1) * (len - 1) >= 0x1_0000_0000_0000_0000 * 0x1_0000_0000_0000_0000)
            by (nonlinear_arith)
            requires
                len - 1 >= 0x1_0000_0000_0000_0000,
        ;
    }
    lemma_square_bounds_root(a, len);
    lemma_square_bounds_root(b, len);
    lemma_square_bounds_root(c, len);
}

/// A number whose square is at most the square of a natural number lies within it.
pub proof fn lemma_square_bounds_root(v: int, len: int)
    requires
        0 <= len,
        v * v <= len * len,
    ensures
        -len <= v <= len,
{
    if v > len {
        assert(v * v > len * len) by (nonlinear_arith)
            requires
                v > len >= 0,
        ;
    }
    if v < -len {
        assert(v * v > len * len) by (nonlinear_arith)
            requires
                -v > len >= 0,
        ;
    }
}

/// Only the zero vector has length zero.
pub proof fn lemma_only_zero_has_no_length(v: Vec3)
    ensures
        v.spec_sqr_len() == 0 <==> v == Vec3::spec_zero(),
        v.spec_sqr_len() >= 0,
{
    assert(v.x * v.x >= 0 && (v.x * v.x == 0 <==> v.x == 0)) by (nonlinear_arith);
    assert(v.y * v.y >= 0 && (v.y * v.y == 0 <==> v.y == 0)) by (nonlinear_arith);
    assert(v.z * v.z >= 0 && (v.z * v.z == 0 <==> v.z == 0)) by (nonlinear_arith);
}

/// Rounding a quotient toward zero never makes it larger in size.
pub proof fn lemma_trunc_div_shrinks(n: int, d: int)
    requires
        d > 0,
    ensures
        (trunc_div(n, d) * d) * (trunc_div(n, d) * d) <= n * n,
{
    let q = trunc_div(n, d);
    if n >= 0 {
        assert(0 <= (n / d) * d <= n) by (nonlinear_arith)
            requires
                n >= 0,
                d > 0,
        ;
        assert((q * d) * (q * d) <= n * n) by (nonlinear_arith)
            requires
                0 <= q * d <= n,
        ;
    } else {
        let m = -n;
        assert(0 <= (m / d) * d <= m) by (nonlinear_arith)
            requires
                m >= 0,
                d > 0,
        ;
        assert(q * d == -((m / d) * d)) by (nonlinear_arith)
            requires
                q == -(m / d),
        ;
        assert((q * d) * (q * d) <= n * n) by (nonlinear_arith)
            requires
                n <= q * d <= 0,
        ;
    }
}

/// The squares of three numbers, summed.
pub open spec fn sum_of_squares(a: int, b: int, c: int) -> int {
    a * a + b * b + c * c
}

/// Three numbers whose products with `d` are each no larger in size than `a`, `b`
/// and `c` have squares that sum, times the square of `d`, to no more than those of
/// `a`, `b` and `c`.
proof fn lemma_scaled_squares(qa: int, qb: int, qc: int, d: int, a: int, b: int, c: int)
    requires
        (qa * d) * (qa * d) <= a * a,
        (qb * d) * (qb * d) <= b * b,
        (qc * d) * (qc * d) <= c * c,
    ensures
        sum_of_squares(qa, qb, qc) * (d * d) <= sum_of_squares(a, b, c),
{
    assert((qa * d) * (qa * d) == (qa * qa) * (d * d)) by (nonlinear_arith);
    assert((qb * d) * (qb * d) == (qb * qb) * (d * d)) by (nonlinear_arith);
    assert((qc * d) * (qc * d) == (qc * qc) * (d * d)) by (nonlinear_arith);
    assert((qa * qa + qb * qb + qc * qc) * (d * d) == (qa * qa) * (d * d) + (qb * qb) * (d * d)
        + (qc * qc) * (d * d)) by (nonlinear_arith);
}

/// The squares of three numbers that were each multiplied by `l` sum to the sum of
/// their own squares, times the square of `l`.
proof fn lemma_product_squares(a: int, b: int, c: int, l: int)
    ensures
        sum_of_squares(a * l, b * l, c * l) == sum_of_squares(a, b, c) * (l * l),
{
    let ll = l * l;
    assert((a * l) * (a * l) == (a * a) * ll) by (nonlinear_arith)
        requires
            ll == l * l,
    ;
    assert((b * l) * (b * l) == (b * b) * ll) by (nonlinear_arith)
        requires
            ll == l * l,
    ;
    assert((c * l) * (c * l) == (c * c) * ll) by (nonlinear_arith)
        requires
            ll == l * l,
    ;
    let aa = a * a;
    let bb = b * b;
    let cc = c * c;
    assert((aa + bb + cc) * ll == aa * ll + bb * ll + cc * ll) by (nonlinear_arith);
}

/// From `s * l <= n * o` with `n <= l`, a positive `l` and an `o` that is not
/// negative follows `s <= o`.
proof fn lemma_cancel(s: int, l: int, n: int, o: int)
    requires
        s * l <= n * o,
        n <= l,
        l > 0,
        o >= 0,
    ensures
        s <= o,
{
    assert(n * o <= l * o) by (nonlinear_arith)
        requires
            n <= l,
            o >= 0,
    ;
    assert(s <= o) by (nonlinear_arith)
        requires
            s * l <= l * o,
            l > 0,
    ;
}

/// Three numbers, each divided by the rounded-up root of the sum of their squares,
/// make a vector that is no longer than one.
pub proof fn lemma_unit_from_length(a: int, b: int, c: int, len: int)
    requires
        0 < sum_of_squares(a, b, c) <= 0xffff_ffff_ffff_ffff_ffff_ffff_ffff_ffff,
        is_ceil_sqrt(sum_of_squares(a, b, c), len),
    ensures
        spec_ratio(a, len) == trunc_div(a * ONE, len),
        spec_ratio(b, len) == trunc_div(b * ONE, len),
        spec_ratio(c, len) == trunc_div(c * ONE, len),
        -ONE <= spec_ratio(a, len) <= ONE,
        -ONE <= spec_ratio(b, len) <= ONE,
        -ONE <= spec_ratio(c, len) <= ONE,
        (Vec3 {
            x: spec_ratio(a, len),
            y: spec_ratio(b, len),
            z: spec_ratio(c, len),
        }).spec_sqr_len() <= ONE * ONE,
{
    lemma_length_bounds(a, b, c, len);
    lemma_ratio_bounds(a, len);
    lemma_ratio_bounds(b, len);
    lemma_ratio_bounds(c, len);
    let qa = trunc_div(a * ONE, len);
    let qb = trunc_div(b * ONE, len);
    let qc = trunc_div(c * ONE, len);
    lemma_trunc_div_shrinks(a * ONE, len);
    lemma_trunc_div_shrinks(b * ONE, len);
    lemma_trunc_div_shrinks(c * ONE, len);
    lemma_scaled_squares(qa, qb, qc, len, a * ONE, b * ONE, c * ONE);
    lemma_product_squares(a, b, c, ONE as int);
    assert(len * len > 0) by (nonlinear_arith)
        requires
            len > 0,
    ;
    lemma_cancel(sum_of_squares(qa, qb, qc), len * len, sum_of_squares(a, b, c), ONE * ONE);
}

/// Rounding a quotient toward zero takes less than one from its size.
pub proof fn lemma_trunc_div_near(n: int, d: int)
    requires
        d > 0,
    ensures
        (magnitude(trunc_div(n, d)) + 1) * d > magnitude(n),
{
    let m = magnitude(n);
    assert((m / d + 1) * d > m && m / d >= 0) by (nonlinear_arith)
        requires
            m >= 0,
            d > 0,
    ;
}

/// Of two numbers that are not negative, the larger has the larger square.
proof fn lemma_square_grows(a: int, b: int)
    requires
        0 <= b,
    ensures
        a > b ==> a * a > b * b,
        a >= b ==> a * a >= b * b,
{
    if a > b {
        assert(a * a > b * b) by (nonlinear_arith)
            requires
                a > b >= 0,
        ;
    }
    if a == b {
    }
}

/// The square of a number is the square of its size.
proof fn lemma_square_of_magnitude(v: int)
    ensures
        magnitude(v) * magnitude(v) == v * v,
{
    assert((-v) * (-v) == v * v) by (nonlinear_arith);
}

/// Three numbers, each divided by the rounded-up root of the sum of their squares,
/// make a vector that is shorter than one by four millionths at most, where that
/// root is at least two to the power of 32.
pub proof fn lemma_unit_at_least(a: int, b: int, c: int, len: int)
    requires
        0 < sum_of_squares(a, b, c) <= 0xffff_ffff_ffff_ffff_ffff_ffff_ffff_ffff,
        is_ceil_sqrt(sum_of_squares(a, b, c), len),
        len >= 0x1_0000_0000,
    ensures
        (Vec3 {
            x: spec_ratio(a, len),
            y: spec_ratio(b, len),
            z: spec_ratio(c, len),
        }).spec_sqr_len() >= (ONE - 4) * (ONE - 4),
{
    let m = sum_of_squares(a, b, c);
    lemma_unit_from_length(a, b, c, len);
    let qa = trunc_div(a * ONE, len);
    let qb = trunc_div(b * ONE, len);
    let qc = trunc_div(c * ONE, len);
    let ua = magnitude(qa) + 1;
    let ub = magnitude(qb) + 1;
    let uc = magnitude(qc) + 1;
    // Each quotient, one added to its size, times the root passes the coordinate.
    lemma_trunc_div_near(a * ONE, len);
    lemma_trunc_div_near(b * ONE, len);
    lemma_trunc_div_near(c * ONE, len);
    lemma_square_grows(ua * len, magnitude(a * ONE));
    lemma_square_grows(ub * len, magnitude(b * ONE));
    lemma_square_grows(uc * len, magnitude(c * ONE));
    lemma_square_of_magnitude(a * ONE);
    lemma_square_of_magnitude(b * ONE);
    lemma_square_of_magnitude(c * ONE);
    lemma_product_squares(ua, ub, uc, len);
    lemma_product_squares(a, b, c, ONE as int);
    let s1 = sum_of_squares(ua, ub, uc);
    let ll = len * len;
    let oo = ONE * ONE;
    assert(s1 * ll > m * oo);
    // The sum of squares passes the square of the root less one.
    let below = (len - 1) * (len - 1);
    assert(m > below);
    assert(m * oo > below * oo) by (nonlinear_arith)
        requires
            m > below,
            oo > 0,
    ;
    assert(below == ll - 2 * len + 1) by (nonlinear_arith)
        requires
            below == (len - 1) * (len - 1),
            ll == len * len,
    ;
    assert(below * oo == ll * oo - (2 * len - 1) * oo) by (nonlinear_arith)
        requires
            below == ll - 2 * len + 1,
    ;
    let gap = oo - s1;
    assert(gap * ll == oo * ll - s1 * ll) by (nonlinear_arith)
        requires
            gap == oo - s1,
    ;
    assert(ll * oo == oo * ll) by (nonlinear_arith);
    assert(gap * ll < (2 * len - 1) * oo);
    if gap >= 466 {
        assert(gap * ll >= 466 * ll) by (nonlinear_arith)
            requires
                gap >= 466,
                ll >= 0,
        ;
        assert(466 * ll >= 2_001_454_759_936 * len) by (nonlinear_arith)
            requires
                ll == len * len,
                len >= 0x1_0000_0000,
        ;
        assert(oo == 1_000_000_000_000) by (nonlinear_arith)
            requires
                oo == ONE * ONE,
                ONE == 1_000_000,
        ;
        assert((2 * len - 1) * oo < 2_000_000_000_000 * len) by (nonlinear_arith)
            requires
                oo == 1_000_000_000_000,
                len > 0,
        ;
        assert(false);
    }
    // Take the ones off again.
    lemma_square_of_magnitude(qa);
    lemma_square_of_magnitude(qb);
    lemma_square_of_magnitude(qc);
    let (ma, mb, mc) = (magnitude(qa), magnitude(qb), magnitude(qc));
    assert(ua * ua == ma * ma + 2 * ma + 1) by (nonlinear_arith)
        requires
            ua == ma + 1,
    ;
    assert(ub * ub == mb * mb + 2 * mb + 1) by (nonlinear_arith)
        requires
            ub == mb + 1,
    ;
    assert(uc * uc == mc * mc + 2 * mc + 1) by (nonlinear_arith)
        requires
            uc == mc + 1,
    ;
    assert(s1 == sum_of_squares(qa, qb, qc) + 2 * (ma + mb + mc) + 3);
    assert(ma <= ONE && mb <= ONE && mc <= ONE);
}

/// Every vector but zero has a direction, and that is no longer than one and no
/// shorter than one less four millionths.
pub proof fn lemma_normalized_within_one(v: Vec3)
    ensures
        v.spec_normalized() is None <==> v == Vec3::spec_zero(),
        v.spec_normalized() is Some ==> (ONE - 4) * (ONE - 4)
            <= v.spec_normalized().unwrap().spec_sqr_len() <= ONE * ONE,
{
    lemma_only_zero_has_no_length(v);
    if v.spec_sqr_len() != 0 {
        let k = spec_magnifier(v.spec_sqr_len());
        let m = v.spec_sqr_len() * (k * k);
        lemma_magnified(v);
        lemma_ceil_sqrt_exists(m);
        let len = spec_ceil_sqrt(m);
        lemma_unit_from_length(v.x * k, v.y * k, v.z * k, len);
        if len < 0x1_0000_0000 {
            assert(len * len < 0x1_0000_0000_0000_0000) by (nonlinear_arith)
                requires
                    0 <= len < 0x1_0000_0000,
            ;
        }
        lemma_unit_at_least(v.x * k, v.y * k, v.z * k, len);
    }
}

/// A vector that is no longer than one, scaled by `limit`, is no longer than `limit`.
pub proof fn lemma_scale_within(d: Vec3, limit: i64)
    requires
        d.spec_sqr_len() <= ONE * ONE,
    ensures
        d.spec_scale(limit).spec_sqr_len() <= limit * limit,
{
    let s = d.spec_scale(limit);
    lemma_clamped_product(d.x, limit);
    lemma_clamped_product(d.y, limit);
    lemma_clamped_product(d.z, limit);
    lemma_scaled_squares(
        s.x as int,
        s.y as int,
        s.z as int,
        ONE as int,
        d.x * limit,
        d.y * limit,
        d.z * limit,
    );
    lemma_product_squares(d.x as int, d.y as int, d.z as int, limit as int);
    assert(limit * limit >= 0) by (nonlinear_arith);
    assert(d.spec_sqr_len() * (limit * limit) == (limit * limit) * d.spec_sqr_len())
        by (nonlinear_arith);
    assert(s.spec_sqr_len() * (ONE * ONE) <= (limit * limit) * d.spec_sqr_len());
    lemma_cancel_swapped(s.spec_sqr_len(), ONE * ONE, d.spec_sqr_len(), limit * limit);
}

/// From `s * l <= o * n` with `n <= l`, a positive `l` and an `o` that is not
/// negative follows `s <= o`.
proof fn lemma_cancel_swapped(s: int, l: int, n: int, o: int)
    requires
        s * l <= o * n,
        n <= l,
        l > 0,
        o >= 0,
    ensures
        s <= o,
{
    assert(o * n == n * o) by (nonlinear_arith);
    lemma_cancel(s, l, n, o);
}

/// A fixed-point product, times one, is no larger in size than the exact product.
proof fn lemma_clamped_product(a: i64, b: i64)
    ensures
        (spec_mul_fixed(a, b) * ONE) * (spec_mul_fixed(a, b) * ONE) <= (a * b) * (a * b),
{
    let t = trunc_div(a * b, ONE as int);
    let s = spec_mul_fixed(a, b);
    lemma_trunc_div_shrinks(a * b, ONE as int);
    assert(s == clamp_i64(t));
    if t >= 0 {
        assert((s * ONE) * (s * ONE) <= (t * ONE) * (t * ONE)) by (nonlinear_arith)
            requires
                0 <= s <= t,
        ;
    } else {
        assert((s * ONE) * (s * ONE) <= (t * ONE) * (t * ONE)) by (nonlinear_arith)
            requires
                t <= s <= 0,
        ;
    }
}

/// A fixed-point product by a factor between minus one and one, one added to its
/// size, is no smaller than the exact product.
proof fn lemma_product_near(a: i64, b: i64)
    requires
        -ONE <= a <= ONE,
    ensures
        (magnitude(spec_mul_fixed(a, b) as int) + 1) * ONE >= magnitude(a * b),
{
    let t = trunc_div(a * b, ONE as int);
    let s = spec_mul_fixed(a, b);
    lemma_trunc_div_near(a * b, ONE as int);
    assert(magnitude(a * b) <= 0x8000_0000_0000_0000 * ONE) by (nonlinear_arith)
        requires
            -ONE <= a <= ONE,
            -0x8000_0000_0000_0000 <= b <= 0x8000_0000_0000_0000,
            ONE > 0,
    ;
    assert(magnitude(t) == magnitude(a * b) / (ONE as int));
    assert(magnitude(t) <= 0x8000_0000_0000_0000);
    assert(s == clamp_i64(t));
}

/// A vector that is no longer than one, scaled by `limit`, falls short of `limit`
/// times its own length by less than one raw unit along each axis.
pub proof fn lemma_scale_at_least(d: Vec3, limit: i64)
    requires
        d.spec_sqr_len() <= ONE * ONE,
    ensures
        ({
            let s = d.spec_scale(limit);
            sum_of_squares(
                magnitude(s.x as int) + 1,
                magnitude(s.y as int) + 1,
                magnitude(s.z as int) + 1,
            ) * (ONE * ONE) >= (limit * limit) * d.spec_sqr_len()
        }),
{
    let s = d.spec_scale(limit);
    assert(d.x * d.x >= 0 && d.y * d.y >= 0 && d.z * d.z >= 0) by (nonlinear_arith);
    lemma_square_bounds_root(d.x as int, ONE as int);
    lemma_square_bounds_root(d.y as int, ONE as int);
    lemma_square_bounds_root(d.z as int, ONE as int);
    let ux = magnitude(s.x as int) + 1;
    let uy = magnitude(s.y as int) + 1;
    let uz = magnitude(s.z as int) + 1;
    lemma_product_near(d.x, limit);
    lemma_product_near(d.y, limit);
    lemma_product_near(d.z, limit);
    lemma_square_grows(ux * ONE, magnitude(d.x * limit));
    lemma_square_grows(uy * ONE, magnitude(d.y * limit));
    lemma_square_grows(uz * ONE, magnitude(d.z * limit));
    lemma_square_of_magnitude(d.x * limit);
    lemma_square_of_magnitude(d.y * limit);
    lemma_square_of_magnitude(d.z * limit);
    lemma_product_squares(ux, uy, uz, ONE as int);
    lemma_product_squares(d.x as int, d.y as int, d.z as int, limit as int);
    assert(d.spec_sqr_len() * (limit * limit) == (limit * limit) * d.spec_sqr_len())
        by (nonlinear_arith);
}

/// Adding `s` to a coordinate moves it by no more than the size of `s`.
proof fn lemma_add_stays_near(p: i64, s: i64)
    ensures
        spec_sqr_gap(spec_sat_add(p, s), p) <= s * s,
{
    let e = spec_sat_add(p, s) - p;
    if s >= 0 {
        assert(e * e <= s * s) by (nonlinear_arith)
            requires
                0 <= e <= s,
        ;
    } else {
        assert(e * e <= s * s) by (nonlinear_arith)
            requires
                s <= e <= 0,
        ;
    }
}

/// Adding `s` to a point moves it by no more than the length of `s`.
pub proof fn lemma_plus_stays_near(p: Vec3, s: Vec3)
    ensures
        p.spec_plus(s).spec_sqr_distance(p) <= s.spec_sqr_len(),
{
    lemma_add_stays_near(p.x, s.x);
    lemma_add_stays_near(p.y, s.y);
    lemma_add_stays_near(p.z, s.z);
}

} // verus!
