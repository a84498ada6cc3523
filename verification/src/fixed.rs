use vstd::prelude::*;

verus! {

/// The fixed-point representation of the number one.
pub const ONE: i64 = 1_000_000;

/// `v` brought into the range of `i64`.
pub open spec fn clamp_i64(v: int) -> int {
    if v < i64::MIN {
        i64::MIN as int
    } else if v > i64::MAX {
        i64::MAX as int
    } else {
        v
    }
}

/// The quotient of `n` by a positive `d`, rounded toward zero.
pub open spec fn trunc_div(n: int, d: int) -> int {
    if n >= 0 {
        n / d
    } else {
        -((-n) / d)
    }
}

pub open spec fn spec_sat_add(a: i64, b: i64) -> i64 {
    clamp_i64(a + b) as i64
}

pub open spec fn spec_sat_sub(a: i64, b: i64) -> i64 {
    clamp_i64(a - b) as i64
}

pub open spec fn spec_sat_neg(a: i64) -> i64 {
    clamp_i64(-a) as i64
}

/// The fixed-point product of `a` and `b`.
pub open spec fn spec_mul_fixed(a: i64, b: i64) -> i64 {
    clamp_i64(trunc_div(a * b, ONE as int)) as i64
}

fn clamp_wide(v: i128) -> (r: i64)
    ensures
        r == clamp_i64(v as int),
{
    if v < i64::MIN as i128 {
        i64::MIN
    } else if v > i64::MAX as i128 {
        i64::MAX
    } else {
        v as i64
    }
}

pub fn sat_add(a: i64, b: i64) -> (r: i64)
    ensures
        r == spec_sat_add(a, b),
{
    clamp_wide(a as i128 + b as i128)
}

pub fn sat_sub(a: i64, b: i64) -> (r: i64)
    ensures
        r == spec_sat_sub(a, b),
{
    clamp_wide(a as i128 - b as i128)
}

pub fn sat_neg(a: i64) -> (r: i64)
    ensures
        r == spec_sat_neg(a),
{
    clamp_wide(-(a as i128))
}

pub fn mul_fixed(a: i64, b: i64) -> (r: i64)
    ensures
        r == spec_mul_fixed(a, b),
{
    assert(-0x4000_0000_0000_0000_0000_0000_0000_0000 <= a * b
        <= 0x4000_0000_0000_0000_0000_0000_0000_0000) by (nonlinear_arith)
        requires
            -0x8000_0000_0000_0000 <= a < 0x8000_0000_0000_0000,
            -0x8000_0000_0000_0000 <= b < 0x8000_0000_0000_0000,
    ;
    let p: i128 = a as i128 * b as i128;
    let q: i128 = p / (ONE as i128);
    clamp_wide(q)
}

/// `r` is the least natural number whose square is at least `n`.
pub open spec fn is_ceil_sqrt(n: int, r: int) -> bool {
    &&& r >= 0
    &&& r * r >= n
    &&& (r == 0 || (r - 1) * (r - 1) < n)
}

/// The square root of `n`, rounded up.
pub open spec fn spec_ceil_sqrt(n: int) -> int {
    choose|r: int| is_ceil_sqrt(n, r)
}

/// At most one number is the rounded-up square root of `n`.
pub proof fn lemma_ceil_sqrt_unique(n: int, r: int, s: int)
    requires
        is_ceil_sqrt(n, r),
        is_ceil_sqrt(n, s),
    ensures
        r == s,
{
    if r < s {
        assert((s - 1) * (s - 1) >= r * r) by (nonlinear_arith)
            requires
                0 <= r <= s - 1,
        ;
    }
    if s < r {
        assert((r - 1) * (r - 1) >= s * s) by (nonlinear_arith)
            requires
                0 <= s <= r - 1,
        ;
    }
}

proof fn lemma_ceil_sqrt_search(n: int, r: int)
    requires
        n > 0,
        r >= 1,
        (r - 1) * (r - 1) < n,
    ensures
        exists|s: int| is_ceil_sqrt(n, s),
    decreases n - r,
{
    if r * r >= n {
        assert(is_ceil_sqrt(n, r));
    } else {
        assert(r <= r * r) by (nonlinear_arith)
            requires
                r >= 1,
        ;
        lemma_ceil_sqrt_search(n, r + 1);
    }
}

/// Every natural number has a rounded-up square root.
pub proof fn lemma_ceil_sqrt_exists(n: int)
    requires
        n >= 0,
    ensures
        is_ceil_sqrt(n, spec_ceil_sqrt(n)),
{
    if n == 0 {
        assert(is_ceil_sqrt(0, 0));
    } else {
        lemma_ceil_sqrt_search(n, 1);
    }
}

pub fn ceil_sqrt(n: u128) -> (r: u128)
    ensures
        r == spec_ceil_sqrt(n as int),
        is_ceil_sqrt(n as int, r as int),
{
    if n == 0 {
        proof {
            assert(is_ceil_sqrt(0, 0));
            lemma_ceil_sqrt_unique(0, 0, spec_ceil_sqrt(0));
        }
        return 0;
    }
    let mut lo: u128 = 0;
    let mut hi: u128 = 0x1_0000_0000_0000_0000;
    assert(hi * hi >= n) by (nonlinear_arith)
        requires
            hi == 0x1_0000_0000_0000_0000,
            n <= 0xffff_ffff_ffff_ffff_ffff_ffff_ffff_ffff,
    ;
    while hi - lo > 1
        invariant
            lo < hi <= 0x1_0000_0000_0000_0000,
            lo * lo < n,
            hi * hi >= n,
        decreases hi - lo,
    {
        let mid: u128 = lo + (hi - lo) / 2;
        assert(mid * mid <= 0xffff_ffff_ffff_ffff * 0xffff_ffff_ffff_ffff) by (nonlinear_arith)
            requires
                0 <= mid <= 0xffff_ffff_ffff_ffff,
        ;
        if mid * mid >= n {
            hi = mid;
        } else {
            lo = mid;
        }
    }
    proof {
        assert(is_ceil_sqrt(n as int, hi as int));
        lemma_ceil_sqrt_unique(n as int, hi as int, spec_ceil_sqrt(n as int));
    }
    hi
}

} // verus!
