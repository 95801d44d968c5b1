//! Scalar helpers for the fixed-point arithmetic of the simulation:
//! truncating division and the rounded-down integer square root.

use vstd::prelude::*;

verus! {

/// Division of `p` by a positive divisor `q`, rounded toward zero.
/// Every fixed-point operation of this crate rounds this way.
pub open spec fn div_tz(p: int, q: int) -> int
    recommends
        q >= 1,
{
    if p >= 0 {
        p / q
    } else {
        -((-p) / q)
    }
}

/// `r` is the integer square root of `n`, rounded down.
pub open spec fn is_isqrt(n: int, r: int) -> bool {
    &&& 0 <= r
    &&& r * r <= n
    &&& n < (r + 1) * (r + 1)
}

/// The integer square root of `n`, rounded down (meaningful for `n >= 0`).
pub open spec fn sqrt_i(n: int) -> int {
    choose|r: int| is_isqrt(n, r)
}

/// Every nonnegative integer has a rounded-down square root.
pub proof fn lemma_isqrt_exists(n: int) -> (r: int)
    requires
        n >= 0,
    ensures
        is_isqrt(n, r),
    decreases n,
{
    if n == 0 {
        0
    } else {
        let p = lemma_isqrt_exists(n - 1);
        if (p + 1) * (p + 1) <= n {
            assert(n == (p + 1) * (p + 1));
            assert(((p + 1) + 1) * ((p + 1) + 1) > (p + 1) * (p + 1)) by (nonlinear_arith)
                requires
                    p >= 0,
            ;
            assert(is_isqrt(n, p + 1));
            p + 1
        } else {
            assert(is_isqrt(n, p));
            p
        }
    }
}

/// The rounded-down square root is unique.
pub proof fn lemma_isqrt_unique(n: int, a: int, b: int)
    requires
        is_isqrt(n, a),
        is_isqrt(n, b),
    ensures
        a == b,
{
    if a < b {
        assert((a + 1) * (a + 1) <= b * b) by (nonlinear_arith)
            requires
                0 <= a,
                a + 1 <= b,
        ;
    }
    if b < a {
        assert((b + 1) * (b + 1) <= a * a) by (nonlinear_arith)
            requires
                0 <= b,
                b + 1 <= a,
        ;
    }
}

/// `sqrt_i` denotes the rounded-down square root on every nonnegative input.
pub proof fn lemma_sqrt_i(n: int)
    requires
        n >= 0,
    ensures
        is_isqrt(n, sqrt_i(n)),
        0 <= sqrt_i(n),
        sqrt_i(n) * sqrt_i(n) <= n,
        n < (sqrt_i(n) + 1) * (sqrt_i(n) + 1),
{
    let r = lemma_isqrt_exists(n);
    assert(is_isqrt(n, r));
    assert(is_isqrt(n, sqrt_i(n)));
}

/// A square root stays at or below `b` when `n` lies below `(b + 1)^2`.
pub proof fn lemma_sqrt_le(n: int, b: int)
    requires
        0 <= n,
        0 <= b,
        n < (b + 1) * (b + 1),
    ensures
        sqrt_i(n) <= b,
{
    lemma_sqrt_i(n);
    let s = sqrt_i(n);
    if s > b {
        assert(s * s >= (b + 1) * (b + 1)) by (nonlinear_arith)
            requires
                s >= b + 1,
                b >= 0,
        ;
    }
}

/// A square root reaches `b` as soon as `n` reaches `b^2`.
pub proof fn lemma_sqrt_ge(n: int, b: int)
    requires
        0 <= b,
        b * b <= n,
    ensures
        sqrt_i(n) >= b,
{
    lemma_sqrt_i(n);
    let s = sqrt_i(n);
    if s < b {
        assert((s + 1) * (s + 1) <= b * b) by (nonlinear_arith)
            requires
                s + 1 <= b,
                s >= 0,
        ;
    }
}

/// A component of a vector whose squared norm lies below `(b + 1)^2` lies in `[-b, b]`.
pub proof fn lemma_comp_le(c: int, n: int, b: int)
    requires
        c * c <= n,
        0 <= b,
        n < (b + 1) * (b + 1),
    ensures
        -b <= c <= b,
{
    if c > b || c < -b {
        assert(c * c >= (b + 1) * (b + 1)) by (nonlinear_arith)
            requires
                c >= b + 1 || c <= -(b + 1),
                b >= 0,
        ;
    }
}

/// Truncating division by a positive divisor does not grow the magnitude,
/// and more generally respects any multiple-of-the-divisor bound.
pub proof fn lemma_div_tz_bound(p: int, q: int, b: int)
    requires
        q >= 1,
        0 <= b,
        -(b * q) <= p <= b * q,
    ensures
        -b <= div_tz(p, q) <= b,
{
    if p >= 0 {
        vstd::arithmetic::div_mod::lemma_div_pos_is_pos(p, q);
        vstd::arithmetic::div_mod::lemma_div_is_ordered(p, b * q, q);
        vstd::arithmetic::div_mod::lemma_div_by_multiple(b, q);
    } else {
        vstd::arithmetic::div_mod::lemma_div_pos_is_pos(-p, q);
        vstd::arithmetic::div_mod::lemma_div_is_ordered(-p, b * q, q);
        vstd::arithmetic::div_mod::lemma_div_by_multiple(b, q);
    }
}

/// Truncating division by a positive divisor never grows the magnitude.
pub proof fn lemma_div_tz_magnitude(p: int, q: int)
    requires
        q >= 1,
    ensures
        p >= 0 ==> 0 <= div_tz(p, q) <= p,
        p < 0 ==> p <= div_tz(p, q) <= 0,
{
    if p >= 0 {
        assert(0 <= p * q && p <= p * q) by (nonlinear_arith)
            requires
                p >= 0,
                q >= 1,
        ;
        lemma_div_tz_bound(p, q, p);
    } else {
        assert(0 <= (-p) * q && -p <= (-p) * q) by (nonlinear_arith)
            requires
                -p >= 0,
                q >= 1,
        ;
        lemma_div_tz_bound(p, q, -p);
    }
}

/// The rounded-down integer square root, by binary search.
pub fn isqrt(n: u128) -> (r: u64)
    requires
        n < 0x40000000000000000000000000000000u128,
    ensures
        is_isqrt(n as int, r as int),
        r as int == sqrt_i(n as int),
{
    let mut lo: u128 = 0;
    let mut hi: u128 = if n < 0x7fffffffffffffffu128 {
        n
    } else {
        0x7fffffffffffffffu128
    };
    proof {
        assert(n < (n + 1) * (n + 1)) by (nonlinear_arith)
            requires
                n >= 0,
        ;
        assert(n < (0x7fffffffffffffffu128 + 1) * (0x7fffffffffffffffu128 + 1));
    }
    while lo < hi
        invariant
            0 <= lo <= hi <= 0x7fffffffffffffffu128,
            lo * lo <= n,
            n < (hi + 1) * (hi + 1),
        decreases hi - lo,
    {
        let mid: u128 = lo + (hi - lo + 1) / 2;
        assert(lo < mid <= hi);
        proof {
            assert(mid * mid <= 0x7fffffffffffffffu128 * 0x7fffffffffffffffu128)
                by (nonlinear_arith)
                requires
                    0 <= mid <= 0x7fffffffffffffffu128,
            ;
        }
        let sq: u128 = mid * mid;
        if sq <= n {
            lo = mid;
        } else {
            hi = mid - 1;
        }
    }
    proof {
        lemma_sqrt_i(n as int);
        lemma_isqrt_unique(n as int, lo as int, sqrt_i(n as int));
        assert(lo <= 0x7fffffffffffffffu128);
    }
    lo as u64
}

/// Fixed-point building block: `a * b / c`, rounded toward zero.
/// The bounds keep every intermediate product inside `i64` range.
pub fn mul_div(a: i64, b: i64, c: i64) -> (r: i64)
    requires
        c >= 1,
        -4_000_000_000_000i64 <= a <= 4_000_000_000_000i64,
        -2_000_000i64 <= b <= 2_000_000i64,
    ensures
        r as int == div_tz(a * b, c as int),
        a * b >= 0 ==> 0 <= r as int <= a * b,
        a * b < 0 ==> a * b <= r as int <= 0,
{
    proof {
        assert(-8_000_000_000_000_000_000i128 <= (a as i128) * (b as i128)
            <= 8_000_000_000_000_000_000i128) by (nonlinear_arith)
            requires
                -4_000_000_000_000i64 <= a <= 4_000_000_000_000i64,
                -2_000_000i64 <= b <= 2_000_000i64,
        ;
    }
    let prod: i128 = (a as i128) * (b as i128);
    let neg: bool = prod < 0;
    let pa: u128 = if prod < 0 {
        (-prod) as u128
    } else {
        prod as u128
    };
    let q: u128 = pa / (c as u128);
    proof {
        lemma_div_tz_magnitude(pa as int, c as int);
        assert(q as int == div_tz(pa as int, c as int));
        assert(q <= pa);
    }
    if neg {
        let r: i64 = -(q as i64);
        proof {
            lemma_div_tz_magnitude(a * b, c as int);
            assert(div_tz(a * b, c as int) == -(div_tz(-(a * b), c as int)));
        }
        r
    } else {
        let r: i64 = q as i64;
        proof {
            lemma_div_tz_magnitude(a * b, c as int);
        }
        r
    }
}

} // verus!
