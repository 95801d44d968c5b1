//! Fixed-point 2D vectors. Components are `i64` milli-units: one world unit
//! is `SCALE` stored units. A unit-length direction therefore has magnitude
//! close to `SCALE`, and `normalize` produces exactly that representation.

use vstd::prelude::*;

use crate::math::div_tz;
use crate::math::is_isqrt;
use crate::math::isqrt;
use crate::math::lemma_comp_le;
use crate::math::lemma_div_tz_bound;
use crate::math::lemma_sqrt_ge;
use crate::math::lemma_sqrt_i;
use crate::math::lemma_sqrt_le;
use crate::math::mul_div;
use crate::math::sqrt_i;

verus! {

/// Stored units per world unit.
pub const SCALE: i64 = 1000;

/// Bound on any vector component fed to the scaled operations; keeps all
/// products inside `i64` range.
pub const VEC_LIM: i64 = 4_000_000_000_000;

/// Bound on any scalar multiplier of the scaled operations (force caps,
/// speeds and `SCALE` all stay far below it).
pub const MUL_LIM: i64 = 2_000_000;

/// The mathematical value of a vector: a pair of unbounded integers.
pub ghost struct V2 {
    pub x: int,
    pub y: int,
}

impl V2 {
    pub open spec fn zero() -> V2 {
        V2 { x: 0, y: 0 }
    }

    pub open spec fn plus(self, o: V2) -> V2 {
        V2 { x: self.x + o.x, y: self.y + o.y }
    }

    pub open spec fn minus(self, o: V2) -> V2 {
        V2 { x: self.x - o.x, y: self.y - o.y }
    }
}

/// The squared magnitude.
pub open spec fn norm_sq_s(v: V2) -> int {
    v.x * v.x + v.y * v.y
}

/// The magnitude, rounded down to a whole stored unit.
pub open spec fn mag_s(v: V2) -> int {
    sqrt_i(norm_sq_s(v))
}

/// Both components lie in `[-b, b]`.
pub open spec fn bounded(v: V2, b: int) -> bool {
    &&& -b <= v.x <= b
    &&& -b <= v.y <= b
}

/// Componentwise `v * b / c`, each component rounded toward zero.
pub open spec fn scale_dt_s(v: V2, b: int, c: int) -> V2 {
    V2 { x: div_tz(v.x * b, c), y: div_tz(v.y * b, c) }
}

/// The direction of `v` at magnitude `SCALE`, or zero for the zero vector.
pub open spec fn normalize_s(v: V2) -> V2 {
    if norm_sq_s(v) == 0 {
        V2::zero()
    } else {
        scale_dt_s(v, SCALE as int, mag_s(v))
    }
}

/// `v` with its magnitude clamped to at most `cap`. A vector already inside
/// the cap is returned unchanged; otherwise it is scaled down, and a final
/// check guards the rare rounding corner by falling back to zero.
pub open spec fn clamp_max_s(v: V2, cap: int) -> V2 {
    let n = norm_sq_s(v);
    if n <= cap * (cap + 2) {
        v
    } else {
        let c = scale_dt_s(v, cap, sqrt_i(n));
        if norm_sq_s(c) <= cap * (cap + 2) {
            c
        } else {
            V2::zero()
        }
    }
}

/// `v` with its magnitude clamped into `[lo, hi]`. A zero vector, which has
/// no direction to keep, becomes the reference direction `(lo, 0)`; the same
/// fallback guards the rare rounding corner after rescaling.
pub open spec fn clamp_range_s(v: V2, lo: int, hi: int) -> V2 {
    let n = norm_sq_s(v);
    if n == 0 {
        V2 { x: lo, y: 0 }
    } else {
        let m = sqrt_i(n);
        let c = if m > hi {
            scale_dt_s(v, hi, m)
        } else if m < lo {
            scale_dt_s(v, lo, m)
        } else {
            v
        };
        let n2 = norm_sq_s(c);
        if lo * lo <= n2 <= hi * (hi + 2) {
            c
        } else {
            V2 { x: lo, y: 0 }
        }
    }
}

/// A vector whose squared norm lies below `(b + 1)^2` has both components
/// in `[-b, b]`.
pub proof fn lemma_bounded_by_norm(v: V2, b: int)
    requires
        0 <= b,
        norm_sq_s(v) < (b + 1) * (b + 1),
    ensures
        bounded(v, b),
{
    assert(v.x * v.x >= 0 && v.y * v.y >= 0) by (nonlinear_arith);
    lemma_comp_le(v.x, norm_sq_s(v), b);
    lemma_comp_le(v.y, norm_sq_s(v), b);
}

/// Clamping the zero vector to any positive cap leaves it zero.
pub proof fn lemma_clamp_max_zero(cap: int)
    requires
        cap >= 1,
    ensures
        clamp_max_s(V2::zero(), cap) == V2::zero(),
{
    assert(norm_sq_s(V2::zero()) == 0);
    assert(0 <= cap * (cap + 2)) by (nonlinear_arith)
        requires
            cap >= 1,
    ;
}

/// A fixed-point 2D vector in stored (milli-unit) coordinates.
#[derive(Clone, Copy, Debug, PartialEq, Eq, Structural)]
pub struct Vec2 {
    pub x: i64,
    pub y: i64,
}

impl View for Vec2 {
    type V = V2;

    open spec fn view(&self) -> V2 {
        V2 { x: self.x as int, y: self.y as int }
    }
}

/// `cap * (cap + 2)`, the largest squared norm whose rounded-down root
/// still is at most `cap`.
fn cap_span(cap: i64) -> (r: i64)
    requires
        1 <= cap <= MUL_LIM,
    ensures
        r as int == cap * (cap + 2),
        3 <= r <= 4_000_004_000_000i64,
        cap * (cap + 2) == (cap + 1) * (cap + 1) - 1,
{
    proof {
        assert(3 <= cap * (cap + 2) <= 4_000_004_000_000i64 && cap * (cap + 2) == (cap + 1) * (
        cap + 1) - 1) by (nonlinear_arith)
            requires
                1 <= cap <= 2_000_000,
        ;
    }
    cap * (cap + 2)
}

impl Vec2 {
    pub fn new(x: i64, y: i64) -> (r: Vec2)
        ensures
            r@ == (V2 { x: x as int, y: y as int }),
    {
        Vec2 { x, y }
    }

    pub fn zero() -> (r: Vec2)
        ensures
            r@ == V2::zero(),
    {
        Vec2 { x: 0, y: 0 }
    }

    pub fn plus(self, o: Vec2) -> (r: Vec2)
        requires
            i64::MIN <= self@.x + o@.x <= i64::MAX,
            i64::MIN <= self@.y + o@.y <= i64::MAX,
        ensures
            r@ == self@.plus(o@),
    {
        Vec2 { x: self.x + o.x, y: self.y + o.y }
    }

    pub fn minus(self, o: Vec2) -> (r: Vec2)
        requires
            i64::MIN <= self@.x - o@.x <= i64::MAX,
            i64::MIN <= self@.y - o@.y <= i64::MAX,
        ensures
            r@ == self@.minus(o@),
    {
        Vec2 { x: self.x - o.x, y: self.y - o.y }
    }

    /// The squared magnitude, computed without overflow in `i128`.
    pub fn norm_sq(self) -> (r: i128)
        requires
            bounded(self@, 1_000_000_000_000_000_000),
        ensures
            r as int == norm_sq_s(self@),
            0 <= r as int <= 2_000_000_000_000_000_000_000_000_000_000_000_000i128,
    {
        proof {
            assert(self@.x * self@.x <= 1_000_000_000_000_000_000_000_000_000_000_000_000
                && self@.x * self@.x >= 0) by (nonlinear_arith)
                requires
                    -1_000_000_000_000_000_000 <= self@.x <= 1_000_000_000_000_000_000,
            ;
            assert(self@.y * self@.y <= 1_000_000_000_000_000_000_000_000_000_000_000_000
                && self@.y * self@.y >= 0) by (nonlinear_arith)
                requires
                    -1_000_000_000_000_000_000 <= self@.y <= 1_000_000_000_000_000_000,
            ;
        }
        let xw: i128 = self.x as i128;
        let yw: i128 = self.y as i128;
        xw * xw + yw * yw
    }

    /// The magnitude, rounded down to a whole stored unit.
    pub fn mag(self) -> (r: i64)
        requires
            bounded(self@, 1_000_000_000_000_000_000),
        ensures
            r as int == mag_s(self@),
            is_isqrt(norm_sq_s(self@), r as int),
            0 <= r <= 2_000_000_000_000_000_000,
    {
        let n: i128 = self.norm_sq();
        let root: u64 = isqrt(n as u128);
        proof {
            lemma_sqrt_i(norm_sq_s(self@));
            crate::math::lemma_isqrt_unique(norm_sq_s(self@), root as int, mag_s(self@));
            assert((2_000_000_000_000_000_000i128 + 1) * (2_000_000_000_000_000_000i128 + 1)
                > 2_000_000_000_000_000_000_000_000_000_000_000_000i128) by (nonlinear_arith);
            lemma_sqrt_le(norm_sq_s(self@), 2_000_000_000_000_000_000);
        }
        root as i64
    }

    /// Componentwise `self * b / c`, rounded toward zero.
    pub fn scale_div(self, b: i64, c: i64) -> (r: Vec2)
        requires
            c >= 1,
            bounded(self@, VEC_LIM as int),
            -MUL_LIM <= b <= MUL_LIM,
        ensures
            r@ == scale_dt_s(self@, b as int, c as int),
    {
        Vec2 { x: mul_div(self.x, b, c), y: mul_div(self.y, b, c) }
    }

    /// The direction of `self` at magnitude `SCALE` (zero-safe: the zero
    /// vector maps to the zero vector). Each component of the result lies
    /// in `[-SCALE, SCALE]`.
    pub fn normalize(self) -> (r: Vec2)
        requires
            bounded(self@, VEC_LIM as int),
        ensures
            r@ == normalize_s(self@),
            bounded(r@, SCALE as int),
    {
        let n: i128 = self.norm_sq();
        if n == 0 {
            Vec2::zero()
        } else {
            let m: i64 = self.mag();
            proof {
                lemma_sqrt_ge(norm_sq_s(self@), 1);
                // each component is at most the magnitude in absolute value
                lemma_bounded_by_norm(self@, m as int);
                assert(-((SCALE as int) * m) <= self@.x * SCALE <= (SCALE as int) * m)
                    by (nonlinear_arith)
                    requires
                        -(m as int) <= self@.x <= m as int,
                        m >= 1,
                        SCALE == 1000,
                ;
                assert(-((SCALE as int) * m) <= self@.y * SCALE <= (SCALE as int) * m)
                    by (nonlinear_arith)
                    requires
                        -(m as int) <= self@.y <= m as int,
                        m >= 1,
                        SCALE == 1000,
                ;
                lemma_div_tz_bound(self@.x * SCALE, m as int, SCALE as int);
                lemma_div_tz_bound(self@.y * SCALE, m as int, SCALE as int);
            }
            self.scale_div(SCALE, m)
        }
    }

    /// The dot product.
    pub fn dot(self, o: Vec2) -> (r: i64)
        requires
            bounded(self@, 1_000_000_000),
            bounded(o@, 1_000_000_000),
        ensures
            r as int == self@.x * o@.x + self@.y * o@.y,
    {
        proof {
            assert(-1_000_000_000_000_000_000 <= self@.x * o@.x <= 1_000_000_000_000_000_000)
                by (nonlinear_arith)
                requires
                    -1_000_000_000 <= self@.x <= 1_000_000_000,
                    -1_000_000_000 <= o@.x <= 1_000_000_000,
            ;
            assert(-1_000_000_000_000_000_000 <= self@.y * o@.y <= 1_000_000_000_000_000_000)
                by (nonlinear_arith)
                requires
                    -1_000_000_000 <= self@.y <= 1_000_000_000,
                    -1_000_000_000 <= o@.y <= 1_000_000_000,
            ;
        }
        self.x * o.x + self.y * o.y
    }

    /// `self` with its magnitude clamped to at most `cap` (zero-safe).
    pub fn clamp_len_max(self, cap: i64) -> (r: Vec2)
        requires
            1 <= cap <= MUL_LIM,
            bounded(self@, VEC_LIM as int),
        ensures
            r@ == clamp_max_s(self@, cap as int),
            mag_s(r@) <= cap,
            bounded(r@, cap as int),
            0 <= norm_sq_s(r@) <= cap * (cap + 2),
    {
        let n: i128 = self.norm_sq();
        let cc: i64 = cap_span(cap);
        if n <= cc as i128 {
            proof {
                lemma_sqrt_le(norm_sq_s(self@), cap as int);
                lemma_bounded_by_norm(self@, cap as int);
            }
            self
        } else {
            proof {
                // past the span the true magnitude already exceeds `cap`
                lemma_sqrt_ge(norm_sq_s(self@), cap as int + 1);
            }
            let m: i64 = self.mag();
            proof {
                assert(-((VEC_LIM as int) * m) <= self@.x * cap <= (VEC_LIM as int) * m)
                    by (nonlinear_arith)
                    requires
                        -(VEC_LIM as int) <= self@.x <= VEC_LIM as int,
                        1 <= cap,
                        cap < m,
                        VEC_LIM == 4_000_000_000_000i64,
                ;
                assert(-((VEC_LIM as int) * m) <= self@.y * cap <= (VEC_LIM as int) * m)
                    by (nonlinear_arith)
                    requires
                        -(VEC_LIM as int) <= self@.y <= VEC_LIM as int,
                        1 <= cap,
                        cap < m,
                        VEC_LIM == 4_000_000_000_000i64,
                ;
                lemma_div_tz_bound(self@.x * cap, m as int, VEC_LIM as int);
                lemma_div_tz_bound(self@.y * cap, m as int, VEC_LIM as int);
            }
            let c: Vec2 = self.scale_div(cap, m);
            let n2: i128 = c.norm_sq();
            if n2 <= cc as i128 {
                proof {
                    lemma_sqrt_le(norm_sq_s(c@), cap as int);
                    lemma_bounded_by_norm(c@, cap as int);
                }
                c
            } else {
                proof {
                    lemma_sqrt_le(0, cap as int);
                }
                Vec2::zero()
            }
        }
    }

    /// `self` with its magnitude clamped into `[lo, hi]`. The zero vector
    /// has no direction to keep and becomes the reference direction
    /// `(lo, 0)`.
    pub fn clamp_len_range(self, lo: i64, hi: i64) -> (r: Vec2)
        requires
            1 <= lo <= hi,
            hi <= MUL_LIM,
            bounded(self@, VEC_LIM as int),
        ensures
            r@ == clamp_range_s(self@, lo as int, hi as int),
            lo as int <= mag_s(r@) <= hi as int,
            bounded(r@, hi as int),
            lo * lo <= norm_sq_s(r@) <= hi * (hi + 2),
    {
        let n: i128 = self.norm_sq();
        let hh: i64 = cap_span(hi);
        proof {
            assert(0 <= lo * lo <= 4_000_000_000_000i64 && lo * lo < (lo + 1) * (lo + 1) && lo
                * lo <= hi * (hi + 2)) by (nonlinear_arith)
                requires
                    1 <= lo <= hi <= 2_000_000,
            ;
            // the fallback (lo, 0) has magnitude exactly lo
            lemma_sqrt_le(lo * lo, lo as int);
            lemma_sqrt_ge(lo * lo, lo as int);
        }
        let ll: i64 = lo * lo;
        if n == 0 {
            Vec2::new(lo, 0)
        } else {
            let m: i64 = self.mag();
            proof {
                lemma_sqrt_ge(norm_sq_s(self@), 1);
            }
            let c: Vec2 = if m > hi {
                proof {
                    assert(-((VEC_LIM as int) * m) <= self@.x * hi <= (VEC_LIM as int) * m)
                        by (nonlinear_arith)
                        requires
                            -(VEC_LIM as int) <= self@.x <= VEC_LIM as int,
                            1 <= hi,
                            hi < m,
                            VEC_LIM == 4_000_000_000_000i64,
                    ;
                    assert(-((VEC_LIM as int) * m) <= self@.y * hi <= (VEC_LIM as int) * m)
                        by (nonlinear_arith)
                        requires
                            -(VEC_LIM as int) <= self@.y <= VEC_LIM as int,
                            1 <= hi,
                            hi < m,
                            VEC_LIM == 4_000_000_000_000i64,
                    ;
                    lemma_div_tz_bound(self@.x * hi, m as int, VEC_LIM as int);
                    lemma_div_tz_bound(self@.y * hi, m as int, VEC_LIM as int);
                }
                self.scale_div(hi, m)
            } else if m < lo {
                proof {
                    lemma_bounded_by_norm(self@, m as int);
                    assert(-((MUL_LIM as int) * m) <= self@.x * lo <= (MUL_LIM as int) * m)
                        by (nonlinear_arith)
                        requires
                            -(m as int) <= self@.x <= m as int,
                            1 <= lo <= 2_000_000,
                            m >= 1,
                            MUL_LIM == 2_000_000i64,
                    ;
                    assert(-((MUL_LIM as int) * m) <= self@.y * lo <= (MUL_LIM as int) * m)
                        by (nonlinear_arith)
                        requires
                            -(m as int) <= self@.y <= m as int,
                            1 <= lo <= 2_000_000,
                            m >= 1,
                            MUL_LIM == 2_000_000i64,
                    ;
                    lemma_div_tz_bound(self@.x * lo, m as int, MUL_LIM as int);
                    lemma_div_tz_bound(self@.y * lo, m as int, MUL_LIM as int);
                }
                self.scale_div(lo, m)
            } else {
                self
            };
            let n2: i128 = c.norm_sq();
            if ll as i128 <= n2 && n2 <= hh as i128 {
                proof {
                    lemma_sqrt_le(norm_sq_s(c@), hi as int);
                    lemma_sqrt_ge(norm_sq_s(c@), lo as int);
                    lemma_bounded_by_norm(c@, hi as int);
                }
                c
            } else {
                Vec2::new(lo, 0)
            }
        }
    }
}

} // verus!
