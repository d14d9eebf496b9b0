//! Two-dimensional fixed-point vectors.

use vstd::prelude::*;
use crate::fx;
use crate::fx::SCALE;

verus! {

/// Bound on vector components accepted by the vector operations; squares of
/// such components still fit an `i64`.
pub const VEC_LIM: i64 = 0x8000_0000;

/// A 2D vector of Q16.16 fixed-point components. The vertical axis points
/// down the screen.
#[derive(Clone, Copy, Debug, PartialEq, Eq, Structural)]
pub struct FxVec2 {
    pub x: i64,
    pub y: i64,
}

/// The integer square root: the unique `r >= 0` with
/// `r * r <= n < (r + 1) * (r + 1)`.
pub open spec fn isqrt_spec(n: int) -> int {
    choose|r: int| 0 <= r && #[trigger] (r * r) <= n && n < (r + 1) * (r + 1)
}

/// Any value with the square-root property is the integer square root.
pub proof fn lemma_isqrt_unique(n: int, r: int)
    requires
        0 <= r,
        r * r <= n,
        n < (r + 1) * (r + 1),
    ensures
        isqrt_spec(n) == r,
{
    assert(exists|q: int| 0 <= q && #[trigger] (q * q) <= n && n < (q + 1) * (q + 1)) by {
        assert(0 <= r && r * r <= n && n < (r + 1) * (r + 1));
    }
    let c: int = isqrt_spec(n);
    assert(0 <= c && c * c <= n && n < (c + 1) * (c + 1));
    assert(c == r) by (nonlinear_arith)
        requires
            0 <= r,
            0 <= c,
            r * r <= n,
            c * c <= n,
            n < (r + 1) * (r + 1),
            n < (c + 1) * (c + 1),
    ;
}

/// Integer square root by bisection.
pub fn isqrt64(n: u64) -> (r: u64)
    ensures
        r == isqrt_spec(n as int),
        r * r <= n,
        (n as int) < ((r as int) + 1) * ((r as int) + 1),
        r < 0x1_0000_0000u64,
{
    let mut lo: u64 = 0;
    let mut hi: u64 = 0x1_0000_0000;
    while lo + 1 < hi
        invariant
            lo < hi <= 0x1_0000_0000u64,
            (lo as int) * (lo as int) <= n as int,
            (n as int) < (hi as int) * (hi as int),
        decreases hi - lo,
    {
        let mid: u64 = lo + (hi - lo) / 2;
        proof {
            assert((mid as int) * (mid as int) < 0x1_0000_0000_0000_0000) by (nonlinear_arith)
                requires
                    0 <= (mid as int) < 0x1_0000_0000,
            ;
        }
        if mid * mid <= n {
            lo = mid;
        } else {
            hi = mid;
        }
    }
    proof {
        lemma_isqrt_unique(n as int, lo as int);
    }
    lo
}

impl FxVec2 {
    /// The zero vector.
    pub fn zero() -> (r: FxVec2)
        ensures
            r.x == 0,
            r.y == 0,
    {
        FxVec2 { x: 0, y: 0 }
    }

    /// Components within [`VEC_LIM`].
    pub open spec fn bounded(self, lim: int) -> bool {
        &&& -lim <= self.x <= lim
        &&& -lim <= self.y <= lim
    }

    /// Component-wise sum.
    pub fn plus(self, other: FxVec2) -> (r: FxVec2)
        requires
            self.x + other.x <= i64::MAX,
            self.x + other.x >= i64::MIN,
            self.y + other.y <= i64::MAX,
            self.y + other.y >= i64::MIN,
        ensures
            r.x == self.x + other.x,
            r.y == self.y + other.y,
    {
        FxVec2 { x: self.x + other.x, y: self.y + other.y }
    }

    /// Both components scaled by the fixed-point factor `k`.
    pub fn scaled(self, k: i64) -> (r: FxVec2)
        requires
            self.bounded(VEC_LIM as int),
            -VEC_LIM <= k <= VEC_LIM,
        ensures
            r.x == fx::fx_mul_spec(self.x as int, k as int),
            r.y == fx::fx_mul_spec(self.y as int, k as int),
            fx::abs_spec(r.x as int) * (SCALE as int) <= fx::abs_spec((self.x as int) * (k as int)),
            fx::abs_spec(r.y as int) * (SCALE as int) <= fx::abs_spec((self.y as int) * (k as int)),
    {
        proof {
            fx::lemma_mul_bound(self.x as int, k as int, VEC_LIM as int, VEC_LIM as int);
            fx::lemma_mul_bound(self.y as int, k as int, VEC_LIM as int, VEC_LIM as int);
        }
        FxVec2 { x: fx::fx_mul(self.x, k), y: fx::fx_mul(self.y, k) }
    }

    /// The squared length, in raw (doubly scaled) units.
    pub open spec fn len_sq_spec(self) -> int {
        self.x * self.x + self.y * self.y
    }

    /// The fixed-point length of the vector: because the squared length
    /// carries two scale factors, its integer square root is again a
    /// fixed-point quantity.
    pub open spec fn len_spec(self) -> int {
        isqrt_spec(self.len_sq_spec())
    }

    /// Squared length in raw units.
    pub fn len_sq(self) -> (r: u64)
        requires
            self.bounded(VEC_LIM as int),
        ensures
            r == self.len_sq_spec(),
    {
        proof {
            fx::lemma_mul_bound(self.x as int, self.x as int, VEC_LIM as int, VEC_LIM as int);
            fx::lemma_mul_bound(self.y as int, self.y as int, VEC_LIM as int, VEC_LIM as int);
            assert(self.x * self.x >= 0) by (nonlinear_arith);
            assert(self.y * self.y >= 0) by (nonlinear_arith);
        }
        (self.x * self.x) as u64 + (self.y * self.y) as u64
    }

    /// Fixed-point length.
    pub fn len(self) -> (r: i64)
        requires
            self.bounded(VEC_LIM as int),
        ensures
            r == self.len_spec(),
            (r as int) * (r as int) <= self.len_sq_spec(),
            self.len_sq_spec() < ((r as int) + 1) * ((r as int) + 1),
            0 <= r < 0x1_0000_0000,
    {
        let sq: u64 = self.len_sq();
        let r: u64 = isqrt64(sq);
        r as i64
    }

    /// The value [`FxVec2::normalize_or_zero`] returns: each component
    /// divided by the vector's fixed-point length, or zero for the zero
    /// vector.
    pub open spec fn normalize_spec(self) -> (int, int) {
        if self.x == 0 && self.y == 0 {
            (0int, 0int)
        } else {
            (
                fx::fx_div_spec(self.x as int, self.len_spec()),
                fx::fx_div_spec(self.y as int, self.len_spec()),
            )
        }
    }

    /// The unit vector in this vector's direction (zero stays zero); the
    /// result of dividing each component by the vector's length.
    pub fn normalize_or_zero(self) -> (r: FxVec2)
        requires
            self.bounded(VEC_LIM as int),
        ensures
            (r.x as int, r.y as int) == self.normalize_spec(),
            self.x == 0 && self.y == 0 ==> r.x == 0 && r.y == 0,
            !(self.x == 0 && self.y == 0) ==> {
                &&& self.len_spec() >= 1
                &&& r.x == fx::fx_div_spec(self.x as int, self.len_spec())
                &&& r.y == fx::fx_div_spec(self.y as int, self.len_spec())
            },
            r.bounded(2 * SCALE as int),
    {
        if self.x == 0 && self.y == 0 {
            FxVec2 { x: 0, y: 0 }
        } else {
            let l: i64 = self.len();
            proof {
                let n: int = self.len_sq_spec();
                assert(n >= 1) by (nonlinear_arith)
                    requires
                        n == self.x * self.x + self.y * self.y,
                        !(self.x == 0 && self.y == 0),
                ;
                assert(l >= 1) by (nonlinear_arith)
                    requires
                        0 <= l,
                        (l as int) * (l as int) <= n,
                        n < ((l as int) + 1) * ((l as int) + 1),
                        n >= 1,
                ;
                fx::lemma_mul_bound(self.x as int, SCALE as int, VEC_LIM as int, SCALE as int);
                fx::lemma_mul_bound(self.y as int, SCALE as int, VEC_LIM as int, SCALE as int);
                assert(self.x * self.x >= 0) by (nonlinear_arith);
                assert(self.y * self.y >= 0) by (nonlinear_arith);
                lemma_normalized_component(self.x as int, l as int, n);
                lemma_normalized_component(self.y as int, l as int, n);
            }
            FxVec2 { x: fx::fx_div(self.x, l), y: fx::fx_div(self.y, l) }
        }
    }

    /// Fixed-point dot product.
    pub fn dot(self, other: FxVec2) -> (r: i64)
        requires
            self.bounded(VEC_LIM as int),
            other.bounded(VEC_LIM as int),
        ensures
            r == fx::fx_mul_spec(self.x as int, other.x as int) + fx::fx_mul_spec(
                self.y as int,
                other.y as int,
            ),
    {
        proof {
            fx::lemma_mul_bound(self.x as int, other.x as int, VEC_LIM as int, VEC_LIM as int);
            fx::lemma_mul_bound(self.y as int, other.y as int, VEC_LIM as int, VEC_LIM as int);
        }
        let px: i64 = fx::fx_mul(self.x, other.x);
        let py: i64 = fx::fx_mul(self.y, other.y);
        px + py
    }

    /// Fixed-point perpendicular dot product (the z component of the cross
    /// product); for a unit `other` this is the signed length of the
    /// rejection of `self` from `other`.
    pub fn perp_dot(self, other: FxVec2) -> (r: i64)
        requires
            self.bounded(VEC_LIM as int),
            other.bounded(VEC_LIM as int),
        ensures
            r == fx::fx_mul_spec(self.x as int, other.y as int) - fx::fx_mul_spec(
                self.y as int,
                other.x as int,
            ),
    {
        proof {
            fx::lemma_mul_bound(self.x as int, other.y as int, VEC_LIM as int, VEC_LIM as int);
            fx::lemma_mul_bound(self.y as int, other.x as int, VEC_LIM as int, VEC_LIM as int);
        }
        let px: i64 = fx::fx_mul(self.x, other.y);
        let py: i64 = fx::fx_mul(self.y, other.x);
        px - py
    }
}

/// For a nonnegative dividend, the quotient is below any `m` whose product
/// with the divisor reaches the dividend.
proof fn lemma_div_upper(a: int, b: int, m: int)
    requires
        a >= 0,
        b >= 1,
        m >= 0,
        a <= m * b,
    ensures
        0 <= a / b <= m,
{
    assert(0 <= a / b <= m) by (nonlinear_arith)
        requires
            a >= 0,
            b >= 1,
            m >= 0,
            a <= m * b,
    ;
}

/// A component divided by the vector's length is at most one whole unit
/// plus one part, so normalized vectors stay within twice the unit scale.
proof fn lemma_normalized_component(c: int, l: int, n: int)
    requires
        l >= 1,
        -0x8000_0000 <= c <= 0x8000_0000,
        c * c <= n,
        n < (l + 1) * (l + 1),
    ensures
        -2 * (SCALE as int) <= fx::fx_div_spec(c, l) <= 2 * (SCALE as int),
{
    let s: int = SCALE as int;
    let a: int = fx::abs_spec(c);
    assert(a <= l + 1) by (nonlinear_arith)
        requires
            l >= 1,
            c * c <= n,
            n < (l + 1) * (l + 1),
            a == fx::abs_spec(c),
    ;
    assert(a * s <= (2 * s) * l) by (nonlinear_arith)
        requires
            a <= 2 * l,
            s >= 1,
            l >= 1,
            a >= 0,
    ;
    lemma_div_upper(a * s, l, 2 * s);
    if c >= 0 {
        assert(fx::trunc_div(c * s, l) == (a * s) / l);
    } else {
        assert(c * s < 0);
        assert(-(c * s) == a * s);
        assert(fx::trunc_div(c * s, l) == -((a * s) / l));
    }
}

} // verus!
