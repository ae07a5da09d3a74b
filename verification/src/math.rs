//! Integer 3-vectors and the square-root primitive of the geometry.

use vstd::prelude::*;

verus! {

use crate::fx::COORD_MAX;

/// A point or direction, componentwise fixed-point (`crate::fx::SCALE`).
#[derive(Clone, Copy, PartialEq, Eq, Structural, Debug)]
pub struct Vec3 {
    pub x: i64,
    pub y: i64,
    pub z: i64,
}

/// The mathematical dot product of two vectors, unreduced (it carries
/// `SCALE * SCALE` when both arguments are fixed-point scalars).
pub open spec fn dot3(a: Vec3, b: Vec3) -> int {
    a.x * b.x + a.y * b.y + a.z * b.z
}

/// All three components within `bound` in magnitude.
pub open spec fn in_range(v: Vec3, bound: int) -> bool {
    &&& -bound <= v.x <= bound
    &&& -bound <= v.y <= bound
    &&& -bound <= v.z <= bound
}

/// A coordinate vector the geometry accepts.
pub open spec fn in_coords(v: Vec3) -> bool {
    in_range(v, COORD_MAX as int)
}

impl Vec3 {
    pub fn new(x: i64, y: i64, z: i64) -> (v: Vec3)
        ensures
            v == (Vec3 { x, y, z }),
    {
        Vec3 { x, y, z }
    }

    pub fn zero() -> (v: Vec3)
        ensures
            v == (Vec3 { x: 0, y: 0, z: 0 }),
    {
        Vec3 { x: 0, y: 0, z: 0 }
    }

    /// Componentwise sum.
    pub fn plus(self, other: Vec3) -> (v: Vec3)
        requires
            i64::MIN <= self.x + other.x <= i64::MAX,
            i64::MIN <= self.y + other.y <= i64::MAX,
            i64::MIN <= self.z + other.z <= i64::MAX,
        ensures
            v.x == self.x + other.x,
            v.y == self.y + other.y,
            v.z == self.z + other.z,
    {
        Vec3 { x: self.x + other.x, y: self.y + other.y, z: self.z + other.z }
    }

    /// Componentwise difference.
    pub fn minus(self, other: Vec3) -> (v: Vec3)
        requires
            i64::MIN <= self.x - other.x <= i64::MAX,
            i64::MIN <= self.y - other.y <= i64::MAX,
            i64::MIN <= self.z - other.z <= i64::MAX,
        ensures
            v.x == self.x - other.x,
            v.y == self.y - other.y,
            v.z == self.z - other.z,
    {
        Vec3 { x: self.x - other.x, y: self.y - other.y, z: self.z - other.z }
    }

    /// Dot product, exact, on the wide type.
    pub fn dot(self, other: Vec3) -> (r: i128)
        requires
            in_range(self, 2 * COORD_MAX),
            in_range(other, 2 * COORD_MAX),
        ensures
            r == dot3(self, other),
    {
        let p1 = mul_wide(self.x, other.x);
        let p2 = mul_wide(self.y, other.y);
        let p3 = mul_wide(self.z, other.z);
        proof {
            lemma_dot_sum_fits(
                self.x as int,
                self.y as int,
                self.z as int,
                other.x as int,
                other.y as int,
                other.z as int,
            );
        }
        p1 + p2 + p3
    }
}

/// A product of two machine words always fits in the wide type.
pub fn mul_wide(a: i64, b: i64) -> (r: i128)
    ensures
        r == a * b,
{
    proof {
        assert(i128::MIN <= a * b <= i128::MAX) by (nonlinear_arith)
            requires
                i64::MIN <= a <= i64::MAX,
                i64::MIN <= b <= i64::MAX,
        ;
    }
    (a as i128) * (b as i128)
}

/// A product of wide values, overflow ruled out by the caller.
pub fn mul_i128(a: i128, b: i128) -> (r: i128)
    requires
        i128::MIN <= a * b <= i128::MAX,
    ensures
        r == a * b,
{
    a * b
}

proof fn lemma_dot_sum_fits(ax: int, ay: int, az: int, bx: int, by: int, bz: int)
    requires
        -2 * COORD_MAX <= ax <= 2 * COORD_MAX,
        -2 * COORD_MAX <= ay <= 2 * COORD_MAX,
        -2 * COORD_MAX <= az <= 2 * COORD_MAX,
        -2 * COORD_MAX <= bx <= 2 * COORD_MAX,
        -2 * COORD_MAX <= by <= 2 * COORD_MAX,
        -2 * COORD_MAX <= bz <= 2 * COORD_MAX,
    ensures
        -40000000000000000 <= ax * bx <= 40000000000000000,
        -40000000000000000 <= ay * by <= 40000000000000000,
        -40000000000000000 <= az * bz <= 40000000000000000,
{
    assert(
        -40000000000000000 <= ax * bx <= 40000000000000000 && -40000000000000000 <= ay * by
            <= 40000000000000000 && -40000000000000000 <= az * bz <= 40000000000000000
    ) by (nonlinear_arith)
        requires
            -200000000 <= ax <= 200000000,
            -200000000 <= ay <= 200000000,
            -200000000 <= az <= 200000000,
            -200000000 <= bx <= 200000000,
            -200000000 <= by <= 200000000,
            -200000000 <= bz <= 200000000,
    ;
}

/// The dot product of vectors within twice the coordinate bound stays
/// within `3 · (2 · COORD_MAX)²`.
pub proof fn lemma_dot3_bound(a: Vec3, b: Vec3)
    requires
        in_range(a, 2 * COORD_MAX),
        in_range(b, 2 * COORD_MAX),
    ensures
        -120000000000000000 <= dot3(a, b) <= 120000000000000000,
{
    lemma_dot_sum_fits(a.x as int, a.y as int, a.z as int, b.x as int, b.y as int, b.z as int);
}

/// The floor of the square root, defined by halving the argument's digits:
/// the root of `n` is twice the root of `n / 4`, corrected up by one where
/// that still fits.
pub open spec fn sqrt_floor(n: nat) -> nat
    decreases n,
{
    if n == 0 {
        0
    } else {
        let s = 2 * sqrt_floor(n / 4);
        if (s + 1) * (s + 1) <= n {
            s + 1
        } else {
            s
        }
    }
}

/// `sqrt_floor(n)` is the unique integer whose square is at most `n` while
/// the next square is beyond it.
pub proof fn lemma_sqrt_floor(n: nat)
    ensures
        sqrt_floor(n) * sqrt_floor(n) <= n,
        n < (sqrt_floor(n) + 1) * (sqrt_floor(n) + 1),
    decreases n,
{
    if n == 0 {
        reveal_with_fuel(sqrt_floor, 2);
        assert(sqrt_floor(n) == 0);
        assert(sqrt_floor(n) * sqrt_floor(n) <= n) by (nonlinear_arith)
            requires
                n == 0,
                sqrt_floor(n) == 0,
        ;
        assert(n < (sqrt_floor(n) + 1) * (sqrt_floor(n) + 1)) by (nonlinear_arith)
            requires
                n == 0,
                sqrt_floor(n) == 0,
        ;
    } else {
        lemma_sqrt_floor(n / 4);
        let m = n / 4;
        let h = sqrt_floor(m);
        let s = 2 * h;
        assert(4 * m <= n && n <= 4 * m + 3) by {
            vstd::arithmetic::div_mod::lemma_fundamental_div_mod(n as int, 4);
        }
        assert(s * s <= n) by (nonlinear_arith)
            requires
                h * h <= m,
                s == 2 * h,
                4 * m <= n,
        ;
        assert(n < (s + 2) * (s + 2)) by (nonlinear_arith)
            requires
                m < (h + 1) * (h + 1),
                s == 2 * h,
                n <= 4 * m + 3,
                m >= 0,
        ;
        if (s + 1) * (s + 1) <= n {
            assert(sqrt_floor(n) == s + 1);
            assert(sqrt_floor(n) * sqrt_floor(n) <= n);
            assert(n < (sqrt_floor(n) + 1) * (sqrt_floor(n) + 1));
        } else {
            assert(sqrt_floor(n) == s);
            assert(sqrt_floor(n) * sqrt_floor(n) <= n);
            assert(n < (sqrt_floor(n) + 1) * (sqrt_floor(n) + 1));
        }
    }
}

/// Any integer squeezed between the same squares is `sqrt_floor(n)`.
pub proof fn lemma_sqrt_floor_is(n: nat, r: nat)
    requires
        r * r <= n,
        n < (r + 1) * (r + 1),
    ensures
        sqrt_floor(n) == r,
{
    lemma_sqrt_floor(n);
    let s = sqrt_floor(n);
    assert(s == r) by (nonlinear_arith)
        requires
            r * r <= n,
            n < (r + 1) * (r + 1),
            s * s <= n,
            n < (s + 1) * (s + 1),
            s >= 0,
            r >= 0,
    ;
}

/// Any integer whose square is at most `n` is at most `sqrt_floor(n)`.
pub proof fn lemma_sqrt_floor_lower(n: nat, k: nat)
    requires
        k * k <= n,
    ensures
        k <= sqrt_floor(n),
{
    lemma_sqrt_floor(n);
    let s = sqrt_floor(n);
    assert(k <= s) by (nonlinear_arith)
        requires
            k * k <= n,
            n < (s + 1) * (s + 1),
            k >= 0,
            s >= 0,
    ;
}

/// Arguments up to this bound keep `isqrt`'s internal square in range.
pub const ISQRT_IN_MAX: u128 = 85070591730234615865843651857942052864;

/// Floor of the square root on the wide unsigned type.
pub fn isqrt(n: u128) -> (r: u128)
    requires
        n < ISQRT_IN_MAX,
    ensures
        r == sqrt_floor(n as nat),
    decreases n,
{
    if n == 0 {
        0
    } else {
        let h = isqrt(n / 4);
        proof {
            lemma_sqrt_floor((n / 4) as nat);
            let m = (n / 4) as int;
            assert(h < 0x4000000000000000) by (nonlinear_arith)
                requires
                    h * h <= m,
                    m < 21267647932558653966460912964485513216,
                    h >= 0,
            ;
        }
        let s = 2 * h;
        proof {
            assert((s + 1) * (s + 1) <= u128::MAX) by (nonlinear_arith)
                requires
                    0 <= s < 0x8000000000000000,
            ;
        }
        if (s + 1) * (s + 1) <= n {
            s + 1
        } else {
            s
        }
    }
}

} // verus!
