//! Fixed-point scalars.
//!
//! A scalar is an `i64` holding `value * SCALE`: one world unit is `SCALE`,
//! so `500_000` is half a unit. Products of two scalars carry `SCALE * SCALE`
//! and are reduced with a flooring division. The flooring divisions here are
//! written over non-negative machine operands only, so they do not depend on
//! how the hardware rounds a negative quotient; their contracts speak in the
//! mathematical (Euclidean) division of the specification language, which for
//! a positive divisor is exactly the floor.

use vstd::prelude::*;

verus! {

use vstd::arithmetic::div_mod::lemma_fundamental_div_mod;
use vstd::arithmetic::div_mod::lemma_fundamental_div_mod_converse;

/// One world unit, as a fixed-point scalar.
pub const SCALE: i64 = 1_000_000;

/// `SCALE * SCALE`: the weight carried by a product of two scalars.
pub const SCALE_SQ: i64 = 1_000_000_000_000;

/// `SCALE * SCALE * SCALE`: the weight carried by a product of three scalars.
pub const SCALE_CUBE: i64 = 1_000_000_000_000_000_000;

/// Largest coordinate magnitude the geometry accepts: 100 world units.
/// Keeping every coordinate, radius and depth inside this bound lets all the
/// intermediate products of the intersection math fit in `i128`.
pub const COORD_MAX: i64 = 100_000_000;

/// Floor division `a / b` for a positive divisor, as the specification
/// language's `/` computes it.
pub fn div_floor_i64(a: i64, b: i64) -> (q: i64)
    requires
        b > 0,
    ensures
        q == a as int / b as int,
{
    if a >= 0 {
        let qu: u64 = (a as u64) / (b as u64);
        qu as i64
    } else {
        let m: u64 = (-(a + 1)) as u64;
        let qu: u64 = m / (b as u64);
        proof {
            lemma_neg_div_floor(a as int, b as int, qu as int, m as int);
        }
        -(qu as i64) - 1
    }
}

/// Floor division `a / b` for a positive divisor, on the wide type.
pub fn div_floor_i128(a: i128, b: i128) -> (q: i128)
    requires
        b > 0,
    ensures
        q == a as int / b as int,
{
    if a >= 0 {
        let qu: u128 = (a as u128) / (b as u128);
        qu as i128
    } else {
        let m: u128 = (-(a + 1)) as u128;
        let qu: u128 = m / (b as u128);
        proof {
            lemma_neg_div_floor(a as int, b as int, qu as int, m as int);
        }
        -(qu as i128) - 1
    }
}

/// For `a < 0 <= m` with `m == -a - 1` and `q == m / b`, the Euclidean
/// quotient of `a` by `b` is `-q - 1`.
proof fn lemma_neg_div_floor(a: int, b: int, q: int, m: int)
    requires
        b > 0,
        a < 0,
        m == -a - 1,
        q == m / b,
    ensures
        a / b == -q - 1,
{
    lemma_fundamental_div_mod(m, b);
    let r = m % b;
    assert(m == b * q + r);
    assert(b * (-q - 1) == -(b * q) - b) by (nonlinear_arith);
    assert(a == b * (-q - 1) + (b - r - 1)) by {
        assert(a == -m - 1);
    }
    lemma_fundamental_div_mod_converse(a, b, -q - 1, b - r - 1);
}

} // verus!
