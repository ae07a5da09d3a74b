//! Shading: the surface-normal color of a hit, and the vertical sky/ground
//! gradient of a miss.

use vstd::prelude::*;

verus! {

use vstd::arithmetic::div_mod::lemma_div_is_ordered;
use vstd::arithmetic::div_mod::lemma_div_multiples_vanish;
use vstd::arithmetic::div_mod::lemma_div_denominator;
use vstd::arithmetic::div_mod::lemma_div_of0;
use crate::fx::SCALE;
use crate::fx::COORD_MAX;
use crate::fx::div_floor_i64;
use crate::fx::div_floor_i128;
use crate::math::Vec3;
use crate::math::dot3;
use crate::math::in_range;
use crate::math::in_coords;
use crate::math::sqrt_floor;
use crate::math::isqrt;
use crate::math::lemma_sqrt_floor;
use crate::math::lemma_sqrt_floor_lower;
use crate::math::lemma_dot3_bound;
use crate::math::mul_wide;
use crate::intersect::nonzero_dir;
use crate::intersect::lemma_quad_a_pos;

/// The gradient's lower endpoint, hit by rays pointing straight down:
/// white, per channel.
pub const WHITE: i64 = 1_000_000;

/// The gradient's upper endpoint, hit by rays pointing straight up:
/// a sky blue.
pub const SKY_R: i64 = 500_000;

pub const SKY_G: i64 = 700_000;

pub const SKY_B: i64 = 1_000_000;

/// An RGBA color, channels in `[0, 1]` fixed point.
#[derive(Clone, Copy, PartialEq, Eq, Structural, Debug)]
pub struct Color {
    pub r: i64,
    pub g: i64,
    pub b: i64,
    pub a: i64,
}

/// Every channel fits the normalized image format.
pub open spec fn channels_in_range(c: Color) -> bool {
    &&& 0 <= c.r <= SCALE
    &&& 0 <= c.g <= SCALE
    &&& 0 <= c.b <= SCALE
    &&& 0 <= c.a <= SCALE
}

/// Length of a direction, rounded down.
pub open spec fn dir_len(d: Vec3) -> int {
    sqrt_floor(dot3(d, d) as nat) as int
}

/// The Y component of the normalized direction, in `[-1, 1]` fixed point.
pub open spec fn unit_y(d: Vec3) -> int {
    (d.y * SCALE) / dir_len(d)
}

/// Gradient position of a normalized Y component: `(y + 1) / 2`.
pub open spec fn grad_t(uy: int) -> int {
    (uy + SCALE) / 2
}

/// Linear blend between the two gradient endpoints at position `t`.
pub open spec fn mix(t: int, bottom: int, top: int) -> int {
    ((SCALE - t) * bottom + t * top) / (SCALE as int)
}

/// The miss color, channel by channel: the gradient between white and the
/// sky blue, interpolated by the ray direction's normalized Y component.
pub open spec fn miss_r(d: Vec3) -> int {
    mix(grad_t(unit_y(d)), WHITE as int, SKY_R as int)
}

pub open spec fn miss_g(d: Vec3) -> int {
    mix(grad_t(unit_y(d)), WHITE as int, SKY_G as int)
}

pub open spec fn miss_b(d: Vec3) -> int {
    mix(grad_t(unit_y(d)), WHITE as int, SKY_B as int)
}

/// Shade a missed ray by the vertical gradient.
pub fn miss_color(d: Vec3) -> (c: Color)
    requires
        in_range(d, 2 * COORD_MAX),
        nonzero_dir(d),
    ensures
        c.r == miss_r(d),
        c.g == miss_g(d),
        c.b == miss_b(d),
        c.a == SCALE,
        channels_in_range(c),
{
    proof {
        lemma_quad_a_pos(d);
        lemma_dot3_bound(d, d);
    }
    let l2 = d.dot(d);
    let l = isqrt(l2 as u128);
    proof {
        lemma_sqrt_floor(l2 as nat);
        lemma_sqrt_floor_lower(l2 as nat, 1);
        assert((d.y * d.y) as nat <= l2 as nat && (-d.y * -d.y) as nat <= l2 as nat)
            by (nonlinear_arith)
            requires
                l2 == dot3(d, d),
                dot3(d, d) == d.x * d.x + d.y * d.y + d.z * d.z,
        ;
        if d.y >= 0 {
            lemma_sqrt_floor_lower(l2 as nat, d.y as nat);
        } else {
            lemma_sqrt_floor_lower(l2 as nat, (-d.y) as nat);
        }
        assert(l <= 400_000_000) by (nonlinear_arith)
            requires
                l * l <= l2,
                l2 <= 120_000_000_000_000_000,
                l >= 0,
        ;
    }
    let uy = unit_component(d.y, l as i128);
    let t = div_floor_i64(uy + SCALE, 2);
    proof {
        lemma_div_is_ordered(0, uy + SCALE, 2);
        lemma_div_is_ordered(uy + SCALE, 2 * SCALE, 2);
    }
    let r = mix_chan(t, WHITE, SKY_R);
    let g = mix_chan(t, WHITE, SKY_G);
    let b = mix_chan(t, WHITE, SKY_B);
    Color { r, g, b, a: SCALE }
}

/// One coordinate of a vector, normalized by the vector's rounded length:
/// `(q · SCALE) / l`, within `[-SCALE, SCALE]` since `|q| ≤ l`.
fn unit_component(q: i64, l: i128) -> (n: i64)
    requires
        1 <= l <= 100_000_000_000,
        -l <= q as int <= l,
    ensures
        n == (q * SCALE) / l as int,
        -SCALE <= n <= SCALE,
{
    let num = mul_wide(q, SCALE);
    proof {
        assert(-l * SCALE <= q * SCALE <= l * SCALE) by (nonlinear_arith)
            requires
                -l <= q as int <= l,
                SCALE == 1_000_000,
        ;
        lemma_div_is_ordered(q * SCALE, l as int * SCALE, l as int);
        lemma_div_is_ordered(-(l as int) * SCALE, q * SCALE, l as int);
        lemma_div_multiples_vanish(SCALE as int, l as int);
        lemma_div_multiples_vanish(-SCALE as int, l as int);
        assert(l as int * SCALE == l as int * (SCALE as int));
        assert(-(l as int) * SCALE == l as int * (-SCALE as int)) by (nonlinear_arith);
    }
    let n = div_floor_i128(num, l);
    n as i64
}

/// Blend the two gradient endpoints at position `t`.
fn mix_chan(t: i64, bottom: i64, top: i64) -> (m: i64)
    requires
        0 <= t <= SCALE,
        0 <= bottom <= SCALE,
        0 <= top <= SCALE,
    ensures
        m == mix(t as int, bottom as int, top as int),
        0 <= m <= SCALE,
{
    let p1 = mul_wide(SCALE - t, bottom);
    let p2 = mul_wide(t, top);
    proof {
        assert(
            0 <= (SCALE - t) * bottom && 0 <= t * top && (SCALE - t) * bottom + t * top <= SCALE
                * SCALE
        ) by (nonlinear_arith)
            requires
                0 <= t <= SCALE,
                0 <= bottom <= SCALE,
                0 <= top <= SCALE,
        ;
        lemma_div_is_ordered(0, (SCALE - t) * bottom + t * top, SCALE as int);
        lemma_div_is_ordered((SCALE - t) * bottom + t * top, SCALE * SCALE, SCALE as int);
        lemma_div_multiples_vanish(SCALE as int, SCALE as int);
    }
    let m = div_floor_i128(p1 + p2, SCALE as i128);
    m as i64
}

/// At the gradient's ends and middle the blend is exact: position zero is
/// the bottom color, position one the top color, and the middle their
/// rounded midpoint.
pub proof fn lemma_gradient_extremes(bottom: int, top: int)
    requires
        0 <= bottom <= SCALE,
        0 <= top <= SCALE,
    ensures
        mix(grad_t(-SCALE as int), bottom, top) == bottom,
        mix(grad_t(SCALE as int), bottom, top) == top,
        mix(grad_t(0), bottom, top) == (bottom + top) / 2,
{
    assert(grad_t(-SCALE as int) == 0) by {
        lemma_div_of0(2);
    }
    assert(grad_t(SCALE as int) == SCALE);
    assert(mix(0, bottom, top) == bottom) by {
        assert(SCALE * bottom + 0 * top == SCALE as int * bottom);
        lemma_div_multiples_vanish(bottom, SCALE as int);
    }
    assert(mix(SCALE as int, bottom, top) == top) by {
        assert(0 * bottom + SCALE * top == SCALE as int * top);
        lemma_div_multiples_vanish(top, SCALE as int);
    }
    assert(mix(500_000, bottom, top) == (bottom + top) / 2) by {
        assert(500_000 * bottom + 500_000 * top == 500_000 * (bottom + top));
        lemma_div_denominator(500_000 * (bottom + top), 500_000, 2);
        lemma_div_multiples_vanish(bottom + top, 500_000);
    }
}

/// The miss gradient is exact at its ends and middle: a normalized Y of
/// `-1` gives white, `+1` gives the sky color, and `0` their midpoint.
pub proof fn lemma_miss_gradient(d: Vec3)
    ensures
        unit_y(d) == -SCALE ==> miss_r(d) == WHITE && miss_g(d) == WHITE && miss_b(d) == WHITE,
        unit_y(d) == SCALE ==> miss_r(d) == SKY_R && miss_g(d) == SKY_G && miss_b(d) == SKY_B,
        unit_y(d) == 0 ==> miss_r(d) == 750_000 && miss_g(d) == 850_000 && miss_b(d)
            == 1_000_000,
{
    lemma_gradient_extremes(WHITE as int, SKY_R as int);
    lemma_gradient_extremes(WHITE as int, SKY_G as int);
    lemma_gradient_extremes(WHITE as int, SKY_B as int);
}

/// One coordinate of the point a ray reaches at parameter `t`.
pub open spec fn hit_p(o_i: int, d_i: int, t: int) -> int {
    o_i + (t * d_i) / (SCALE as int)
}

/// Squared distance from the reached point to the sphere's center.
pub open spec fn hit_qq(o: Vec3, d: Vec3, t: int, c: Vec3) -> int {
    let qx = hit_p(o.x as int, d.x as int, t) - c.x;
    let qy = hit_p(o.y as int, d.y as int, t) - c.y;
    let qz = hit_p(o.z as int, d.z as int, t) - c.z;
    qx * qx + qy * qy + qz * qz
}

/// Rounded distance from the reached point to the center.
pub open spec fn hit_len(o: Vec3, d: Vec3, t: int, c: Vec3) -> int {
    sqrt_floor(hit_qq(o, d, t, c) as nat) as int
}

/// One coordinate of the surface normal: the offset normalized by the
/// rounded distance (zero where the point is the center itself).
pub open spec fn norm_chan(q: int, l: int) -> int {
    if l == 0 {
        0
    } else {
        (q * SCALE) / l
    }
}

/// A normal coordinate mapped to a color channel: `(n + 1) / 2`.
pub open spec fn shade_chan(n: int) -> int {
    (n + SCALE) / 2
}

/// The hit color, channel by channel.
pub open spec fn hit_r(o: Vec3, d: Vec3, t: int, c: Vec3) -> int {
    shade_chan(norm_chan(hit_p(o.x as int, d.x as int, t) - c.x, hit_len(o, d, t, c)))
}

pub open spec fn hit_g(o: Vec3, d: Vec3, t: int, c: Vec3) -> int {
    shade_chan(norm_chan(hit_p(o.y as int, d.y as int, t) - c.y, hit_len(o, d, t, c)))
}

pub open spec fn hit_b(o: Vec3, d: Vec3, t: int, c: Vec3) -> int {
    shade_chan(norm_chan(hit_p(o.z as int, d.z as int, t) - c.z, hit_len(o, d, t, c)))
}

/// One coordinate of the point reached at parameter `t`.
fn hit_coord(o_i: i64, d_i: i64, t: i64) -> (p: i64)
    requires
        -COORD_MAX <= o_i <= COORD_MAX,
        -2 * COORD_MAX <= d_i <= 2 * COORD_MAX,
        0 <= t <= COORD_MAX,
    ensures
        p == hit_p(o_i as int, d_i as int, t as int),
        -20_100_000_000 <= p <= 20_100_000_000,
{
    let prod = mul_wide(t, d_i);
    proof {
        assert(-20_000_000_000_000_000 <= t * d_i <= 20_000_000_000_000_000) by (nonlinear_arith)
            requires
                0 <= t <= 100_000_000,
                -200_000_000 <= d_i <= 200_000_000,
        ;
        lemma_div_is_ordered(-20_000_000_000_000_000, prod as int, SCALE as int);
        lemma_div_is_ordered(prod as int, 20_000_000_000_000_000, SCALE as int);
    }
    let q = div_floor_i128(prod, SCALE as i128);
    o_i + (q as i64)
}

/// Shade a hit at parameter `t` on the sphere centered at `center` by its
/// surface normal, each channel mapped from `[-1, 1]` to `[0, 1]`.
pub fn hit_color(o: Vec3, d: Vec3, t: i64, center: Vec3) -> (c: Color)
    requires
        in_coords(o),
        in_range(d, 2 * COORD_MAX),
        0 <= t <= COORD_MAX,
        in_coords(center),
    ensures
        c.r == hit_r(o, d, t as int, center),
        c.g == hit_g(o, d, t as int, center),
        c.b == hit_b(o, d, t as int, center),
        c.a == SCALE,
        channels_in_range(c),
{
    let px = hit_coord(o.x, d.x, t);
    let py = hit_coord(o.y, d.y, t);
    let pz = hit_coord(o.z, d.z, t);
    let qx = px - center.x;
    let qy = py - center.y;
    let qz = pz - center.z;
    let sx = mul_wide(qx, qx);
    let sy = mul_wide(qy, qy);
    let sz = mul_wide(qz, qz);
    proof {
        lemma_sq_bound(qx as int);
        lemma_sq_bound(qy as int);
        lemma_sq_bound(qz as int);
    }
    let qq = sx + sy + sz;
    assert(qq == hit_qq(o, d, t as int, center));
    let l = isqrt(qq as u128);
    proof {
        lemma_sqrt_floor(qq as nat);
        assert(l <= 100_000_000_000) by (nonlinear_arith)
            requires
                l * l <= qq,
                qq <= 2_000_000_000_000_000_000_000,
                l >= 0,
        ;
    }
    if l == 0 {
        Color { r: 500_000, g: 500_000, b: 500_000, a: SCALE }
    } else {
        proof {
            lemma_abs_le_sqrt(qx as int, qq as int);
            lemma_abs_le_sqrt(qy as int, qq as int);
            lemma_abs_le_sqrt(qz as int, qq as int);
        }
        let nx = unit_component(qx, l as i128);
        let ny = unit_component(qy, l as i128);
        let nz = unit_component(qz, l as i128);
        let r = div_floor_i64(nx + SCALE, 2);
        let g = div_floor_i64(ny + SCALE, 2);
        let b = div_floor_i64(nz + SCALE, 2);
        Color { r, g, b, a: SCALE }
    }
}

/// The square of a near-coordinate value stays within the wide type.
proof fn lemma_sq_bound(q: int)
    requires
        -25_000_000_000 <= q <= 25_000_000_000,
    ensures
        0 <= q * q <= 625_000_000_000_000_000_000,
{
    assert(0 <= q * q <= 625_000_000_000_000_000_000) by (nonlinear_arith)
        requires
            -25_000_000_000 <= q <= 25_000_000_000,
    ;
}

/// Each coordinate of a vector is bounded by the rounded length of the
/// vector.
proof fn lemma_abs_le_sqrt(q: int, qq: int)
    requires
        q * q <= qq,
    ensures
        -(sqrt_floor(qq as nat) as int) <= q <= sqrt_floor(qq as nat) as int,
{
    assert((-q) * (-q) == q * q) by (nonlinear_arith);
    if q >= 0 {
        lemma_sqrt_floor_lower(qq as nat, q as nat);
    } else {
        lemma_sqrt_floor_lower(qq as nat, (-q) as nat);
    }
}

} // verus!
