//! Ray-sphere intersection: the quadratic solved for every pixel and every
//! sphere of the scene.
//!
//! For a ray `o + t * d` and a sphere of center `c` and radius `r`, the hits
//! are the roots of `a·t² + b·t + c = 0` with `a = d·d`, `b = 2·(o−c)·d`,
//! `c = (o−c)·(o−c) − r²`. A negative discriminant means no hit; otherwise
//! the nearer root `(−b − √disc) / (2a)` is reported, as a fixed-point
//! scalar rounded toward −∞.

use vstd::prelude::*;

verus! {

use vstd::arithmetic::div_mod::lemma_fundamental_div_mod;
use vstd::arithmetic::div_mod::lemma_div_multiples_vanish;
use crate::fx::SCALE;
use crate::fx::COORD_MAX;
use crate::fx::div_floor_i128;
use crate::math::Vec3;
use crate::math::dot3;
use crate::math::in_range;
use crate::math::in_coords;
use crate::math::sqrt_floor;
use crate::math::lemma_sqrt_floor;
use crate::math::lemma_sqrt_floor_is;
use crate::math::lemma_dot3_bound;
use crate::math::isqrt;
use crate::math::mul_i128;
use crate::math::mul_wide;

/// Leading coefficient of the hit quadratic: the squared length of the
/// ray direction (unreduced fixed-point weight).
pub open spec fn quad_a(d: Vec3) -> int {
    dot3(d, d)
}

/// Middle coefficient: twice the projection of the center-to-origin offset
/// onto the direction.
pub open spec fn quad_b(o: Vec3, d: Vec3, c: Vec3) -> int {
    2 * ((o.x - c.x) * d.x + (o.y - c.y) * d.y + (o.z - c.z) * d.z)
}

/// Constant coefficient: squared distance from origin to center, less the
/// squared radius. Positive exactly when the ray origin is outside the
/// sphere.
pub open spec fn quad_c(o: Vec3, c: Vec3, r: int) -> int {
    (o.x - c.x) * (o.x - c.x) + (o.y - c.y) * (o.y - c.y) + (o.z - c.z) * (o.z - c.z) - r * r
}

/// Discriminant of the hit quadratic.
pub open spec fn quad_disc(o: Vec3, d: Vec3, c: Vec3, r: int) -> int {
    quad_b(o, d, c) * quad_b(o, d, c) - 4 * quad_a(d) * quad_c(o, c, r)
}

/// Whether the ray `o + t·d` (for some `t ≥ 0`) meets the sphere's surface.
/// The real quadratic has a root iff the discriminant is non-negative, and
/// a non-negative root iff additionally the origin lies inside the sphere
/// (the ray must exit through the surface) or the center lies ahead of the
/// origin along the direction.
pub open spec fn ray_hits_sphere(o: Vec3, d: Vec3, c: Vec3, r: int) -> bool {
    &&& quad_disc(o, d, c, r) >= 0
    &&& (quad_c(o, c, r) <= 0 || quad_b(o, d, c) <= 0)
}

/// The root that `sphere_check` reports when the discriminant allows one:
/// the nearer root of the quadratic, in fixed point, rounded toward −∞.
pub open spec fn hit_root(o: Vec3, d: Vec3, c: Vec3, r: int) -> int {
    (SCALE * (-quad_b(o, d, c) - sqrt_floor(quad_disc(o, d, c, r) as nat))) / (2 * quad_a(d))
}

/// A direction with at least one non-zero component.
pub open spec fn nonzero_dir(d: Vec3) -> bool {
    d.x != 0 || d.y != 0 || d.z != 0
}

/// Magnitude bound on each quadratic coefficient for in-range inputs.
pub proof fn lemma_quad_bounds(o: Vec3, d: Vec3, c: Vec3, r: int)
    requires
        in_coords(o),
        in_range(d, 2 * COORD_MAX),
        in_coords(c),
        0 <= r <= COORD_MAX,
    ensures
        0 <= quad_a(d) <= 120000000000000000,
        -240000000000000000 <= quad_b(o, d, c) <= 240000000000000000,
        -130000000000000000 <= quad_c(o, c, r) <= 130000000000000000,
        -130000000000000000000000000000000000 <= quad_disc(o, d, c, r)
            <= 130000000000000000000000000000000000,
{
    let oc = Vec3 { x: (o.x - c.x) as i64, y: (o.y - c.y) as i64, z: (o.z - c.z) as i64 };
    lemma_dot3_bound(d, d);
    lemma_dot3_bound(oc, d);
    lemma_dot3_bound(oc, oc);
    assert(quad_a(d) >= 0) by (nonlinear_arith);
    assert(quad_b(o, d, c) == 2 * dot3(oc, d));
    assert(quad_c(o, c, r) == dot3(oc, oc) - r * r);
    assert(0 <= r * r <= 10000000000000000) by (nonlinear_arith)
        requires
            0 <= r <= 100000000,
    ;
    let qb = quad_b(o, d, c);
    let qa = quad_a(d);
    let qc = quad_c(o, c, r);
    assert(
        qb * qb - 4 * qa * qc <= 130000000000000000000000000000000000 && qb * qb - 4 * qa * qc
            >= -130000000000000000000000000000000000
    ) by (nonlinear_arith)
        requires
            -240000000000000000 <= qb <= 240000000000000000,
            0 <= qa <= 120000000000000000,
            -130000000000000000 <= qc <= 130000000000000000,
    ;
}

/// A non-zero integer direction has a positive leading coefficient.
pub proof fn lemma_quad_a_pos(d: Vec3)
    requires
        nonzero_dir(d),
    ensures
        quad_a(d) >= 1,
{
    assert(dot3(d, d) >= 1) by (nonlinear_arith)
        requires
            d.x != 0 || d.y != 0 || d.z != 0,
    ;
}

/// For a ray whose origin lies strictly outside the sphere, the reported
/// root is non-negative exactly when the ray meets the sphere's surface
/// ahead of the origin. (From an origin inside the sphere the nearer root
/// lies behind the origin even though the ray exits through the surface,
/// so such origins are excluded here.)
pub proof fn lemma_nonneg_root_iff_hits(o: Vec3, d: Vec3, c: Vec3, r: int)
    requires
        in_coords(o),
        in_range(d, 2 * COORD_MAX),
        in_coords(c),
        0 <= r <= COORD_MAX,
        nonzero_dir(d),
        quad_c(o, c, r) > 0,
    ensures
        ray_hits_sphere(o, d, c, r) <==> (quad_disc(o, d, c, r) >= 0 && hit_root(o, d, c, r)
            >= 0),
{
    lemma_quad_bounds(o, d, c, r);
    lemma_quad_a_pos(d);
    let qa = quad_a(d);
    let qb = quad_b(o, d, c);
    let qc = quad_c(o, c, r);
    let disc = quad_disc(o, d, c, r);
    if disc >= 0 {
        lemma_sqrt_floor(disc as nat);
        let s = sqrt_floor(disc as nat) as int;
        let num = SCALE * (-qb - s);
        let den = 2 * qa;
        if qb <= 0 {
            assert(disc < qb * qb) by (nonlinear_arith)
                requires
                    disc == qb * qb - 4 * qa * qc,
                    qa >= 1,
                    qc > 0,
            ;
            assert(s < -qb) by (nonlinear_arith)
                requires
                    s * s <= disc,
                    disc < qb * qb,
                    s >= 0,
                    qb <= 0,
            ;
            assert(num >= 0);
            vstd::arithmetic::div_mod::lemma_div_pos_is_pos(num, den);
            assert(hit_root(o, d, c, r) >= 0);
        } else {
            assert(num <= -SCALE);
            lemma_fundamental_div_mod(num, den);
            let q = num / den;
            let rem = num % den;
            assert(q < 0) by (nonlinear_arith)
                requires
                    num == den * q + rem,
                    0 <= rem < den,
                    num < 0,
                    den > 0,
            ;
            assert(hit_root(o, d, c, r) < 0);
        }
    }
}

/// One component of a ray aimed at a sphere's center: scaling relations
/// between the offset `co = c − o`, the unit direction component `u` and
/// the distance.
proof fn lemma_center_ray_component(co: int, s: int, dist: int, u: int) by (nonlinear_arith)
    requires
        co * s == dist * u,
    ensures
        ((-co) * u) * s == -dist * (u * u),
        ((-co) * (-co)) * (s * s) == (dist * dist) * (u * u),
{
}

/// A ray aimed straight at a sphere's center from distance `dist` (in
/// fixed point, along a unit direction) hits at `dist − r` exactly.
pub proof fn lemma_ray_through_center(o: Vec3, u: Vec3, c: Vec3, r: int, dist: int)
    requires
        dot3(u, u) == SCALE * SCALE,
        0 < dist,
        0 <= r,
        (c.x - o.x) * SCALE == dist * u.x,
        (c.y - o.y) * SCALE == dist * u.y,
        (c.z - o.z) * SCALE == dist * u.z,
    ensures
        quad_disc(o, u, c, r) >= 0,
        hit_root(o, u, c, r) == dist - r,
{
    let s = SCALE as int;
    let qa = quad_a(u);
    let qb = quad_b(o, u, c);
    let qc = quad_c(o, c, r);
    let disc = quad_disc(o, u, c, r);
    let px = (o.x - c.x) * u.x;
    let py = (o.y - c.y) * u.y;
    let pz = (o.z - c.z) * u.z;
    lemma_center_ray_component(c.x - o.x, s, dist, u.x as int);
    lemma_center_ray_component(c.y - o.y, s, dist, u.y as int);
    lemma_center_ray_component(c.z - o.z, s, dist, u.z as int);
    assert(px * s == -dist * (u.x * u.x));
    assert(py * s == -dist * (u.y * u.y));
    assert(pz * s == -dist * (u.z * u.z));
    assert((px + py + pz) * s == -dist * (s * s)) by (nonlinear_arith)
        requires
            px * s == -dist * (u.x * u.x),
            py * s == -dist * (u.y * u.y),
            pz * s == -dist * (u.z * u.z),
            u.x * u.x + u.y * u.y + u.z * u.z == s * s,
    ;
    assert(px + py + pz == -(dist * s)) by (nonlinear_arith)
        requires
            (px + py + pz) * s == -dist * (s * s),
            s > 0,
    ;
    assert(qb == -2 * (dist * s));
    let sqx = (o.x - c.x) * (o.x - c.x);
    let sqy = (o.y - c.y) * (o.y - c.y);
    let sqz = (o.z - c.z) * (o.z - c.z);
    assert(sqx * (s * s) == (dist * dist) * (u.x * u.x));
    assert(sqy * (s * s) == (dist * dist) * (u.y * u.y));
    assert(sqz * (s * s) == (dist * dist) * (u.z * u.z));
    assert((sqx + sqy + sqz) * (s * s) == (dist * dist) * (s * s)) by (nonlinear_arith)
        requires
            sqx * (s * s) == (dist * dist) * (u.x * u.x),
            sqy * (s * s) == (dist * dist) * (u.y * u.y),
            sqz * (s * s) == (dist * dist) * (u.z * u.z),
            u.x * u.x + u.y * u.y + u.z * u.z == s * s,
    ;
    assert(sqx + sqy + sqz == dist * dist) by (nonlinear_arith)
        requires
            (sqx + sqy + sqz) * (s * s) == (dist * dist) * (s * s),
            s > 0,
    ;
    assert(qc == dist * dist - r * r);
    assert(disc == 4 * ((s * r) * (s * r))) by (nonlinear_arith)
        requires
            disc == qb * qb - 4 * qa * qc,
            qb == -2 * (dist * s),
            qa == s * s,
            qc == dist * dist - r * r,
    ;
    assert(disc >= 0) by (nonlinear_arith)
        requires
            disc == 4 * ((s * r) * (s * r)),
    ;
    let root = 2 * (s * r);
    assert(root * root <= disc < (root + 1) * (root + 1)) by (nonlinear_arith)
        requires
            disc == 4 * ((s * r) * (s * r)),
            root == 2 * (s * r),
            s > 0,
            r >= 0,
    ;
    lemma_sqrt_floor_is(disc as nat, root as nat);
    assert(sqrt_floor(disc as nat) == root);
    let num = s * (-qb - root);
    let den = 2 * qa;
    assert(num == den * (dist - r)) by (nonlinear_arith)
        requires
            num == s * (-qb - root),
            qb == -2 * (dist * s),
            root == 2 * (s * r),
            den == 2 * (s * s),
    ;
    lemma_div_multiples_vanish(dist - r, den);
    assert(num / den == dist - r);
    assert(hit_root(o, u, c, r) == dist - r);
}

/// Solve the hit quadratic for one sphere. `None` exactly when the
/// discriminant is negative (the ray's line misses the sphere); otherwise
/// the nearer root, which may be negative for a sphere behind the origin.
pub fn sphere_check(o: Vec3, d: Vec3, center: Vec3, radius: i64) -> (res: Option<i128>)
    requires
        in_coords(o),
        in_range(d, 2 * COORD_MAX),
        in_coords(center),
        0 <= radius <= COORD_MAX,
        nonzero_dir(d),
    ensures
        res.is_some() <==> quad_disc(o, d, center, radius as int) >= 0,
        res matches Some(t) ==> t == hit_root(o, d, center, radius as int),
{
    proof {
        lemma_quad_bounds(o, d, center, radius as int);
        lemma_quad_a_pos(d);
    }
    let oc = o.minus(center);
    let qa = d.dot(d);
    let qb = 2 * oc.dot(d);
    let qc = oc.dot(oc) - mul_wide(radius, radius);
    assert(qa == quad_a(d));
    assert(qb == quad_b(o, d, center));
    assert(qc == quad_c(o, center, radius as int));
    proof {
        assert(
            0 <= qb * qb <= 57600000000000000000000000000000000 && -15600000000000000000000000000000000
                <= qa * qc <= 15600000000000000000000000000000000
        ) by (nonlinear_arith)
            requires
                -240000000000000000 <= qb <= 240000000000000000,
                0 <= qa <= 120000000000000000,
                -130000000000000000 <= qc <= 130000000000000000,
        ;
    }
    let disc = mul_i128(qb, qb) - 4 * mul_i128(qa, qc);
    proof {
        assert(4 * (qa * qc) == 4 * qa * qc) by (nonlinear_arith);
    }
    assert(disc == quad_disc(o, d, center, radius as int));
    if disc < 0 {
        None
    } else {
        let s = isqrt(disc as u128);
        proof {
            lemma_sqrt_floor(disc as nat);
            assert(s <= 400000000000000000) by (nonlinear_arith)
                requires
                    s * s <= disc,
                    disc <= 130000000000000000000000000000000000,
                    s >= 0,
            ;
        }
        let num = (SCALE as i128) * (-qb - (s as i128));
        let t = div_floor_i128(num, 2 * qa);
        Some(t)
    }
}

} // verus!
