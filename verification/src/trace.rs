//! The compute kernel, as executed once per output pixel: build the pixel's
//! ray on a virtual image plane, rotate it by the camera matrix, intersect
//! it with every sphere of the scene, and shade the nearest hit — or the
//! sky/ground gradient where nothing is hit.

use vstd::prelude::*;

verus! {

use vstd::arithmetic::div_mod::lemma_div_is_ordered;
use vstd::arithmetic::div_mod::lemma_div_pos_is_pos;
use vstd::arithmetic::div_mod::lemma_div_multiples_vanish;
use crate::fx::SCALE;
use crate::fx::SCALE_CUBE;
use crate::fx::COORD_MAX;
use crate::fx::div_floor_i128;
use crate::math::Vec3;
use crate::math::in_range;
use crate::math::in_coords;
use crate::math::mul_wide;
use crate::camera::RawCamera;
use crate::camera::raw_wf;
use crate::constants::RendererConstants;
use crate::sphere::Sphere;
use crate::sphere::SceneBuffer;
use crate::intersect::quad_disc;
use crate::intersect::hit_root;

/// Height of the virtual image plane: 2 world units.
pub const VIEW_HEIGHT: i64 = 2_000_000;

/// Distance from the camera to the image plane: 1 world unit.
pub const FOCAL_LENGTH: i64 = 1_000_000;

/// Bound on a ray direction before the camera rotation: the image plane is
/// at most 16 units wide and 2 high at focal length 1.
pub const RAY_DIR_MAX: i64 = 24_000_000;

/// Normalized pixel coordinate, `[0, 1]` in fixed point, left to right.
pub open spec fn pixel_u(px: int, width: int) -> int {
    (px * SCALE) / width
}

/// Normalized pixel coordinate, vertically flipped so row zero is the top
/// of the image while `v` grows upward in viewport space.
pub open spec fn pixel_v(py: int, height: int) -> int {
    SCALE - (py * SCALE) / height
}

/// Width of the virtual image plane: its height over the aspect ratio.
pub open spec fn view_width(aspect: int) -> int {
    (VIEW_HEIGHT * SCALE) / aspect
}

/// View-space ray direction for a pixel: across the plane from its
/// lower-left corner by `u`/`v`, the plane anchored at focal length 1
/// towards `-Z`.
pub open spec fn ray_x(px: int, c: RendererConstants) -> int {
    (pixel_u(px, c.width as int) * view_width(c.aspect_ratio as int)) / (SCALE as int)
        - view_width(c.aspect_ratio as int) / 2
}

pub open spec fn ray_y(py: int, c: RendererConstants) -> int {
    (pixel_v(py, c.height as int) * VIEW_HEIGHT) / (SCALE as int) - VIEW_HEIGHT / 2
}

/// Components of a view-space direction carried into world space by the
/// encoded rotation matrix (stored column-major, so row `r` of the
/// mathematical matrix is entry `[c][r]` of column `c`).
pub open spec fn rot_apply_x(raw: RawCamera, dx: int, dy: int, dz: int) -> int {
    (raw.rotation_mat[0][0] * dx + raw.rotation_mat[1][0] * dy + raw.rotation_mat[2][0] * dz)
        / SCALE_CUBE as int
}

pub open spec fn rot_apply_y(raw: RawCamera, dx: int, dy: int, dz: int) -> int {
    (raw.rotation_mat[0][1] * dx + raw.rotation_mat[1][1] * dy + raw.rotation_mat[2][1] * dz)
        / SCALE_CUBE as int
}

pub open spec fn rot_apply_z(raw: RawCamera, dx: int, dy: int, dz: int) -> int {
    (raw.rotation_mat[0][2] * dx + raw.rotation_mat[1][2] * dy + raw.rotation_mat[2][2] * dz)
        / SCALE_CUBE as int
}

/// A camera block whose rotation is the identity matrix (as the identity
/// orientation encodes it) carries every ray through unchanged.
pub proof fn lemma_identity_matrix_keeps_rays(raw: RawCamera, dx: int, dy: int, dz: int)
    requires
        raw.rotation_mat[0][0] == SCALE_CUBE,
        raw.rotation_mat[1][1] == SCALE_CUBE,
        raw.rotation_mat[2][2] == SCALE_CUBE,
        raw.rotation_mat[1][0] == 0,
        raw.rotation_mat[2][0] == 0,
        raw.rotation_mat[0][1] == 0,
        raw.rotation_mat[2][1] == 0,
        raw.rotation_mat[0][2] == 0,
        raw.rotation_mat[1][2] == 0,
    ensures
        rot_apply_x(raw, dx, dy, dz) == dx,
        rot_apply_y(raw, dx, dy, dz) == dy,
        rot_apply_z(raw, dx, dy, dz) == dz,
{
    lemma_div_multiples_vanish(dx, SCALE_CUBE as int);
    lemma_div_multiples_vanish(dy, SCALE_CUBE as int);
    lemma_div_multiples_vanish(dz, SCALE_CUBE as int);
}

/// The view-space ray for one pixel of the viewport.
pub fn ray_for_pixel(px: u32, py: u32, c: &RendererConstants) -> (d: Vec3)
    requires
        c.wf(),
        px < c.width,
        py < c.height,
    ensures
        d.x == ray_x(px as int, *c),
        d.y == ray_y(py as int, *c),
        d.z == -FOCAL_LENGTH,
        in_range(d, RAY_DIR_MAX as int),
        crate::intersect::nonzero_dir(d),
{
    let u: u64 = ((px as u64) * 1_000_000) / (c.width as u64);
    proof {
        lemma_div_pos_is_pos(px as int * SCALE, c.width as int);
        lemma_div_is_ordered(px as int * SCALE, c.width as int * SCALE, c.width as int);
        lemma_div_multiples_vanish(SCALE as int, c.width as int);
        assert(px as int * SCALE <= c.width as int * SCALE);
    }
    let pyq: u64 = ((py as u64) * 1_000_000) / (c.height as u64);
    proof {
        lemma_div_pos_is_pos(py as int * SCALE, c.height as int);
        lemma_div_is_ordered(py as int * SCALE, c.height as int * SCALE, c.height as int);
        lemma_div_multiples_vanish(SCALE as int, c.height as int);
        assert(py as int * SCALE <= c.height as int * SCALE);
    }
    let v: u64 = 1_000_000 - pyq;
    let vw: u64 = 2_000_000_000_000 / (c.aspect_ratio as u64);
    proof {
        lemma_div_pos_is_pos(2_000_000_000_000, c.aspect_ratio as int);
        lemma_div_is_ordered_low(2_000_000_000_000, c.aspect_ratio as int, 125_000);
        assert(0 <= u as int * vw as int <= 16_000_000_000_000) by (nonlinear_arith)
            requires
                0 <= u as int <= 1_000_000,
                0 <= vw as int <= 16_000_000,
        ;
        lemma_div_pos_is_pos(u as int * vw as int, SCALE as int);
        lemma_div_is_ordered(u as int * vw as int, 16_000_000_000_000, SCALE as int);
        lemma_div_pos_is_pos(v as int * VIEW_HEIGHT as int, SCALE as int);
        lemma_div_is_ordered(v as int * VIEW_HEIGHT as int, 2_000_000_000_000, SCALE as int);
        lemma_div_pos_is_pos(vw as int, 2);
        lemma_div_is_ordered(vw as int, 16_000_000, 2);
    }
    let dx = ((u * vw) / 1_000_000) as i64 - (vw / 2) as i64;
    let dy = ((v * 2_000_000) / 1_000_000) as i64 - 1_000_000;
    Vec3 { x: dx, y: dy, z: -FOCAL_LENGTH }
}

/// For a positive divisor, a larger dividend cannot give a smaller
/// quotient; here used downward: the quotient of a bound below.
proof fn lemma_div_is_ordered_low(x: int, d: int, lo: int)
    requires
        1 <= lo <= d,
        x >= 0,
    ensures
        x / d <= x / lo,
{
    vstd::arithmetic::div_mod::lemma_div_is_ordered_by_denominator(x, lo, d);
}

/// Carry a view-space direction into world space through the camera's
/// encoded rotation matrix.
pub fn rotate_dir(raw: &RawCamera, d: Vec3) -> (r: Vec3)
    requires
        raw_wf(*raw),
        in_range(d, RAY_DIR_MAX as int),
    ensures
        r.x == rot_apply_x(*raw, d.x as int, d.y as int, d.z as int),
        r.y == rot_apply_y(*raw, d.x as int, d.y as int, d.z as int),
        r.z == rot_apply_z(*raw, d.x as int, d.y as int, d.z as int),
        in_range(r, 2 * COORD_MAX),
{
    let rx = rotate_row(
        raw.rotation_mat[0][0],
        raw.rotation_mat[1][0],
        raw.rotation_mat[2][0],
        d,
    );
    let ry = rotate_row(
        raw.rotation_mat[0][1],
        raw.rotation_mat[1][1],
        raw.rotation_mat[2][1],
        d,
    );
    let rz = rotate_row(
        raw.rotation_mat[0][2],
        raw.rotation_mat[1][2],
        raw.rotation_mat[2][2],
        d,
    );
    Vec3 { x: rx, y: ry, z: rz }
}

/// One row of the matrix application: the dot of a matrix row with the
/// direction, reduced by the entries' weight.
fn rotate_row(m0: i64, m1: i64, m2: i64, d: Vec3) -> (r: i64)
    requires
        -2 * SCALE_CUBE <= m0 <= 2 * SCALE_CUBE,
        -2 * SCALE_CUBE <= m1 <= 2 * SCALE_CUBE,
        -2 * SCALE_CUBE <= m2 <= 2 * SCALE_CUBE,
        in_range(d, RAY_DIR_MAX as int),
    ensures
        r == (m0 * d.x + m1 * d.y + m2 * d.z) / SCALE_CUBE as int,
        -2 * COORD_MAX <= r <= 2 * COORD_MAX,
{
    let p0 = mul_wide(m0, d.x);
    let p1 = mul_wide(m1, d.y);
    let p2 = mul_wide(m2, d.z);
    proof {
        lemma_entry_product_bound(m0 as int, d.x as int);
        lemma_entry_product_bound(m1 as int, d.y as int);
        lemma_entry_product_bound(m2 as int, d.z as int);
    }
    let q = div_floor_i128(p0 + p1 + p2, SCALE_CUBE as i128);
    proof {
        lemma_div_is_ordered(
            -144_000_000_000_000_000_000_000_000,
            p0 as int + p1 as int + p2 as int,
            SCALE_CUBE as int,
        );
        lemma_div_is_ordered(
            p0 as int + p1 as int + p2 as int,
            144_000_000_000_000_000_000_000_000,
            SCALE_CUBE as int,
        );
    }
    q as i64
}

/// A matrix entry times a pre-rotation direction component stays within
/// `2·SCALE³ · RAY_DIR_MAX`.
proof fn lemma_entry_product_bound(m: int, x: int)
    requires
        -2 * SCALE_CUBE <= m <= 2 * SCALE_CUBE,
        -RAY_DIR_MAX <= x <= RAY_DIR_MAX,
    ensures
        -48_000_000_000_000_000_000_000_000 <= m * x <= 48_000_000_000_000_000_000_000_000,
{
    assert(-48_000_000_000_000_000_000_000_000 <= m * x <= 48_000_000_000_000_000_000_000_000)
        by (nonlinear_arith)
        requires
            -2_000_000_000_000_000_000 <= m <= 2_000_000_000_000_000_000,
            -24_000_000 <= x <= 24_000_000,
    ;
}

/// The in-range root one sphere offers a ray, if any: a non-negative
/// discriminant whose nearer root falls inside the depth range.
pub open spec fn sphere_hit_in(o: Vec3, d: Vec3, s: Sphere, mind: int, maxd: int) -> Option<int> {
    let t = hit_root(o, d, s.pos, s.radius as int);
    if quad_disc(o, d, s.pos, s.radius as int) >= 0 && mind <= t <= maxd {
        Some(t)
    } else {
        None
    }
}

/// Fold step of the scene scan: a candidate replaces the best found so far
/// only where its root is strictly nearer, so among equal roots the
/// earliest sphere keeps the hit.
pub open spec fn better(rest: Option<(int, int)>, cand: Option<int>, idx: int) -> Option<
    (int, int),
> {
    match rest {
        None => match cand {
            None => None,
            Some(t) => Some((t, idx)),
        },
        Some(p) => match cand {
            None => Some(p),
            Some(t) => if t < p.0 {
                Some((t, idx))
            } else {
                Some(p)
            },
        },
    }
}

/// The nearest in-range hit over a scene, with the index of its sphere:
/// the spheres folded in order under [`better`].
pub open spec fn best_hit(s: Seq<Sphere>, o: Vec3, d: Vec3, mind: int, maxd: int) -> Option<
    (int, int),
>
    decreases s.len(),
{
    if s.len() == 0 {
        None
    } else {
        better(
            best_hit(s.drop_last(), o, d, mind, maxd),
            sphere_hit_in(o, d, s.last(), mind, maxd),
            s.len() - 1,
        )
    }
}

/// A reported hit lies inside the depth range and names a sphere of the
/// scene.
pub proof fn lemma_best_hit_range(s: Seq<Sphere>, o: Vec3, d: Vec3, mind: int, maxd: int)
    ensures
        best_hit(s, o, d, mind, maxd) matches Some(p) ==> mind <= p.0 <= maxd && 0 <= p.1
            < s.len(),
    decreases s.len(),
{
    if s.len() > 0 {
        lemma_best_hit_range(s.drop_last(), o, d, mind, maxd);
    }
}

/// The scan reports the nearest hit and nothing else: a reported pair is
/// a sphere's own in-range root, no sphere of the scene offers a nearer
/// one, and among spheres offering the same root the earliest keeps it;
/// nothing is reported only where no sphere offers an in-range root.
pub proof fn lemma_best_hit_nearest(s: Seq<Sphere>, o: Vec3, d: Vec3, mind: int, maxd: int)
    ensures
        best_hit(s, o, d, mind, maxd) matches Some(p) ==> {
            &&& 0 <= p.1 < s.len()
            &&& sphere_hit_in(o, d, s[p.1], mind, maxd) == Some(p.0)
            &&& forall|j: int|
                0 <= j < s.len() ==> (match sphere_hit_in(o, d, #[trigger] s[j], mind, maxd) {
                    Some(tj) => p.0 <= tj && (tj == p.0 ==> p.1 <= j),
                    None => true,
                })
        },
        best_hit(s, o, d, mind, maxd) is None ==> forall|j: int|
            0 <= j < s.len() ==> sphere_hit_in(o, d, #[trigger] s[j], mind, maxd) is None,
    decreases s.len(),
{
    if s.len() > 0 {
        lemma_best_hit_nearest(s.drop_last(), o, d, mind, maxd);
        let pre = s.drop_last();
        assert(forall|j: int| 0 <= j < pre.len() ==> #[trigger] s[j] == pre[j]);
        assert(s[s.len() - 1] == s.last());
    }
}

/// Scan the scene for the nearest hit of the ray `o + t·d` within the
/// depth range; ties go to the earliest sphere.
pub fn scan_scene(scene: &SceneBuffer, o: Vec3, d: Vec3, mind: i64, maxd: i64) -> (best: Option<
    (i128, usize),
>)
    requires
        scene.wf(),
        in_coords(o),
        in_range(d, 2 * COORD_MAX),
        crate::intersect::nonzero_dir(d),
    ensures
        best matches Some(p) ==> best_hit(scene@, o, d, mind as int, maxd as int) == Some(
            (p.0 as int, p.1 as int),
        ) && p.1 < scene@.len(),
        best.is_none() ==> best_hit(scene@, o, d, mind as int, maxd as int).is_none(),
{
    let n = scene.len();
    let mut best: Option<(i128, usize)> = None;
    let mut i: usize = 0;
    while i < n
        invariant
            i <= n,
            n == scene@.len(),
            scene.wf(),
            in_coords(o),
            in_range(d, 2 * COORD_MAX),
            crate::intersect::nonzero_dir(d),
            best matches Some(p) ==> best_hit(
                scene@.subrange(0, i as int),
                o,
                d,
                mind as int,
                maxd as int,
            ) == Some((p.0 as int, p.1 as int)) && p.1 < i,
            best.is_none() ==> best_hit(
                scene@.subrange(0, i as int),
                o,
                d,
                mind as int,
                maxd as int,
            ).is_none(),
        decreases n - i,
    {
        let s = scene.get(i);
        assert(crate::sphere::sphere_wf(scene@[i as int]));
        let root = crate::intersect::sphere_check(o, d, s.pos, s.radius);
        let cand: Option<i128> = match root {
            Some(t) => if mind as i128 <= t && t <= maxd as i128 {
                Some(t)
            } else {
                None
            },
            None => None,
        };
        let ghost cand_spec = sphere_hit_in(o, d, scene@[i as int], mind as int, maxd as int);
        proof {
            match cand {
                Some(t) => assert(cand_spec == Some(t as int)),
                None => assert(cand_spec.is_none()),
            }
        }
        let next: Option<(i128, usize)> = match best {
            None => match cand {
                None => None,
                Some(t) => Some((t, i)),
            },
            Some(p) => match cand {
                None => Some(p),
                Some(t) => if t < p.0 {
                    Some((t, i))
                } else {
                    Some(p)
                },
            },
        };
        proof {
            let pre = scene@.subrange(0, i as int);
            let post = scene@.subrange(0, i as int + 1);
            assert(post.drop_last() =~= pre);
            assert(post.last() == scene@[i as int]);
            assert(best_hit(post, o, d, mind as int, maxd as int) == better(
                best_hit(pre, o, d, mind as int, maxd as int),
                cand_spec,
                i as int,
            ));
        }
        best = next;
        i = i + 1;
    }
    proof {
        assert(scene@.subrange(0, n as int) =~= scene@);
    }
    best
}

/// World-space ray direction of a pixel: the view-space ray carried
/// through the camera matrix, as the machine-word vector the kernel uses.
pub open spec fn pix_world_dir(raw: RawCamera, px: int, py: int, c: RendererConstants) -> Vec3 {
    Vec3 {
        x: rot_apply_x(raw, ray_x(px, c), ray_y(py, c), -FOCAL_LENGTH as int) as i64,
        y: rot_apply_y(raw, ray_x(px, c), ray_y(py, c), -FOCAL_LENGTH as int) as i64,
        z: rot_apply_z(raw, ray_x(px, c), ray_y(py, c), -FOCAL_LENGTH as int) as i64,
    }
}

/// The camera position an encoded block carries.
pub open spec fn cam_origin(raw: RawCamera) -> Vec3 {
    Vec3 { x: raw.position[0], y: raw.position[1], z: raw.position[2] }
}

/// The color of one pixel, channel by channel: the normal shade of the
/// nearest in-range hit, the gradient on a miss, and black for the
/// degenerate camera matrix that collapses the ray to zero.
pub open spec fn render_r(px: int, py: int, c: RendererConstants, raw: RawCamera, scene: Seq<
    Sphere,
>) -> int {
    let o = cam_origin(raw);
    let d = pix_world_dir(raw, px, py, c);
    if !crate::intersect::nonzero_dir(d) {
        0
    } else {
        match best_hit(scene, o, d, c.min_depth as int, c.max_depth as int) {
            Some(p) => crate::shade::hit_r(o, d, p.0, scene[p.1].pos),
            None => crate::shade::miss_r(d),
        }
    }
}

pub open spec fn render_g(px: int, py: int, c: RendererConstants, raw: RawCamera, scene: Seq<
    Sphere,
>) -> int {
    let o = cam_origin(raw);
    let d = pix_world_dir(raw, px, py, c);
    if !crate::intersect::nonzero_dir(d) {
        0
    } else {
        match best_hit(scene, o, d, c.min_depth as int, c.max_depth as int) {
            Some(p) => crate::shade::hit_g(o, d, p.0, scene[p.1].pos),
            None => crate::shade::miss_g(d),
        }
    }
}

pub open spec fn render_b(px: int, py: int, c: RendererConstants, raw: RawCamera, scene: Seq<
    Sphere,
>) -> int {
    let o = cam_origin(raw);
    let d = pix_world_dir(raw, px, py, c);
    if !crate::intersect::nonzero_dir(d) {
        0
    } else {
        match best_hit(scene, o, d, c.min_depth as int, c.max_depth as int) {
            Some(p) => crate::shade::hit_b(o, d, p.0, scene[p.1].pos),
            None => crate::shade::miss_b(d),
        }
    }
}

/// Run the kernel for one pixel.
pub fn render_pixel(
    px: u32,
    py: u32,
    c: &RendererConstants,
    raw: &RawCamera,
    scene: &SceneBuffer,
) -> (col: crate::shade::Color)
    requires
        c.wf(),
        raw_wf(*raw),
        scene.wf(),
        px < c.width,
        py < c.height,
    ensures
        col.r == render_r(px as int, py as int, *c, *raw, scene@),
        col.g == render_g(px as int, py as int, *c, *raw, scene@),
        col.b == render_b(px as int, py as int, *c, *raw, scene@),
        col.a == SCALE,
        crate::shade::channels_in_range(col),
{
    let d0 = ray_for_pixel(px, py, c);
    let d = rotate_dir(raw, d0);
    assert(d == pix_world_dir(*raw, px as int, py as int, *c));
    let o = Vec3 { x: raw.position[0], y: raw.position[1], z: raw.position[2] };
    assert(o == cam_origin(*raw));
    if d.x == 0 && d.y == 0 && d.z == 0 {
        return crate::shade::Color { r: 0, g: 0, b: 0, a: SCALE };
    }
    let best = scan_scene(scene, o, d, c.min_depth, c.max_depth);
    match best {
        Some((t, idx)) => {
            proof {
                lemma_best_hit_range(scene@, o, d, c.min_depth as int, c.max_depth as int);
            }
            let center = scene.get(idx).pos;
            crate::shade::hit_color(o, d, t as i64, center)
        },
        None => crate::shade::miss_color(d),
    }
}

/// A row-major cell index addresses exactly one pixel.
proof fn lemma_cell_unique(w: int, yi: int, xi: int, py: int, px: int)
    requires
        w > 0,
        0 <= xi < w,
        0 <= px < w,
        yi >= 0,
        py >= 0,
        yi * w + xi == py * w + px,
    ensures
        yi == py && xi == px,
{
    vstd::arithmetic::div_mod::lemma_fundamental_div_mod_converse(yi * w + xi, w, yi, xi);
    vstd::arithmetic::div_mod::lemma_fundamental_div_mod_converse(py * w + px, w, py, px);
}

/// Every pixel's row-major cell lies inside the image.
proof fn lemma_cell_in_image(w: int, h: int, yi: int, xi: int)
    requires
        0 <= xi < w,
        0 <= yi < h,
    ensures
        0 <= yi * w + xi < h * w,
{
    assert(0 <= yi * w + xi && yi * w + xi < h * w) by (nonlinear_arith)
        requires
            0 <= xi < w,
            0 <= yi < h,
    ;
}

/// Run the kernel over the whole viewport, row-major: one color per pixel,
/// each exactly what `render_pixel` gives for its coordinates.
pub fn render_image(c: &RendererConstants, raw: &RawCamera, scene: &SceneBuffer) -> (img: Vec<
    crate::shade::Color,
>)
    requires
        c.wf(),
        raw_wf(*raw),
        scene.wf(),
    ensures
        img@.len() == c.height * c.width,
        forall|yi: int, xi: int|
            0 <= yi < c.height && 0 <= xi < c.width ==> {
                &&& (#[trigger] img@[yi * c.width + xi]).r == render_r(xi, yi, *c, *raw, scene@)
                &&& img@[yi * c.width + xi].g == render_g(xi, yi, *c, *raw, scene@)
                &&& img@[yi * c.width + xi].b == render_b(xi, yi, *c, *raw, scene@)
                &&& img@[yi * c.width + xi].a == SCALE
            },
{
    let mut img: Vec<crate::shade::Color> = Vec::new();
    let mut py: u32 = 0;
    while py < c.height
        invariant
            c.wf(),
            raw_wf(*raw),
            scene.wf(),
            py <= c.height,
            img@.len() == py * c.width,
            forall|yi: int, xi: int|
                0 <= yi && 0 <= xi < c.width && yi * c.width + xi < img@.len() ==> {
                    &&& (#[trigger] img@[yi * c.width + xi]).r == render_r(
                        xi,
                        yi,
                        *c,
                        *raw,
                        scene@,
                    )
                    &&& img@[yi * c.width + xi].g == render_g(xi, yi, *c, *raw, scene@)
                    &&& img@[yi * c.width + xi].b == render_b(xi, yi, *c, *raw, scene@)
                    &&& img@[yi * c.width + xi].a == SCALE
                },
        decreases c.height - py,
    {
        let mut px: u32 = 0;
        while px < c.width
            invariant
                c.wf(),
                raw_wf(*raw),
                scene.wf(),
                py < c.height,
                px <= c.width,
                img@.len() == py * c.width + px,
                forall|yi: int, xi: int|
                    0 <= yi && 0 <= xi < c.width && yi * c.width + xi < img@.len() ==> {
                        &&& (#[trigger] img@[yi * c.width + xi]).r == render_r(
                            xi,
                            yi,
                            *c,
                            *raw,
                            scene@,
                        )
                        &&& img@[yi * c.width + xi].g == render_g(xi, yi, *c, *raw, scene@)
                        &&& img@[yi * c.width + xi].b == render_b(xi, yi, *c, *raw, scene@)
                        &&& img@[yi * c.width + xi].a == SCALE
                    },
            decreases c.width - px,
        {
            let col = render_pixel(px, py, c, raw, scene);
            img.push(col);
            proof {
                let w = c.width as int;
                let cell = py as int * w + px as int;
                assert forall|yi: int, xi: int|
                    0 <= yi && 0 <= xi < w && yi * w + xi < img@.len() implies {
                    &&& (#[trigger] img@[yi * w + xi]).r == render_r(xi, yi, *c, *raw, scene@)
                    &&& img@[yi * w + xi].g == render_g(xi, yi, *c, *raw, scene@)
                    &&& img@[yi * w + xi].b == render_b(xi, yi, *c, *raw, scene@)
                    &&& img@[yi * w + xi].a == SCALE
                } by {
                    lemma_cell_in_image(w, yi + 1, yi, xi);
                    if yi * w + xi == cell {
                        lemma_cell_unique(w, yi, xi, py as int, px as int);
                    }
                }
            }
            px = px + 1;
        }
        proof {
            assert((py + 1) * c.width == py * c.width + c.width) by (nonlinear_arith);
        }
        py = py + 1;
    }
    proof {
        assert forall|yi: int, xi: int| 0 <= yi < c.height && 0 <= xi < c.width implies #[trigger] (
        yi * c.width + xi) < img@.len() by {
            lemma_cell_in_image(c.width as int, c.height as int, yi, xi);
        }
    }
    img
}

/// A fixed-point channel as the 8-bit normalized value the output image
/// stores: clamped to `[0, 1]` and scaled to 255.
pub open spec fn chan8(x: int) -> int {
    if x < 0 {
        0
    } else if x > SCALE {
        255
    } else {
        (x * 255) / (SCALE as int)
    }
}

/// An RGBA color as the four 8-bit channels of the output image format.
pub fn to_rgba8(c: &crate::shade::Color) -> (out: [u8; 4])
    ensures
        out[0] == chan8(c.r as int),
        out[1] == chan8(c.g as int),
        out[2] == chan8(c.b as int),
        out[3] == chan8(c.a as int),
{
    [chan8_exec(c.r), chan8_exec(c.g), chan8_exec(c.b), chan8_exec(c.a)]
}

fn chan8_exec(x: i64) -> (v: u8)
    ensures
        v == chan8(x as int),
{
    if x < 0 {
        0
    } else if x > SCALE {
        255
    } else {
        proof {
            lemma_div_is_ordered(x * 255, SCALE as int * 255, SCALE as int);
            lemma_div_multiples_vanish(255, SCALE as int);
            lemma_div_pos_is_pos(x * 255, SCALE as int);
        }
        (((x as u64) * 255) / 1_000_000) as u8
    }
}

} // verus!
