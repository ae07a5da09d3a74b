use wreckage::constants::RendererConstants;
use wreckage::camera::{Camera, Orientation};
use wreckage::fx::{div_floor_i128, div_floor_i64, SCALE};
use wreckage::intersect::sphere_check;
use wreckage::math::{isqrt, Vec3};
use wreckage::shade::{hit_color, miss_color, Color};
use wreckage::sphere::{SceneBuffer, Sphere};
use wreckage::trace::{ray_for_pixel, render_pixel, rotate_dir, scan_scene, to_rgba8};

fn v(x: i64, y: i64, z: i64) -> Vec3 {
    Vec3 { x, y, z }
}

#[test]
fn isqrt_small_values() {
    assert_eq!(isqrt(0), 0);
    assert_eq!(isqrt(1), 1);
    assert_eq!(isqrt(3), 1);
    assert_eq!(isqrt(4), 2);
    assert_eq!(isqrt(48), 6);
    assert_eq!(isqrt(49), 7);
    assert_eq!(isqrt(1_000_000_000_000), 1_000_000);
    assert_eq!(isqrt(2_562_500_000_000), 1_600_781);
}

#[test]
fn floor_division_rounds_toward_negative_infinity() {
    assert_eq!(div_floor_i64(7, 2), 3);
    assert_eq!(div_floor_i64(-7, 2), -4);
    assert_eq!(div_floor_i64(-6, 2), -3);
    assert_eq!(div_floor_i64(0, 5), 0);
    assert_eq!(div_floor_i128(-1, 1_000_000), -1);
    assert_eq!(div_floor_i128(999_999, 1_000_000), 0);
}

#[test]
fn dot_product_is_exact() {
    let a = v(1_000_000, -2_000_000, 3_000_000);
    let b = v(4_000_000, 5_000_000, -6_000_000);
    assert_eq!(a.dot(b), 4_000_000_000_000i128 - 10_000_000_000_000 - 18_000_000_000_000);
}

#[test]
fn ray_through_center_hits_at_distance_minus_radius() {
    // Camera at the origin looking down -Z at a sphere centered two units
    // away with radius one half: the hit is at 1.5 units.
    let o = v(0, 0, 0);
    let d = v(0, 0, -SCALE);
    let c = v(0, 0, -2_000_000);
    let t = sphere_check(o, d, c, 500_000);
    assert_eq!(t, Some(1_500_000i128));
}

#[test]
fn ray_away_from_sphere_reports_negative_root() {
    // Same sphere, direction reversed: the line still meets the sphere,
    // but only behind the origin.
    let o = v(0, 0, 0);
    let d = v(0, 0, SCALE);
    let c = v(0, 0, -2_000_000);
    let t = sphere_check(o, d, c, 500_000);
    assert_eq!(t, Some(-2_500_000i128));
}

#[test]
fn ray_missing_sphere_reports_no_root() {
    // A ray parallel to the Z axis, offset by a full unit from a sphere of
    // radius one half.
    let o = v(1_000_000, 0, 0);
    let d = v(0, 0, -SCALE);
    let c = v(0, 0, -2_000_000);
    assert_eq!(sphere_check(o, d, c, 500_000), None);
}

#[test]
fn grazing_ray_touches_surface() {
    // Offset exactly by the radius: the discriminant is zero and the root
    // is the center's depth.
    let o = v(500_000, 0, 0);
    let d = v(0, 0, -SCALE);
    let c = v(0, 0, -2_000_000);
    assert_eq!(sphere_check(o, d, c, 500_000), Some(2_000_000i128));
}

#[test]
fn gradient_endpoints_are_exact() {
    // Straight down: white. Straight up: the sky color. Level: the
    // midpoint blend.
    let down = miss_color(v(0, -SCALE, 0));
    assert_eq!((down.r, down.g, down.b, down.a), (SCALE, SCALE, SCALE, SCALE));
    let up = miss_color(v(0, SCALE, 0));
    assert_eq!((up.r, up.g, up.b, up.a), (500_000, 700_000, SCALE, SCALE));
    let level = miss_color(v(SCALE, 0, 0));
    assert_eq!((level.r, level.g, level.b, level.a), (750_000, 850_000, SCALE, SCALE));
}

#[test]
fn hit_shading_maps_normals_to_channels() {
    // Hit the front pole of the unit-half sphere ahead: the normal is +Z,
    // so red and green sit at one half and blue at one.
    let col = hit_color(v(0, 0, 0), v(0, 0, -SCALE), 500_000, v(0, 0, -SCALE));
    assert_eq!((col.r, col.g, col.b, col.a), (500_000, 500_000, SCALE, SCALE));
}

fn reference_scene() -> SceneBuffer {
    let spheres = vec![
        Sphere::new(v(1_000_000, 0, -1_000_000), 200_000),
        Sphere::new(v(0, 0, -1_000_000), 500_000),
    ];
    SceneBuffer::new(spheres).expect("two spheres make a scene")
}

fn reference_constants() -> RendererConstants {
    RendererConstants::new(800, 600, 0, 12_000_000).expect("an 800x600 viewport is accepted")
}

#[test]
fn center_pixel_hits_the_sphere_ahead() {
    // A scene with a sphere at (0,0,-1) radius 0.5 seen from the origin
    // facing -Z at aspect 800/600: the center pixel reports the hit,
    // shaded by the +Z surface normal.
    let c = reference_constants();
    let cam = Camera::default();
    let raw = cam.raw(&Orientation::identity());
    let scene = reference_scene();
    let col = render_pixel(400, 300, &c, &raw, &scene);
    assert_eq!((col.r, col.g, col.b, col.a), (500_000, 500_000, SCALE, SCALE));
}

#[test]
fn corner_pixel_misses_and_shows_the_gradient() {
    let c = reference_constants();
    let cam = Camera::default();
    let raw = cam.raw(&Orientation::identity());
    let scene = reference_scene();
    let col = render_pixel(0, 0, &c, &raw, &scene);
    assert_eq!((col.r, col.g, col.b, col.a), (593_826, 756_295, SCALE, SCALE));
}

#[test]
fn center_ray_construction_is_axial() {
    let c = reference_constants();
    let d = ray_for_pixel(400, 300, &c);
    assert_eq!((d.x, d.y, d.z), (0, 0, -SCALE));
    let corner = ray_for_pixel(0, 0, &c);
    assert_eq!((corner.x, corner.y, corner.z), (-750_000, 1_000_000, -SCALE));
}

#[test]
fn identity_rotation_keeps_rays() {
    let cam = Camera::default();
    let raw = cam.raw(&Orientation::identity());
    let d = rotate_dir(&raw, v(-750_000, 1_000_000, -SCALE));
    assert_eq!((d.x, d.y, d.z), (-750_000, 1_000_000, -SCALE));
}

#[test]
fn nearest_hit_wins_over_farther_sphere() {
    // Two spheres on the same ray: the scan reports the nearer one.
    let spheres = vec![
        Sphere::new(v(0, 0, -4_000_000), 500_000),
        Sphere::new(v(0, 0, -2_000_000), 500_000),
    ];
    let scene = SceneBuffer::new(spheres).unwrap();
    let best = scan_scene(&scene, v(0, 0, 0), v(0, 0, -SCALE), 0, 100_000_000);
    assert_eq!(best, Some((1_500_000i128, 1usize)));
}

#[test]
fn hits_beyond_the_depth_range_are_discarded() {
    let spheres = vec![Sphere::new(v(0, 0, -50_000_000), 500_000)];
    let scene = SceneBuffer::new(spheres).unwrap();
    let best = scan_scene(&scene, v(0, 0, 0), v(0, 0, -SCALE), 0, 12_000_000);
    assert_eq!(best, None);
}

#[test]
fn channels_convert_to_eight_bit() {
    let c = Color { r: SCALE, g: 500_000, b: 0, a: SCALE };
    assert_eq!(to_rgba8(&c), [255, 127, 0, 255]);
    let clamped = Color { r: -5, g: 2_000_000, b: 1, a: SCALE };
    assert_eq!(to_rgba8(&clamped), [0, 255, 0, 255]);
}
