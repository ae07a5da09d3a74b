//! The camera: position and Euler orientation, the input integration that
//! moves it between frames, and its GPU-facing encoding.
//!
//! The trigonometric evaluation of an angle is handed in as a [`Rot`]
//! (sine and cosine in fixed point): the transcendental evaluation itself
//! belongs to the floating-point collaborator outside this crate, while
//! everything built from it — the rotation matrix, the strafe directions,
//! the encoded block — is exact integer arithmetic and is verified here.

use vstd::prelude::*;

verus! {

use vstd::arithmetic::div_mod::lemma_div_multiples_vanish;
use crate::fx::SCALE;
use crate::fx::SCALE_SQ;
use crate::fx::SCALE_CUBE;
use crate::fx::COORD_MAX;
use crate::fx::div_floor_i64;
use crate::math::Vec3;
use crate::math::in_range;
use crate::math::in_coords;

/// Movement speed, world units per second: 4 units/s in fixed point.
pub const MOVE_SPEED: i64 = 4_000_000;

/// Look sensitivity: angle advanced per pointer count and second, 0.6 in
/// fixed point.
pub const LOOK_SENSITIVITY: i64 = 600_000;

/// Largest frame delta accepted by the integrator: 2 seconds.
pub const DT_LIMIT: i64 = 2_000_000;

/// Positions are kept within half the coordinate bound so one frame of
/// movement can never leave the geometry's range.
pub const POS_LIMIT: i64 = 50_000_000;

/// Largest pointer delta accepted per frame, in counts.
pub const POINTER_LIMIT: i64 = 1_000_000;

/// Largest accumulated angle, in fixed-point radians; the collaborator
/// wraps angles long before this.
pub const ANGLE_LIMIT: i64 = 1_000_000_000_000_000;

/// Field of view handed to fresh cameras, matching the renderer's default.
pub const DEFAULT_FOV: i64 = 90_000_000;

/// Sine and cosine of one Euler angle, fixed point.
#[derive(Clone, Copy, PartialEq, Eq, Structural, Debug)]
pub struct Rot {
    pub sin: i64,
    pub cos: i64,
}

/// Both entries of a trigonometric pair lie in `[-1, 1]` (fixed point).
pub open spec fn rot_in_range(r: Rot) -> bool {
    &&& -SCALE <= r.sin <= SCALE
    &&& -SCALE <= r.cos <= SCALE
}

/// The pair for angle zero.
pub open spec fn spec_rot_identity() -> Rot {
    Rot { sin: 0i64, cos: SCALE }
}

/// The pair for a quarter turn counterclockwise.
pub open spec fn spec_rot_quarter() -> Rot {
    Rot { sin: SCALE, cos: 0i64 }
}

impl Rot {
    /// Angle zero: sine 0, cosine 1.
    pub fn identity() -> (r: Rot)
        ensures
            r == spec_rot_identity(),
    {
        Rot { sin: 0, cos: SCALE }
    }

    /// A quarter turn counterclockwise: sine 1, cosine 0.
    pub fn quarter_turn() -> (r: Rot)
        ensures
            r == spec_rot_quarter(),
    {
        Rot { sin: SCALE, cos: 0 }
    }
}

/// The trigonometric evaluation of a camera's three Euler angles:
/// pitch about X, yaw about Y, roll about Z.
#[derive(Clone, Copy, PartialEq, Eq, Structural, Debug)]
pub struct Orientation {
    pub pitch: Rot,
    pub yaw: Rot,
    pub roll: Rot,
}

pub open spec fn orientation_in_range(o: Orientation) -> bool {
    &&& rot_in_range(o.pitch)
    &&& rot_in_range(o.yaw)
    &&& rot_in_range(o.roll)
}

/// The identity orientation: all three angles zero.
pub open spec fn spec_orientation_identity() -> Orientation {
    Orientation { pitch: spec_rot_identity(), yaw: spec_rot_identity(), roll: spec_rot_identity() }
}

impl Orientation {
    pub fn identity() -> (o: Orientation)
        ensures
            o == spec_orientation_identity(),
    {
        Orientation { pitch: Rot::identity(), yaw: Rot::identity(), roll: Rot::identity() }
    }
}

/// The camera owned by the frame driver: a position, Euler angles in
/// fixed-point radians, and a field of view.
#[derive(Clone, Copy, PartialEq, Eq, Structural, Debug)]
pub struct Camera {
    pub position: Vec3,
    pub pitch: i64,
    pub yaw: i64,
    pub roll: i64,
    pub fov: i64,
}

impl Default for Camera {
    /// A camera at the origin, axis-aligned, with the default field of view.
    fn default() -> (c: Camera)
        ensures
            c.position == (Vec3 { x: 0i64, y: 0i64, z: 0i64 }),
            c.pitch == 0 && c.yaw == 0 && c.roll == 0,
            c.fov == DEFAULT_FOV,
    {
        Camera { position: Vec3 { x: 0, y: 0, z: 0 }, pitch: 0, yaw: 0, roll: 0, fov: DEFAULT_FOV }
    }
}

/// The camera block pushed to the kernel each frame: the position as a
/// 4-vector (4th component zero, weight `SCALE`) and the rotation matrix
/// in column-major order (each entry at weight `SCALE³`), exactly the
/// layout the kernel's push-constant declaration expects once every entry
/// is divided by its weight at the upload boundary.
#[derive(Clone, Copy, Debug)]
pub struct RawCamera {
    pub position: [i64; 4],
    pub rotation_mat: [[i64; 4]; 4],
}

/// What the renderer relies on of an encoded camera block: matrix entries
/// within twice their weight (each is a sum of two products of sines and
/// cosines) and a position within the coordinate bound.
pub open spec fn raw_wf(raw: RawCamera) -> bool {
    &&& -2 * SCALE_CUBE <= raw.rotation_mat[0][0] <= 2 * SCALE_CUBE
    &&& -2 * SCALE_CUBE <= raw.rotation_mat[0][1] <= 2 * SCALE_CUBE
    &&& -2 * SCALE_CUBE <= raw.rotation_mat[0][2] <= 2 * SCALE_CUBE
    &&& -2 * SCALE_CUBE <= raw.rotation_mat[1][0] <= 2 * SCALE_CUBE
    &&& -2 * SCALE_CUBE <= raw.rotation_mat[1][1] <= 2 * SCALE_CUBE
    &&& -2 * SCALE_CUBE <= raw.rotation_mat[1][2] <= 2 * SCALE_CUBE
    &&& -2 * SCALE_CUBE <= raw.rotation_mat[2][0] <= 2 * SCALE_CUBE
    &&& -2 * SCALE_CUBE <= raw.rotation_mat[2][1] <= 2 * SCALE_CUBE
    &&& -2 * SCALE_CUBE <= raw.rotation_mat[2][2] <= 2 * SCALE_CUBE
    &&& -COORD_MAX <= raw.position[0] <= COORD_MAX
    &&& -COORD_MAX <= raw.position[1] <= COORD_MAX
    &&& -COORD_MAX <= raw.position[2] <= COORD_MAX
}

/// Entries of the Euler composition `Rz(roll) · Ry(yaw) · Rx(pitch)`,
/// every entry at weight `SCALE³`. Row `r`, column `c` of the
/// mathematical matrix is `rot_rc` below.
pub open spec fn rot_r00(o: Orientation) -> int {
    o.roll.cos * o.yaw.cos * SCALE
}

pub open spec fn rot_r01(o: Orientation) -> int {
    o.roll.cos * o.yaw.sin * o.pitch.sin - o.roll.sin * o.pitch.cos * SCALE
}

pub open spec fn rot_r02(o: Orientation) -> int {
    o.roll.cos * o.yaw.sin * o.pitch.cos + o.roll.sin * o.pitch.sin * SCALE
}

pub open spec fn rot_r10(o: Orientation) -> int {
    o.roll.sin * o.yaw.cos * SCALE
}

pub open spec fn rot_r11(o: Orientation) -> int {
    o.roll.sin * o.yaw.sin * o.pitch.sin + o.roll.cos * o.pitch.cos * SCALE
}

pub open spec fn rot_r12(o: Orientation) -> int {
    o.roll.sin * o.yaw.sin * o.pitch.cos - o.roll.cos * o.pitch.sin * SCALE
}

pub open spec fn rot_r20(o: Orientation) -> int {
    -o.yaw.sin * SCALE * SCALE
}

pub open spec fn rot_r21(o: Orientation) -> int {
    o.yaw.cos * o.pitch.sin * SCALE
}

pub open spec fn rot_r22(o: Orientation) -> int {
    o.yaw.cos * o.pitch.cos * SCALE
}

/// Product of three fixed-point factors, each within `[-1, 1]`.
fn tri(a: i64, b: i64, c: i64) -> (r: i64)
    requires
        -SCALE <= a <= SCALE,
        -SCALE <= b <= SCALE,
        -SCALE <= c <= SCALE,
    ensures
        r == a * b * c,
        -SCALE_CUBE <= r <= SCALE_CUBE,
{
    proof {
        assert(
            -1000000000000 <= a * b <= 1000000000000 && -1000000000000000000 <= a * b * c
                <= 1000000000000000000
        ) by (nonlinear_arith)
            requires
                -1000000 <= a <= 1000000,
                -1000000 <= b <= 1000000,
                -1000000 <= c <= 1000000,
        ;
    }
    a * b * c
}

impl Camera {
    /// Encode the camera for the kernel, from the trigonometric evaluation
    /// `o` of its Euler angles: the rotation is the Euler composition
    /// (pitch about X, yaw about Y, roll about Z), stored column-major;
    /// the position is embedded as a 4-vector with the 4th component zero.
    pub fn raw(&self, o: &Orientation) -> (raw: RawCamera)
        requires
            orientation_in_range(*o),
            in_coords(self.position),
        ensures
            raw_wf(raw),
            raw.position[0] == self.position.x,
            raw.position[1] == self.position.y,
            raw.position[2] == self.position.z,
            raw.position[3] == 0,
            raw.rotation_mat[0][0] == rot_r00(*o),
            raw.rotation_mat[0][1] == rot_r10(*o),
            raw.rotation_mat[0][2] == rot_r20(*o),
            raw.rotation_mat[0][3] == 0,
            raw.rotation_mat[1][0] == rot_r01(*o),
            raw.rotation_mat[1][1] == rot_r11(*o),
            raw.rotation_mat[1][2] == rot_r21(*o),
            raw.rotation_mat[1][3] == 0,
            raw.rotation_mat[2][0] == rot_r02(*o),
            raw.rotation_mat[2][1] == rot_r12(*o),
            raw.rotation_mat[2][2] == rot_r22(*o),
            raw.rotation_mat[2][3] == 0,
            raw.rotation_mat[3][0] == 0,
            raw.rotation_mat[3][1] == 0,
            raw.rotation_mat[3][2] == 0,
            raw.rotation_mat[3][3] == SCALE_CUBE,
    {
        let sa = o.pitch.sin;
        let ca = o.pitch.cos;
        let sb = o.yaw.sin;
        let cb = o.yaw.cos;
        let sc = o.roll.sin;
        let cc = o.roll.cos;
        let r00 = tri(cc, cb, SCALE);
        let r01 = tri(cc, sb, sa) - tri(sc, ca, SCALE);
        let r02 = tri(cc, sb, ca) + tri(sc, sa, SCALE);
        let r10 = tri(sc, cb, SCALE);
        let r11 = tri(sc, sb, sa) + tri(cc, ca, SCALE);
        let r12 = tri(sc, sb, ca) - tri(cc, sa, SCALE);
        let r20 = -tri(sb, SCALE, SCALE);
        let r21 = tri(cb, sa, SCALE);
        let r22 = tri(cb, ca, SCALE);
        RawCamera {
            position: [self.position.x, self.position.y, self.position.z, 0],
            rotation_mat: [
                [r00, r10, r20, 0],
                [r01, r11, r21, 0],
                [r02, r12, r22, 0],
                [0, 0, 0, SCALE_CUBE],
            ],
        }
    }
}

/// Encoding the identity orientation yields the identity matrix (each
/// diagonal entry at its weight `SCALE³`).
pub proof fn lemma_identity_matrix()
    ensures
        rot_r00(spec_orientation_identity()) == SCALE_CUBE,
        rot_r11(spec_orientation_identity()) == SCALE_CUBE,
        rot_r22(spec_orientation_identity()) == SCALE_CUBE,
        rot_r01(spec_orientation_identity()) == 0,
        rot_r02(spec_orientation_identity()) == 0,
        rot_r10(spec_orientation_identity()) == 0,
        rot_r12(spec_orientation_identity()) == 0,
        rot_r20(spec_orientation_identity()) == 0,
        rot_r21(spec_orientation_identity()) == 0,
{
    let o = spec_orientation_identity();
    assert(o.pitch.sin == 0 && o.pitch.cos == SCALE && o.yaw.sin == 0 && o.yaw.cos == SCALE
        && o.roll.sin == 0 && o.roll.cos == SCALE);
}

/// Decode an encoded camera block back into a position and an orientation,
/// reading the entries a roll-free Euler composition places: the yaw pair
/// from the first column, the pitch pair from the second and third.
pub fn decode(raw: &RawCamera) -> (dec: (Vec3, Orientation))
    requires
        -2 * SCALE_CUBE <= raw.rotation_mat[0][2] <= 2 * SCALE_CUBE,
        -2 * SCALE_CUBE <= raw.rotation_mat[2][1] <= 2 * SCALE_CUBE,
    ensures
        dec.0 == (Vec3 { x: raw.position[0], y: raw.position[1], z: raw.position[2] }),
        dec.1.yaw.sin == (-raw.rotation_mat[0][2]) as int / SCALE_SQ as int,
        dec.1.yaw.cos == raw.rotation_mat[0][0] as int / SCALE_SQ as int,
        dec.1.pitch.sin == (-raw.rotation_mat[2][1]) as int / SCALE_SQ as int,
        dec.1.pitch.cos == raw.rotation_mat[1][1] as int / SCALE_SQ as int,
        dec.1.roll == spec_rot_identity(),
{
    let position = Vec3 { x: raw.position[0], y: raw.position[1], z: raw.position[2] };
    let yaw = Rot {
        sin: div_floor_i64(-raw.rotation_mat[0][2], SCALE_SQ),
        cos: div_floor_i64(raw.rotation_mat[0][0], SCALE_SQ),
    };
    let pitch = Rot {
        sin: div_floor_i64(-raw.rotation_mat[2][1], SCALE_SQ),
        cos: div_floor_i64(raw.rotation_mat[1][1], SCALE_SQ),
    };
    (position, Orientation { pitch, yaw, roll: Rot::identity() })
}

/// Round trip: for a roll-free orientation, the entries the encoder writes
/// decode back to exactly the original sine/cosine pairs — the yaw pair
/// from `R₂₀` and `R₀₀`, the pitch pair from `R₁₂` and `R₁₁`.
pub proof fn lemma_raw_round_trip(o: Orientation)
    requires
        orientation_in_range(o),
        o.roll == spec_rot_identity(),
    ensures
        (-rot_r20(o)) / SCALE_SQ as int == o.yaw.sin,
        rot_r00(o) / SCALE_SQ as int == o.yaw.cos,
        (-rot_r12(o)) / SCALE_SQ as int == o.pitch.sin,
        rot_r11(o) / SCALE_SQ as int == o.pitch.cos,
{
    let sq = SCALE_SQ as int;
    assert(rot_r00(o) == sq * o.yaw.cos && rot_r11(o) == sq * o.pitch.cos && rot_r12(o) == -(sq
        * o.pitch.sin) && rot_r20(o) == -(sq * o.yaw.sin)) by (nonlinear_arith)
        requires
            o.roll.sin == 0,
            o.roll.cos == SCALE,
            rot_r00(o) == o.roll.cos * o.yaw.cos * SCALE,
            rot_r11(o) == o.roll.sin * o.yaw.sin * o.pitch.sin + o.roll.cos * o.pitch.cos * SCALE,
            rot_r12(o) == o.roll.sin * o.yaw.sin * o.pitch.cos - o.roll.cos * o.pitch.sin * SCALE,
            rot_r20(o) == -o.yaw.sin * SCALE * SCALE,
            sq == SCALE * SCALE,
    ;
    lemma_div_multiples_vanish(o.yaw.cos as int, sq);
    lemma_div_multiples_vanish(o.pitch.cos as int, sq);
    lemma_div_multiples_vanish(o.pitch.sin as int, sq);
    lemma_div_multiples_vanish(o.yaw.sin as int, sq);
}

/// Difference of the two keys of one axis: `+1` ahead, `-1` back, `0` for
/// neither or both.
pub open spec fn key_axis(neg: bool, pos: bool) -> int {
    (if pos {
        1int
    } else {
        0int
    }) - (if neg {
        1int
    } else {
        0int
    })
}

/// Camera-local velocity derived from the held keys: forward is `+Z`,
/// right is `+X`, scaled by the fixed movement speed.
pub open spec fn move_x(i: crate::input::InputState) -> int {
    key_axis(i.left, i.right) * MOVE_SPEED
}

pub open spec fn move_z(i: crate::input::InputState) -> int {
    key_axis(i.backward, i.forward) * MOVE_SPEED
}

/// Components of a vector rotated by `yaw` about the world Y axis.
pub open spec fn rot_y_x(x: int, z: int, yaw: Rot) -> int {
    (yaw.cos * x + yaw.sin * z) / SCALE as int
}

pub open spec fn rot_y_z(x: int, z: int, yaw: Rot) -> int {
    (yaw.cos * z - yaw.sin * x) / SCALE as int
}

/// One frame's displacement along X and Z: the key-derived velocity,
/// rotated by the current yaw, scaled by the frame delta.
pub open spec fn step_x(i: crate::input::InputState, yaw: Rot, dt: int) -> int {
    (rot_y_x(move_x(i), move_z(i), yaw) * dt) / SCALE as int
}

pub open spec fn step_z(i: crate::input::InputState, yaw: Rot, dt: int) -> int {
    (rot_y_z(move_x(i), move_z(i), yaw) * dt) / SCALE as int
}

/// One frame's advance of an Euler angle from a pointer delta.
pub open spec fn angle_step(delta: int, dt: int) -> int {
    (delta * dt * LOOK_SENSITIVITY) / SCALE_SQ as int
}

/// The camera-local velocity vector for the held keys.
pub fn velocity(input: &crate::input::InputState) -> (v: Vec3)
    ensures
        v.x == move_x(*input),
        v.y == 0,
        v.z == move_z(*input),
        in_range(v, MOVE_SPEED as int),
{
    let mut x: i64 = 0;
    let mut z: i64 = 0;
    if input.right {
        x = x + MOVE_SPEED;
    }
    if input.left {
        x = x - MOVE_SPEED;
    }
    if input.forward {
        z = z + MOVE_SPEED;
    }
    if input.backward {
        z = z - MOVE_SPEED;
    }
    Vec3 { x, y: 0, z }
}

/// Rotate a camera-local velocity about the world Y axis by the current
/// yaw, so strafing follows the facing direction rather than world axes.
pub fn rotate_about_y(v: Vec3, yaw: Rot) -> (r: Vec3)
    requires
        rot_in_range(yaw),
        in_range(v, 2 * MOVE_SPEED),
    ensures
        r.x == rot_y_x(v.x as int, v.z as int, yaw),
        r.y == v.y,
        r.z == rot_y_z(v.x as int, v.z as int, yaw),
        in_range(r, 16_000_000),
{
    let cx = crate::math::mul_wide(yaw.cos, v.x);
    let cz = crate::math::mul_wide(yaw.cos, v.z);
    let sx = crate::math::mul_wide(yaw.sin, v.x);
    let sz = crate::math::mul_wide(yaw.sin, v.z);
    proof {
        lemma_rot_product_bound(yaw.cos as int, v.x as int);
        lemma_rot_product_bound(yaw.cos as int, v.z as int);
        lemma_rot_product_bound(yaw.sin as int, v.x as int);
        lemma_rot_product_bound(yaw.sin as int, v.z as int);
    }
    let nx = crate::fx::div_floor_i128(cx + sz, SCALE as i128);
    let nz = crate::fx::div_floor_i128(cz - sx, SCALE as i128);
    proof {
        lemma_div_bound_16m(cx as int + sz as int);
        lemma_div_bound_16m(cz as int - sx as int);
    }
    Vec3 { x: nx as i64, y: v.y, z: nz as i64 }
}

/// A trigonometric factor times a velocity component stays within
/// `SCALE · 2 · MOVE_SPEED`.
proof fn lemma_rot_product_bound(c: int, x: int)
    requires
        -SCALE <= c <= SCALE,
        -2 * MOVE_SPEED <= x <= 2 * MOVE_SPEED,
    ensures
        -8_000_000_000_000 <= c * x <= 8_000_000_000_000,
{
    assert(-8_000_000_000_000 <= c * x <= 8_000_000_000_000) by (nonlinear_arith)
        requires
            -1_000_000 <= c <= 1_000_000,
            -8_000_000 <= x <= 8_000_000,
    ;
}

/// Dividing a value within `±1.6·10¹³` by `SCALE` lands within `±1.6·10⁷`.
proof fn lemma_div_bound_16m(num: int)
    requires
        -16_000_000_000_000 <= num <= 16_000_000_000_000,
    ensures
        -16_000_000 <= num / SCALE as int <= 16_000_000,
{
    vstd::arithmetic::div_mod::lemma_div_is_ordered(-16_000_000_000_000, num, SCALE as int);
    vstd::arithmetic::div_mod::lemma_div_is_ordered(num, 16_000_000_000_000, SCALE as int);
}

impl Camera {
    /// Advance the camera by one frame of input: the held keys move the
    /// position (resolved in camera-local space, rotated by the current
    /// yaw, scaled by speed and `dt`), and the pointer delta advances the
    /// yaw and pitch angles, scaled by `dt` and the look sensitivity.
    /// `yaw_rot` is the trigonometric evaluation of this camera's yaw.
    pub fn integrate(&mut self, input: &crate::input::InputState, yaw_rot: Rot, dt: i64)
        requires
            in_range(old(self).position, POS_LIMIT as int),
            rot_in_range(yaw_rot),
            0 <= dt <= DT_LIMIT,
            -POINTER_LIMIT <= input.pointer_dx <= POINTER_LIMIT,
            -POINTER_LIMIT <= input.pointer_dy <= POINTER_LIMIT,
            -ANGLE_LIMIT <= old(self).yaw <= ANGLE_LIMIT,
            -ANGLE_LIMIT <= old(self).pitch <= ANGLE_LIMIT,
        ensures
            final(self).position.x == old(self).position.x + step_x(*input, yaw_rot, dt as int),
            final(self).position.y == old(self).position.y,
            final(self).position.z == old(self).position.z + step_z(*input, yaw_rot, dt as int),
            in_coords(final(self).position),
            final(self).yaw == old(self).yaw + angle_step(input.pointer_dx as int, dt as int),
            final(self).pitch == old(self).pitch + angle_step(input.pointer_dy as int, dt as int),
            final(self).roll == old(self).roll,
            final(self).fov == old(self).fov,
    {
        let v = velocity(input);
        let r = rotate_about_y(v, yaw_rot);
        let dx_wide = crate::math::mul_wide(r.x, dt);
        let dz_wide = crate::math::mul_wide(r.z, dt);
        proof {
            lemma_step_product_bound(r.x as int, dt as int);
            lemma_step_product_bound(r.z as int, dt as int);
        }
        let sx = crate::fx::div_floor_i128(dx_wide, SCALE as i128);
        let sz = crate::fx::div_floor_i128(dz_wide, SCALE as i128);
        proof {
            lemma_step_div_bound(dx_wide as int);
            lemma_step_div_bound(dz_wide as int);
        }
        self.position = Vec3 {
            x: self.position.x + (sx as i64),
            y: self.position.y,
            z: self.position.z + (sz as i64),
        };
        let yaw_delta = pointer_angle_step(input.pointer_dx, dt);
        let pitch_delta = pointer_angle_step(input.pointer_dy, dt);
        self.yaw = self.yaw + yaw_delta;
        self.pitch = self.pitch + pitch_delta;
    }
}

/// A rotated velocity component times a frame delta stays within
/// `1.6·10⁷ · 2·10⁶`.
proof fn lemma_step_product_bound(r: int, dt: int)
    requires
        -16_000_000 <= r <= 16_000_000,
        0 <= dt <= DT_LIMIT,
    ensures
        -32_000_000_000_000 <= r * dt <= 32_000_000_000_000,
{
    assert(-32_000_000_000_000 <= r * dt <= 32_000_000_000_000) by (nonlinear_arith)
        requires
            -16_000_000 <= r <= 16_000_000,
            0 <= dt <= 2_000_000,
    ;
}

/// Dividing a value within `±3.2·10¹³` by `SCALE` lands within `±3.2·10⁷`.
proof fn lemma_step_div_bound(num: int)
    requires
        -32_000_000_000_000 <= num <= 32_000_000_000_000,
    ensures
        -32_000_000 <= num / SCALE as int <= 32_000_000,
{
    vstd::arithmetic::div_mod::lemma_div_is_ordered(-32_000_000_000_000, num, SCALE as int);
    vstd::arithmetic::div_mod::lemma_div_is_ordered(num, 32_000_000_000_000, SCALE as int);
}

/// One angle's advance from one pointer axis.
fn pointer_angle_step(delta: i64, dt: i64) -> (a: i64)
    requires
        -POINTER_LIMIT <= delta <= POINTER_LIMIT,
        0 <= dt <= DT_LIMIT,
    ensures
        a == angle_step(delta as int, dt as int),
        -1_200_000 - 1 <= a <= 1_200_000,
{
    let prod = crate::math::mul_wide(delta, dt);
    proof {
        assert(-2_000_000_000_000 <= delta * dt <= 2_000_000_000_000) by (nonlinear_arith)
            requires
                -1_000_000 <= delta <= 1_000_000,
                0 <= dt <= 2_000_000,
        ;
    }
    proof {
        assert(-1_200_000_000_000_000_000 <= prod * (LOOK_SENSITIVITY as int)
            <= 1_200_000_000_000_000_000) by (nonlinear_arith)
            requires
                -2_000_000_000_000 <= prod <= 2_000_000_000_000,
                LOOK_SENSITIVITY == 600_000,
        ;
    }
    let scaled = prod * (LOOK_SENSITIVITY as i128);
    let a = crate::fx::div_floor_i128(scaled, SCALE_SQ as i128);
    proof {
        vstd::arithmetic::div_mod::lemma_div_is_ordered(
            -1_200_000_000_000_000_000,
            scaled as int,
            SCALE_SQ as int,
        );
        vstd::arithmetic::div_mod::lemma_div_is_ordered(
            scaled as int,
            1_200_000_000_000_000_000,
            SCALE_SQ as int,
        );
    }
    a as i64
}

/// Holding only "forward" with zero yaw advances the position by exactly
/// the speed times the frame delta along `+Z`, and not at all along X:
/// the X step is zero and the Z step times `SCALE` is `MOVE_SPEED · dt`.
pub proof fn lemma_forward_motion(i: crate::input::InputState, dt: int)
    requires
        i.forward,
        !i.backward,
        !i.left,
        !i.right,
        0 <= dt <= DT_LIMIT,
    ensures
        step_x(i, spec_rot_identity(), dt) == 0,
        step_z(i, spec_rot_identity(), dt) * SCALE == MOVE_SPEED * dt,
{
    let ident = spec_rot_identity();
    assert(move_x(i) == 0 && move_z(i) == MOVE_SPEED);
    assert(rot_y_x(0, MOVE_SPEED as int, ident) == 0) by {
        vstd::arithmetic::div_mod::lemma_div_of0(SCALE as int);
    }
    assert(rot_y_z(0, MOVE_SPEED as int, ident) == MOVE_SPEED) by {
        lemma_div_multiples_vanish(MOVE_SPEED as int, SCALE as int);
    }
    assert(step_x(i, ident, dt) == (0 * dt) / SCALE as int);
    assert((0 * dt) / SCALE as int == 0) by {
        vstd::arithmetic::div_mod::lemma_div_of0(SCALE as int);
    }
    assert(step_z(i, ident, dt) == (MOVE_SPEED * dt) / SCALE as int);
    assert((MOVE_SPEED * dt) / SCALE as int == 4 * dt) by {
        lemma_div_multiples_vanish(4 * dt, SCALE as int);
    }
}

/// At a yaw of a quarter turn, holding only "forward" displaces along the
/// world X axis, not Z: the Z step is zero and the X step times `SCALE`
/// is `MOVE_SPEED · dt`.
pub proof fn lemma_forward_motion_quarter_turn(i: crate::input::InputState, dt: int)
    requires
        i.forward,
        !i.backward,
        !i.left,
        !i.right,
        0 <= dt <= DT_LIMIT,
    ensures
        step_x(i, spec_rot_quarter(), dt) * SCALE == MOVE_SPEED * dt,
        step_z(i, spec_rot_quarter(), dt) == 0,
{
    let q = spec_rot_quarter();
    assert(move_x(i) == 0 && move_z(i) == MOVE_SPEED);
    assert(rot_y_x(0, MOVE_SPEED as int, q) == MOVE_SPEED) by {
        lemma_div_multiples_vanish(MOVE_SPEED as int, SCALE as int);
    }
    assert(rot_y_z(0, MOVE_SPEED as int, q) == 0) by {
        vstd::arithmetic::div_mod::lemma_div_of0(SCALE as int);
    }
    assert(step_x(i, q, dt) == (MOVE_SPEED * dt) / SCALE as int);
    assert((MOVE_SPEED * dt) / SCALE as int == 4 * dt) by {
        lemma_div_multiples_vanish(4 * dt, SCALE as int);
    }
    assert(step_z(i, q, dt) == (0 * dt) / SCALE as int);
    assert((0 * dt) / SCALE as int == 0) by {
        vstd::arithmetic::div_mod::lemma_div_of0(SCALE as int);
    }
}

} // verus!
