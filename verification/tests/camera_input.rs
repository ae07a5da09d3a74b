use wreckage::camera::{
    decode, Camera, Orientation, Rot, DEFAULT_FOV, LOOK_SENSITIVITY, MOVE_SPEED,
};
use wreckage::fx::{SCALE, SCALE_CUBE};
use wreckage::input::{is_pressed, InputState, KeyState, MoveKey};
use wreckage::math::Vec3;

#[test]
fn pressed_state_is_recognized() {
    assert!(is_pressed(KeyState::Pressed));
    assert!(!is_pressed(KeyState::Released));
}

#[test]
fn key_transitions_update_the_input_state() {
    let mut input = InputState::new();
    input.apply_key(MoveKey::Forward, KeyState::Pressed);
    input.apply_key(MoveKey::Left, KeyState::Pressed);
    assert!(input.forward && input.left && !input.backward && !input.right);
    input.apply_key(MoveKey::Forward, KeyState::Released);
    assert!(!input.forward && input.left);
}

#[test]
fn pointer_deltas_accumulate_and_clear() {
    let mut input = InputState::new();
    input.apply_pointer(3, -2);
    input.apply_pointer(4, 1);
    assert_eq!((input.pointer_dx, input.pointer_dy), (7, -1));
    input.clear_pointer();
    assert_eq!((input.pointer_dx, input.pointer_dy), (0, 0));
}

#[test]
fn default_camera_sits_at_the_origin() {
    let cam = Camera::default();
    assert_eq!(cam.position, Vec3 { x: 0, y: 0, z: 0 });
    assert_eq!((cam.pitch, cam.yaw, cam.roll), (0, 0, 0));
    assert_eq!(cam.fov, DEFAULT_FOV);
}

#[test]
fn forward_for_a_quarter_second_moves_one_unit_ahead() {
    // Speed 4 units/s for 0.25 s with zero yaw: exactly (0, 0, 1).
    let mut cam = Camera::default();
    let mut input = InputState::new();
    input.apply_key(MoveKey::Forward, KeyState::Pressed);
    cam.integrate(&input, Rot::identity(), 250_000);
    assert_eq!(cam.position, Vec3 { x: 0, y: 0, z: 1_000_000 });
    assert_eq!((cam.pitch, cam.yaw), (0, 0));
}

#[test]
fn forward_at_quarter_turn_yaw_moves_along_world_x() {
    // The same press at a yaw of 90 degrees displaces along +X, not Z.
    let mut cam = Camera::default();
    let mut input = InputState::new();
    input.apply_key(MoveKey::Forward, KeyState::Pressed);
    cam.integrate(&input, Rot::quarter_turn(), 250_000);
    assert_eq!(cam.position, Vec3 { x: 1_000_000, y: 0, z: 0 });
}

#[test]
fn opposite_keys_cancel() {
    let mut cam = Camera::default();
    let mut input = InputState::new();
    input.apply_key(MoveKey::Forward, KeyState::Pressed);
    input.apply_key(MoveKey::Backward, KeyState::Pressed);
    input.apply_key(MoveKey::Left, KeyState::Pressed);
    input.apply_key(MoveKey::Right, KeyState::Pressed);
    cam.integrate(&input, Rot::identity(), 250_000);
    assert_eq!(cam.position, Vec3 { x: 0, y: 0, z: 0 });
}

#[test]
fn pointer_motion_advances_the_angles() {
    // 100 counts over 0.25 s at sensitivity 0.6: 100 * 0.25 * 0.6 = 15
    // millionths of a radian per axis, exactly.
    let mut cam = Camera::default();
    let mut input = InputState::new();
    input.apply_pointer(100, -40);
    cam.integrate(&input, Rot::identity(), 250_000);
    assert_eq!(cam.yaw, 15);
    assert_eq!(cam.pitch, -6);
    assert_eq!(LOOK_SENSITIVITY, 600_000);
    assert_eq!(MOVE_SPEED, 4_000_000);
}

#[test]
fn identity_orientation_encodes_the_identity_matrix() {
    let cam = Camera::default();
    let raw = cam.raw(&Orientation::identity());
    for c in 0..4 {
        for r in 0..4 {
            let expected = if c == r { SCALE_CUBE } else { 0 };
            assert_eq!(raw.rotation_mat[c][r], expected);
        }
    }
    assert_eq!(raw.position, [0, 0, 0, 0]);
}

#[test]
fn position_is_embedded_with_a_zero_fourth_component() {
    let mut cam = Camera::default();
    cam.position = Vec3 { x: 1_000_000, y: -2_000_000, z: 3_000_000 };
    let raw = cam.raw(&Orientation::identity());
    assert_eq!(raw.position, [1_000_000, -2_000_000, 3_000_000, 0]);
}

#[test]
fn encode_then_decode_reproduces_the_camera() {
    // A roll-free orientation: a 3-4-5 pitch pair and a 3-4-5 yaw pair,
    // exactly on the fixed-point circle.
    let mut cam = Camera::default();
    cam.position = Vec3 { x: 7_000_000, y: 250_000, z: -3_141_592 };
    let o = Orientation {
        pitch: Rot { sin: 600_000, cos: 800_000 },
        yaw: Rot { sin: -800_000, cos: 600_000 },
        roll: Rot::identity(),
    };
    let raw = cam.raw(&o);
    let (pos, dec) = decode(&raw);
    assert_eq!(pos, cam.position);
    assert_eq!(dec.pitch, o.pitch);
    assert_eq!(dec.yaw, o.yaw);
    assert_eq!(dec.roll, o.roll);
}

#[test]
fn decode_reads_the_expected_matrix_cells() {
    // The same pairs, checked against the raw entries a roll-free
    // composition writes: R20 = -sin(yaw), R00 = cos(yaw), R12 = -sin(pitch),
    // R11 = cos(pitch), each at weight SCALE squared.
    let cam = Camera::default();
    let o = Orientation {
        pitch: Rot { sin: -600_000, cos: 800_000 },
        yaw: Rot { sin: 280_000, cos: 960_000 },
        roll: Rot::identity(),
    };
    let raw = cam.raw(&o);
    assert_eq!(raw.rotation_mat[0][2], -280_000 * 1_000_000_000_000);
    assert_eq!(raw.rotation_mat[0][0], 960_000 * 1_000_000_000_000);
    assert_eq!(raw.rotation_mat[2][1], 600_000 * 1_000_000_000_000);
    assert_eq!(raw.rotation_mat[1][1], 800_000 * 1_000_000_000_000);
}
