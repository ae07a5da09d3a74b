//! The input the windowing collaborator delivers between frames: key-state
//! transitions for the four movement keys and accumulated pointer deltas.

use vstd::prelude::*;

verus! {

/// State of one key in a keyboard event.
#[derive(Clone, Copy, PartialEq, Eq, Structural, Debug)]
pub enum KeyState {
    Pressed,
    Released,
}

/// Whether a key-state transition leaves the key held down.
pub fn is_pressed(state: KeyState) -> (r: bool)
    ensures
        r <==> state == KeyState::Pressed,
{
    match state {
        KeyState::Pressed => true,
        KeyState::Released => false,
    }
}

/// The four movement keys.
#[derive(Clone, Copy, PartialEq, Eq, Structural, Debug)]
pub enum MoveKey {
    Forward,
    Backward,
    Left,
    Right,
}

/// Held movement keys and the pointer motion gathered since the last frame.
/// Pointer deltas are plain counts (pixels), not fixed-point scalars.
#[derive(Clone, Copy, PartialEq, Eq, Structural, Debug)]
pub struct InputState {
    pub forward: bool,
    pub backward: bool,
    pub left: bool,
    pub right: bool,
    pub pointer_dx: i64,
    pub pointer_dy: i64,
}

impl InputState {
    /// No key held, no pointer motion.
    pub fn new() -> (s: InputState)
        ensures
            s == (InputState {
                forward: false,
                backward: false,
                left: false,
                right: false,
                pointer_dx: 0i64,
                pointer_dy: 0i64,
            }),
    {
        InputState {
            forward: false,
            backward: false,
            left: false,
            right: false,
            pointer_dx: 0,
            pointer_dy: 0,
        }
    }

    /// Record a key-state transition for one movement key.
    pub fn apply_key(&mut self, key: MoveKey, state: KeyState)
        ensures
            final(self).forward == (if key == MoveKey::Forward {
                state == KeyState::Pressed
            } else {
                old(self).forward
            }),
            final(self).backward == (if key == MoveKey::Backward {
                state == KeyState::Pressed
            } else {
                old(self).backward
            }),
            final(self).left == (if key == MoveKey::Left {
                state == KeyState::Pressed
            } else {
                old(self).left
            }),
            final(self).right == (if key == MoveKey::Right {
                state == KeyState::Pressed
            } else {
                old(self).right
            }),
            final(self).pointer_dx == old(self).pointer_dx,
            final(self).pointer_dy == old(self).pointer_dy,
    {
        let held = is_pressed(state);
        match key {
            MoveKey::Forward => self.forward = held,
            MoveKey::Backward => self.backward = held,
            MoveKey::Left => self.left = held,
            MoveKey::Right => self.right = held,
        }
    }

    /// Add one pointer-motion event to the frame's accumulated delta.
    pub fn apply_pointer(&mut self, dx: i64, dy: i64)
        requires
            i64::MIN <= old(self).pointer_dx + dx <= i64::MAX,
            i64::MIN <= old(self).pointer_dy + dy <= i64::MAX,
        ensures
            final(self).pointer_dx == old(self).pointer_dx + dx,
            final(self).pointer_dy == old(self).pointer_dy + dy,
            final(self).forward == old(self).forward,
            final(self).backward == old(self).backward,
            final(self).left == old(self).left,
            final(self).right == old(self).right,
    {
        self.pointer_dx = self.pointer_dx + dx;
        self.pointer_dy = self.pointer_dy + dy;
    }

    /// Clear the pointer delta once a frame has consumed it.
    pub fn clear_pointer(&mut self)
        ensures
            final(self).pointer_dx == 0,
            final(self).pointer_dy == 0,
            final(self).forward == old(self).forward,
            final(self).backward == old(self).backward,
            final(self).left == old(self).left,
            final(self).right == old(self).right,
    {
        self.pointer_dx = 0;
        self.pointer_dy = 0;
    }
}

} // verus!
