//! The scene: spheres and their fixed-layout, GPU-readable encoding.

use vstd::prelude::*;

verus! {

use crate::fx::COORD_MAX;
use crate::math::Vec3;
use crate::math::in_coords;

/// Scalars per encoded sphere: a position triplet and the radius, tightly
/// packed, so the encoded stride is exactly four scalars (16 bytes once
/// each becomes a 4-byte float at the upload boundary).
pub const SPHERE_STRIDE: usize = 4;

/// One sphere of the scene: a center and a non-negative radius.
#[derive(Clone, Copy, PartialEq, Eq, Structural, Debug)]
pub struct Sphere {
    pub pos: Vec3,
    pub radius: i64,
}

/// The well-formedness every scene sphere keeps: a non-negative radius and
/// coordinates the intersection math accepts.
pub open spec fn sphere_wf(s: Sphere) -> bool {
    &&& 0 <= s.radius <= COORD_MAX
    &&& in_coords(s.pos)
}

/// A sphere in the exact shape the GPU reads: position triplet, then
/// radius, no padding.
#[derive(Clone, Copy, Debug)]
pub struct RawSphere {
    pub pos: [i64; 3],
    pub radius: i64,
}

impl Sphere {
    pub fn new(pos: Vec3, radius: i64) -> (s: Sphere)
        requires
            0 <= radius <= COORD_MAX,
            in_coords(pos),
        ensures
            s == (Sphere { pos, radius }),
    {
        Sphere { radius, pos }
    }

    /// The GPU-layout value of this sphere.
    pub fn raw(self) -> (r: RawSphere)
        ensures
            r.pos[0] == self.pos.x,
            r.pos[1] == self.pos.y,
            r.pos[2] == self.pos.z,
            r.radius == self.radius,
    {
        RawSphere { radius: self.radius, pos: [self.pos.x, self.pos.y, self.pos.z] }
    }

    /// The axis-aligned box enclosing this sphere: the corner past the
    /// center by the radius in every axis, and the one short of it.
    pub fn bounds(&self) -> (b: (Vec3, Vec3))
        requires
            sphere_wf(*self),
        ensures
            b.0.x == self.pos.x + self.radius,
            b.0.y == self.pos.y + self.radius,
            b.0.z == self.pos.z + self.radius,
            b.1.x == self.pos.x - self.radius,
            b.1.y == self.pos.y - self.radius,
            b.1.z == self.pos.z - self.radius,
    {
        let r = Vec3 { x: self.radius, y: self.radius, z: self.radius };
        (r.plus(self.pos), Vec3 { x: -self.radius, y: -self.radius, z: -self.radius }.plus(
            self.pos,
        ))
    }
}

/// The scene handed to the GPU: an ordered, immutable list of spheres.
pub struct SceneBuffer {
    spheres: Vec<Sphere>,
}

impl SceneBuffer {
    /// The spheres, in order.
    pub closed spec fn view(&self) -> Seq<Sphere> {
        self.spheres@
    }

    /// Every sphere of the scene is well-formed.
    pub open spec fn wf(&self) -> bool {
        forall|i: int| 0 <= i < self@.len() ==> sphere_wf(#[trigger] self@[i])
    }

    /// Build a scene from a sphere list. An empty list is refused — no
    /// valid scene is silently substituted for it.
    pub fn new(spheres: Vec<Sphere>) -> (res: Option<SceneBuffer>)
        requires
            forall|i: int| 0 <= i < spheres@.len() ==> sphere_wf(#[trigger] spheres@[i]),
        ensures
            res.is_some() <==> spheres@.len() > 0,
            res matches Some(s) ==> s@ == spheres@ && s.wf(),
    {
        if spheres.len() == 0 {
            None
        } else {
            Some(SceneBuffer { spheres })
        }
    }

    pub fn len(&self) -> (n: usize)
        ensures
            n == self@.len(),
    {
        self.spheres.len()
    }

    /// The sphere at `i`.
    pub fn get(&self, i: usize) -> (s: Sphere)
        requires
            i < self@.len(),
        ensures
            s == self@[i as int],
    {
        self.spheres[i]
    }

    /// The byte-layout encoding the GPU reads: for each sphere, in order,
    /// its three position coordinates and then its radius — a fixed stride
    /// of four scalars per sphere, tightly packed.
    pub fn encode(&self) -> (enc: Vec<i64>)
        ensures
            enc@.len() == SPHERE_STRIDE * self@.len(),
            forall|i: int|
                0 <= i < self@.len() ==> {
                    &&& enc@[4 * i] == (#[trigger] self@[i]).pos.x
                    &&& enc@[4 * i + 1] == self@[i].pos.y
                    &&& enc@[4 * i + 2] == self@[i].pos.z
                    &&& enc@[4 * i + 3] == self@[i].radius
                },
    {
        let mut enc: Vec<i64> = Vec::new();
        let n = self.spheres.len();
        let mut k: usize = 0;
        while k < n
            invariant
                k <= n,
                n == self@.len(),
                enc@.len() == 4 * k,
                forall|i: int|
                    0 <= i < k ==> {
                        &&& enc@[4 * i] == (#[trigger] self@[i]).pos.x
                        &&& enc@[4 * i + 1] == self@[i].pos.y
                        &&& enc@[4 * i + 2] == self@[i].pos.z
                        &&& enc@[4 * i + 3] == self@[i].radius
                    },
            decreases n - k,
        {
            let s = self.spheres[k];
            enc.push(s.pos.x);
            enc.push(s.pos.y);
            enc.push(s.pos.z);
            enc.push(s.radius);
            k = k + 1;
        }
        enc
    }
}

} // verus!
