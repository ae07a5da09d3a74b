//! Per-frame scalar parameters of the renderer, fixed at setup: viewport
//! size, aspect ratio and depth range, plus the specialization layout under
//! which the kernel receives them.

use vstd::prelude::*;

verus! {

use crate::fx::SCALE;
use crate::fx::COORD_MAX;

/// Largest accepted viewport side.
pub const DIM_LIMIT: u32 = 4096;

/// Byte size of the encoded camera block the kernel receives as a push
/// constant: a 4-float position (16 bytes) and a 4×4 float matrix
/// (64 bytes).
pub const RAW_CAMERA_BYTES: u32 = 80;

/// The scalar constants the kernel is specialized with.
#[derive(Clone, Copy, PartialEq, Eq, Structural, Debug)]
pub struct RendererConstants {
    /// `width / height`, fixed point.
    pub aspect_ratio: i64,
    pub width: u32,
    pub height: u32,
    /// Depth range, fixed point; hits outside it are discarded.
    pub min_depth: i64,
    pub max_depth: i64,
}

/// One entry of the specialization layout: a constant's id, and its byte
/// offset and size within the block.
#[derive(Clone, Copy, PartialEq, Eq, Structural, Debug)]
pub struct SpecConstant {
    pub constant_id: u32,
    pub offset: u32,
    pub size: u32,
}

impl RendererConstants {
    /// The invariant fixed at construction: a non-empty viewport within
    /// the size limit, the aspect ratio derived from it, and an ordered,
    /// in-range depth interval.
    pub open spec fn wf(&self) -> bool {
        &&& 0 < self.width <= DIM_LIMIT
        &&& 0 < self.height <= DIM_LIMIT
        &&& 8 * self.width >= self.height
        &&& self.aspect_ratio == self.width * SCALE / self.height as int
        &&& 125_000 <= self.aspect_ratio <= 4_096_000_000
        &&& 0 <= self.min_depth < self.max_depth <= COORD_MAX
    }

    /// Build the frame constants for a viewport and depth range; inputs
    /// that would break the invariant are refused. (A viewport more than
    /// eight times taller than wide is refused with them: its image plane
    /// would outgrow the coordinate range.)
    pub fn new(width: u32, height: u32, min_depth: i64, max_depth: i64) -> (res: Option<
        RendererConstants,
    >)
        ensures
            res.is_some() <==> (0 < width <= DIM_LIMIT && 0 < height <= DIM_LIMIT && 8 * width
                >= height && 0 <= min_depth < max_depth <= COORD_MAX),
            res matches Some(c) ==> {
                &&& c.width == width
                &&& c.height == height
                &&& c.min_depth == min_depth
                &&& c.max_depth == max_depth
                &&& c.wf()
            },
    {
        if width == 0 || width > DIM_LIMIT || height == 0 || height > DIM_LIMIT {
            None
        } else if (width as u64) * 8 < (height as u64) {
            None
        } else if min_depth < 0 || min_depth >= max_depth || max_depth > COORD_MAX {
            None
        } else {
            let aspect = (((width as u64) * 1_000_000) / (height as u64)) as i64;
            proof {
                vstd::arithmetic::div_mod::lemma_div_is_ordered(
                    125_000 * height as int,
                    width as int * SCALE,
                    height as int,
                );
                vstd::arithmetic::div_mod::lemma_div_multiples_vanish(125_000, height as int);
                vstd::arithmetic::div_mod::lemma_div_is_ordered(
                    width as int * SCALE,
                    4_096_000_000 * height as int,
                    height as int,
                );
                vstd::arithmetic::div_mod::lemma_div_multiples_vanish(
                    4_096_000_000,
                    height as int,
                );
                assert(125_000 * height as int <= width as int * SCALE);
                assert(width as int * SCALE <= 4_096_000_000 * height as int);
            }
            Some(RendererConstants { aspect_ratio: aspect, width, height, min_depth, max_depth })
        }
    }

    /// The layout under which the five constants reach the kernel: ids in
    /// order, 4-byte fields, contiguous from offset 0.
    pub fn descriptors() -> (d: Vec<SpecConstant>)
        ensures
            d@.len() == 5,
            forall|i: int|
                0 <= i < 5 ==> {
                    &&& (#[trigger] d@[i]).constant_id == i
                    &&& d@[i].offset == 4 * i
                    &&& d@[i].size == 4
                },
    {
        let mut d: Vec<SpecConstant> = Vec::new();
        d.push(SpecConstant { constant_id: 0, offset: 0, size: 4 });
        d.push(SpecConstant { constant_id: 1, offset: 4, size: 4 });
        d.push(SpecConstant { constant_id: 2, offset: 8, size: 4 });
        d.push(SpecConstant { constant_id: 3, offset: 12, size: 4 });
        d.push(SpecConstant { constant_id: 4, offset: 16, size: 4 });
        d
    }
}

} // verus!
