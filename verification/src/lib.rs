//! A compute-driven ray-tracing renderer core, modelled in fixed-point
//! arithmetic so that every step — scene encoding, camera integration and
//! encoding, per-pixel ray generation, ray-sphere intersection, shading,
//! and the per-frame submission/synchronization protocol — is verified.
//!
//! Scalars are fixed-point numbers: an `i64` holding `value * SCALE`.
//! The GPU-facing glue (device handles, swapchain calls, the float
//! conversions at the upload boundary) lives outside this crate and hands
//! plain values in and out.

pub mod camera;
pub mod constants;
pub mod device;
pub mod frame;
pub mod fx;
pub mod input;
pub mod intersect;
pub mod math;
pub mod resources;
pub mod shade;
pub mod sphere;
pub mod trace;
