//! The shape of the GPU resource set: which descriptor bindings the kernel
//! expects, and the dispatch grid that covers the viewport. The device
//! objects themselves live with the GPU collaborator; what is fixed here is
//! the wiring it must reproduce.

use vstd::prelude::*;

verus! {

use crate::constants::RendererConstants;

/// The kind of resource a binding carries.
#[derive(Clone, Copy, PartialEq, Eq, Structural, Debug)]
pub enum DescriptorKind {
    /// A writable storage image.
    StorageImage,
    /// A read-only uniform buffer.
    UniformBuffer,
}

/// One binding of the kernel's descriptor set.
#[derive(Clone, Copy, PartialEq, Eq, Structural, Debug)]
pub struct DescriptorBinding {
    pub binding: u32,
    pub kind: DescriptorKind,
    /// Visible to the compute stage only.
    pub compute_only: bool,
}

/// The kernel's descriptor set: binding 0 the output image (written),
/// binding 1 the frame constants, binding 2 the scene buffer (both read),
/// all visible to the compute stage only.
pub fn descriptor_bindings() -> (b: Vec<DescriptorBinding>)
    ensures
        b@.len() == 3,
        b@[0] == (DescriptorBinding {
            binding: 0u32,
            kind: DescriptorKind::StorageImage,
            compute_only: true,
        }),
        b@[1] == (DescriptorBinding {
            binding: 1u32,
            kind: DescriptorKind::UniformBuffer,
            compute_only: true,
        }),
        b@[2] == (DescriptorBinding {
            binding: 2u32,
            kind: DescriptorKind::UniformBuffer,
            compute_only: true,
        }),
{
    let mut b: Vec<DescriptorBinding> = Vec::new();
    b.push(DescriptorBinding { binding: 0, kind: DescriptorKind::StorageImage, compute_only: true });
    b.push(
        DescriptorBinding { binding: 1, kind: DescriptorKind::UniformBuffer, compute_only: true },
    );
    b.push(
        DescriptorBinding { binding: 2, kind: DescriptorKind::UniformBuffer, compute_only: true },
    );
    b
}

/// The dispatch grid of one frame: one invocation per pixel, over the full
/// viewport, depth one.
pub fn dispatch_size(c: &RendererConstants) -> (g: [u32; 3])
    ensures
        g[0] == c.width,
        g[1] == c.height,
        g[2] == 1,
{
    [c.width, c.height, 1]
}

} // verus!
