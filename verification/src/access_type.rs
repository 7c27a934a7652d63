//! How a render pass uses a resource.

use vstd::prelude::*;
use crate::keys::{BufferKey, TextureKey};

verus! {

/// How a pass accesses a resource.
#[derive(Debug, Clone, Copy, PartialEq, Eq, Hash, Structural)]
pub enum AccessType {
    /// Color attachment write (render pass output)
    ColorAttachmentWrite,
    /// Color attachment read (e.g. blending with existing content)
    ColorAttachmentRead,
    /// Depth/stencil write
    DepthStencilWrite,
    /// Depth/stencil read-only (depth testing without writing)
    DepthStencilReadOnly,
    /// Fragment shader sampling
    FragmentShaderRead,
    /// Vertex shader sampling
    VertexShaderRead,
    /// Compute shader read
    ComputeRead,
    /// Compute shader write
    ComputeWrite,
    /// Transfer source
    TransferRead,
    /// Transfer destination
    TransferWrite,
    /// Ray tracing acceleration structure read
    RayTracingRead,
}

/// The access types that write to the resource.
pub open spec fn spec_is_write(a: AccessType) -> bool {
    a is ColorAttachmentWrite || a is DepthStencilWrite || a is ComputeWrite || a is TransferWrite
}

/// The access types that bind the resource as a render-pass attachment.
pub open spec fn spec_is_attachment(a: AccessType) -> bool {
    a is ColorAttachmentWrite || a is ColorAttachmentRead || a is DepthStencilWrite
        || a is DepthStencilReadOnly
}

impl AccessType {
    /// True exactly for the four writing access types.
    pub fn is_write(self) -> (r: bool)
        ensures
            r == spec_is_write(self),
    {
        match self {
            AccessType::ColorAttachmentWrite | AccessType::DepthStencilWrite
            | AccessType::ComputeWrite | AccessType::TransferWrite => true,
            _ => false,
        }
    }

    /// True exactly for color and depth/stencil attachment accesses.
    pub fn is_attachment(self) -> (r: bool)
        ensures
            r == spec_is_attachment(self),
    {
        match self {
            AccessType::ColorAttachmentWrite | AccessType::ColorAttachmentRead
            | AccessType::DepthStencilWrite | AccessType::DepthStencilReadOnly => true,
            _ => false,
        }
    }
}

/// Per-image access declaration handed to the backend when a pass
/// begins, so that it can emit layout transitions and barriers.
#[derive(Debug, Clone, Copy, PartialEq, Eq, Structural)]
pub struct ImageAccess {
    /// The texture being accessed.
    pub texture: TextureKey,
    /// How the pass accesses it.
    pub access_type: AccessType,
    /// How it was accessed before in the frame (`None` = first use).
    pub previous_access_type: Option<AccessType>,
}

/// Per-buffer access declaration handed to the backend when a pass
/// begins; the counterpart of `ImageAccess`.
#[derive(Debug, Clone, Copy, PartialEq, Eq, Structural)]
pub struct BufferAccess {
    /// The buffer being accessed.
    pub buffer: BufferKey,
    /// How the pass accesses it.
    pub access_type: AccessType,
    /// How it was accessed before in the frame (`None` = first use).
    pub previous_access_type: Option<AccessType>,
}

} // verus!
