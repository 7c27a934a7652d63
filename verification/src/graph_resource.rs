//! Render graph resources: typed references to a texture view or a buffer
//! byte range, plus the sub-range overlap tests that drive dependency and
//! barrier computation.

use vstd::prelude::*;
use crate::keys::{BufferKey, TextureKey};

verus! {

/// Sentinel `mip_count`: all remaining mips from the base level.
pub const REMAINING_MIP_LEVELS: u32 = 0xFFFF_FFFFu32;

/// Sentinel `layer_count`: all remaining layers from the base layer.
pub const REMAINING_ARRAY_LAYERS: u32 = 0xFFFF_FFFFu32;

/// Sentinel buffer `size`: from the offset to the end of the buffer.
pub const WHOLE_SIZE: u64 = 0xFFFF_FFFF_FFFF_FFFFu64;

/// Exclusive end of a `u32` range starting at `base` with `count` items:
/// the sentinel count reaches the top of the domain, otherwise the sum is
/// clamped to the top of the domain.
pub open spec fn range_end_u32(base: u32, count: u32) -> int {
    if count == 0xFFFF_FFFFu32 || base + count > 0xFFFF_FFFFu32 {
        0xFFFF_FFFFu32 as int
    } else {
        base + count
    }
}

/// Exclusive end of a `u64` byte range, as `range_end_u32` for `u64`.
pub open spec fn range_end_u64(base: u64, count: u64) -> int {
    if count == 0xFFFF_FFFF_FFFF_FFFFu64 || base + count > 0xFFFF_FFFF_FFFF_FFFFu64 {
        0xFFFF_FFFF_FFFF_FFFFu64 as int
    } else {
        base + count
    }
}

/// Two half-open intervals `[a_base, a_end)` and `[b_base, b_end)` meet.
pub open spec fn intervals_meet(a_base: int, a_end: int, b_base: int, b_end: int) -> bool {
    a_base < b_end && b_base < a_end
}

/// View into a texture's mip / layer subresources.
#[derive(Debug, Clone, Copy, PartialEq, Eq, Hash, Structural)]
pub struct ImageSubRange {
    pub base_mip_level: u32,
    pub mip_count: u32,
    pub base_array_layer: u32,
    pub layer_count: u32,
}

impl ImageSubRange {
    /// The two ranges share at least one (mip, layer) subresource.
    pub open spec fn spec_overlaps(self, other: ImageSubRange) -> bool {
        &&& intervals_meet(
            self.base_mip_level as int,
            range_end_u32(self.base_mip_level, self.mip_count),
            other.base_mip_level as int,
            range_end_u32(other.base_mip_level, other.mip_count),
        )
        &&& intervals_meet(
            self.base_array_layer as int,
            range_end_u32(self.base_array_layer, self.layer_count),
            other.base_array_layer as int,
            range_end_u32(other.base_array_layer, other.layer_count),
        )
    }

    /// The range covers at least one subresource.
    pub open spec fn spec_is_nonempty(self) -> bool {
        &&& (self.base_mip_level as int) < range_end_u32(self.base_mip_level, self.mip_count)
        &&& (self.base_array_layer as int) < range_end_u32(self.base_array_layer, self.layer_count)
    }

    /// Test whether two ranges overlap on both the mip and the layer axis.
    /// The `REMAINING_*` sentinels extend a range to the top of the axis;
    /// other sums saturate.
    pub fn overlaps(&self, other: &ImageSubRange) -> (r: bool)
        ensures
            r == self.spec_overlaps(*other),
    {
        let a_mip_end = if self.mip_count == REMAINING_MIP_LEVELS {
            0xFFFF_FFFFu32
        } else {
            self.base_mip_level.saturating_add(self.mip_count)
        };
        let b_mip_end = if other.mip_count == REMAINING_MIP_LEVELS {
            0xFFFF_FFFFu32
        } else {
            other.base_mip_level.saturating_add(other.mip_count)
        };
        let mips_overlap = self.base_mip_level < b_mip_end && other.base_mip_level < a_mip_end;

        let a_layer_end = if self.layer_count == REMAINING_ARRAY_LAYERS {
            0xFFFF_FFFFu32
        } else {
            self.base_array_layer.saturating_add(self.layer_count)
        };
        let b_layer_end = if other.layer_count == REMAINING_ARRAY_LAYERS {
            0xFFFF_FFFFu32
        } else {
            other.base_array_layer.saturating_add(other.layer_count)
        };
        let layers_overlap = self.base_array_layer < b_layer_end
            && other.base_array_layer < a_layer_end;

        mips_overlap && layers_overlap
    }
}

/// View into a buffer's byte subrange.
#[derive(Debug, Clone, Copy, PartialEq, Eq, Hash, Structural)]
pub struct BufferSubRange {
    pub offset: u64,
    pub size: u64,
}

impl BufferSubRange {
    /// The two byte ranges share at least one byte.
    pub open spec fn spec_overlaps(self, other: BufferSubRange) -> bool {
        intervals_meet(
            self.offset as int,
            range_end_u64(self.offset, self.size),
            other.offset as int,
            range_end_u64(other.offset, other.size),
        )
    }

    /// The range covers at least one byte.
    pub open spec fn spec_is_nonempty(self) -> bool {
        (self.offset as int) < range_end_u64(self.offset, self.size)
    }

    /// Test whether two byte ranges overlap. `WHOLE_SIZE` extends a range
    /// to the end of the buffer; other sums saturate.
    pub fn overlaps(&self, other: &BufferSubRange) -> (r: bool)
        ensures
            r == self.spec_overlaps(*other),
    {
        let a_end = if self.size == WHOLE_SIZE {
            0xFFFF_FFFF_FFFF_FFFFu64
        } else {
            self.offset.saturating_add(self.size)
        };
        let b_end = if other.size == WHOLE_SIZE {
            0xFFFF_FFFF_FFFF_FFFFu64
        } else {
            other.offset.saturating_add(other.size)
        };
        self.offset < b_end && other.offset < a_end
    }
}

/// Overlap is symmetric: whether two image ranges share a subresource does
/// not depend on which one is asked.
pub proof fn lemma_image_overlap_symmetric(a: ImageSubRange, b: ImageSubRange)
    ensures
        a.spec_overlaps(b) == b.spec_overlaps(a),
{
}

/// Overlap is symmetric for buffer byte ranges.
pub proof fn lemma_buffer_overlap_symmetric(a: BufferSubRange, b: BufferSubRange)
    ensures
        a.spec_overlaps(b) == b.spec_overlaps(a),
{
}

/// A non-empty image range overlaps itself.
pub proof fn lemma_image_overlap_reflexive(a: ImageSubRange)
    requires
        a.spec_is_nonempty(),
    ensures
        a.spec_overlaps(a),
{
}

/// A non-empty byte range overlaps itself.
pub proof fn lemma_buffer_overlap_reflexive(a: BufferSubRange)
    requires
        a.spec_is_nonempty(),
    ensures
        a.spec_overlaps(a),
{
}

/// Typed reference to a resource used by the render graph: a texture view
/// (mip range and layer range) or a buffer byte range.
#[derive(Debug, Clone, Copy, PartialEq, Eq, Hash, Structural)]
pub enum GraphResource {
    /// A view of a texture of the resource manager.
    Texture {
        texture_key: TextureKey,
        base_mip_level: u32,
        mip_count: u32,
        base_array_layer: u32,
        layer_count: u32,
    },
    /// A byte range of a buffer of the resource manager.
    Buffer { buffer_key: BufferKey, offset: u64, size: u64 },
}

impl GraphResource {
    /// Attachment-style texture view: one mip, `layer_count` layers.
    pub fn texture_attachment(
        texture_key: TextureKey,
        mip: u32,
        base_array_layer: u32,
        layer_count: u32,
    ) -> (r: Self)
        ensures
            r == (GraphResource::Texture {
                texture_key,
                base_mip_level: mip,
                mip_count: 1,
                base_array_layer,
                layer_count,
            }),
    {
        GraphResource::Texture {
            texture_key,
            base_mip_level: mip,
            mip_count: 1,
            base_array_layer,
            layer_count,
        }
    }

    /// Whole-texture view: every mip and every layer.
    pub fn texture_full(texture_key: TextureKey) -> (r: Self)
        ensures
            r == (GraphResource::Texture {
                texture_key,
                base_mip_level: 0,
                mip_count: REMAINING_MIP_LEVELS,
                base_array_layer: 0,
                layer_count: REMAINING_ARRAY_LAYERS,
            }),
    {
        GraphResource::Texture {
            texture_key,
            base_mip_level: 0,
            mip_count: REMAINING_MIP_LEVELS,
            base_array_layer: 0,
            layer_count: REMAINING_ARRAY_LAYERS,
        }
    }

    /// Whole-buffer range: offset 0, `WHOLE_SIZE`.
    pub fn buffer_full(buffer_key: BufferKey) -> (r: Self)
        ensures
            r == (GraphResource::Buffer { buffer_key, offset: 0, size: WHOLE_SIZE }),
    {
        GraphResource::Buffer { buffer_key, offset: 0, size: WHOLE_SIZE }
    }

    /// Buffer byte range.
    pub fn buffer_range(buffer_key: BufferKey, offset: u64, size: u64) -> (r: Self)
        ensures
            r == (GraphResource::Buffer { buffer_key, offset, size }),
    {
        GraphResource::Buffer { buffer_key, offset, size }
    }

    /// True if this resource is a texture view.
    pub fn is_texture(self) -> (r: bool)
        ensures
            r == (self is Texture),
    {
        match self {
            GraphResource::Texture { .. } => true,
            GraphResource::Buffer { .. } => false,
        }
    }

    /// True if this resource is a buffer range.
    pub fn is_buffer(self) -> (r: bool)
        ensures
            r == (self is Buffer),
    {
        match self {
            GraphResource::Texture { .. } => false,
            GraphResource::Buffer { .. } => true,
        }
    }
}

} // verus!
