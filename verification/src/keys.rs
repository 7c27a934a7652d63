//! Stable keys for the objects that the engine's collections hold.
//!
//! A key is the 64-bit form of a slot-map key: the slot index in its low
//! 32 bits and the slot's version in its high 32 bits. The default key is
//! the null key (index `u32::MAX`, version 1), which no collection ever
//! hands out.

use vstd::prelude::*;

verus! {

/// The 64-bit form of the null slot-map key.
pub const NULL_KEY_BITS: u64 = 0x1_FFFF_FFFFu64;

/// Key of a texture in the resource manager.
#[derive(Debug, Clone, Copy, PartialEq, Eq, Hash, Structural)]
pub struct TextureKey {
    pub bits: u64,
}

/// Key of a buffer in the resource manager.
#[derive(Debug, Clone, Copy, PartialEq, Eq, Hash, Structural)]
pub struct BufferKey {
    pub bits: u64,
}

/// Key of a graph resource in the render graph manager.
#[derive(Debug, Clone, Copy, PartialEq, Eq, Hash, Structural)]
pub struct GraphResourceKey {
    pub bits: u64,
}

/// Key of a render pass in the render graph manager.
#[derive(Debug, Clone, Copy, PartialEq, Eq, Hash, Structural)]
pub struct RenderPassKey {
    pub bits: u64,
}

/// Key of a framebuffer in the render graph manager.
#[derive(Debug, Clone, Copy, PartialEq, Eq, Hash, Structural)]
pub struct FramebufferKey {
    pub bits: u64,
}

/// Key of a render graph in the render graph manager.
#[derive(Debug, Clone, Copy, PartialEq, Eq, Hash, Structural)]
pub struct RenderGraphKey {
    pub bits: u64,
}

impl Default for TextureKey {
    fn default() -> (k: Self)
        ensures
            k.bits == NULL_KEY_BITS,
    {
        TextureKey { bits: NULL_KEY_BITS }
    }
}

impl Default for BufferKey {
    fn default() -> (k: Self)
        ensures
            k.bits == NULL_KEY_BITS,
    {
        BufferKey { bits: NULL_KEY_BITS }
    }
}

impl Default for GraphResourceKey {
    fn default() -> (k: Self)
        ensures
            k.bits == NULL_KEY_BITS,
    {
        GraphResourceKey { bits: NULL_KEY_BITS }
    }
}

impl Default for RenderPassKey {
    fn default() -> (k: Self)
        ensures
            k.bits == NULL_KEY_BITS,
    {
        RenderPassKey { bits: NULL_KEY_BITS }
    }
}

impl Default for FramebufferKey {
    fn default() -> (k: Self)
        ensures
            k.bits == NULL_KEY_BITS,
    {
        FramebufferKey { bits: NULL_KEY_BITS }
    }
}

impl Default for RenderGraphKey {
    fn default() -> (k: Self)
        ensures
            k.bits == NULL_KEY_BITS,
    {
        RenderGraphKey { bits: NULL_KEY_BITS }
    }
}

} // verus!
