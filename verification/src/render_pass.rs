//! Render passes: per-pass resource access declarations and the cache
//! that the manager computes from them (framebuffer, render-pass
//! description, pass info, clear values).

use vstd::prelude::*;
use crate::access_type::AccessType;
use crate::keys::{FramebufferKey, GraphResourceKey};

verus! {

/// What happens to an attachment's contents when a pass starts.
#[derive(Debug, Clone, Copy, PartialEq, Eq, Hash, Structural)]
pub enum LoadOp {
    /// Keep the previous contents.
    Load,
    /// Clear to the clear value.
    Clear,
    /// Contents are undefined.
    DontCare,
}

/// What happens to an attachment's contents when a pass ends.
#[derive(Debug, Clone, Copy, PartialEq, Eq, Hash, Structural)]
pub enum StoreOp {
    /// Write the results back.
    Store,
    /// Results may be discarded.
    DontCare,
}

/// An RGBA clear color, each channel the bit pattern of an `f32`.
#[derive(Debug, Clone, Copy, PartialEq, Eq, Hash, Structural)]
pub struct ClearColor {
    pub r: u32,
    pub g: u32,
    pub b: u32,
    pub a: u32,
}

/// Per-attachment load/store/clear configuration of an access.
///
/// Clear values are carried as the bit patterns of the `f32` values the
/// backend receives (`f32::to_bits`); the render graph only forwards them.
#[derive(Debug, Clone, Copy, PartialEq, Eq, Structural)]
pub enum TargetOps {
    /// Configuration of a color attachment.
    Color {
        /// Clear color (RGBA), as `f32` bit patterns.
        clear_color: ClearColor,
        load_op: LoadOp,
        store_op: StoreOp,
        /// Optional MSAA resolve target: a single-sampled texture graph
        /// resource of the same format.
        resolve_target: Option<GraphResourceKey>,
    },
    /// Configuration of a depth/stencil attachment.
    DepthStencil {
        /// Depth clear value, as an `f32` bit pattern.
        depth_clear: u32,
        stencil_clear: u32,
        depth_load_op: LoadOp,
        depth_store_op: StoreOp,
        stencil_load_op: LoadOp,
        stencil_store_op: StoreOp,
    },
}

/// Per-resource access declaration of a pass.
#[derive(Debug, Clone, Copy, PartialEq, Eq, Structural)]
pub struct ResourceAccess {
    /// Graph resource accessed.
    pub graph_resource_key: GraphResourceKey,
    /// How the pass uses it.
    pub access_type: AccessType,
    /// Attachment ops: `Some` for color and depth/stencil attachments.
    pub target_ops: Option<TargetOps>,
}

/// Clear value of an attachment, as `f32` bit patterns.
#[derive(Debug, Clone, Copy, PartialEq, Eq, Structural)]
pub enum ClearValue {
    Color(ClearColor),
    DepthStencil { depth: u32, stencil: u32 },
}

/// Description of one attachment of a backend render pass.
#[derive(Debug, Clone, Copy, PartialEq, Eq, Structural)]
pub struct AttachmentDesc {
    pub format: u32,
    pub samples: u32,
    pub load_op: LoadOp,
    pub store_op: StoreOp,
    pub stencil_load_op: LoadOp,
    pub stencil_store_op: StoreOp,
}

/// Description of a backend render pass.
#[derive(Debug, Clone)]
pub struct RenderPassDesc {
    pub color_attachments: Vec<AttachmentDesc>,
    pub depth_stencil_attachment: Option<AttachmentDesc>,
    pub color_resolve_attachments: Vec<AttachmentDesc>,
}

/// Attachment formats and sample count of a pass, with a generation that
/// grows whenever they change.
#[derive(Debug, Clone)]
pub struct PassInfo {
    pub color_formats: Vec<u32>,
    pub depth_format: Option<u32>,
    pub sample_count: u32,
    pub generation: u64,
}

/// The cache a pass carries, rebuilt by the manager after every change of
/// its accesses.
#[derive(Debug, Clone)]
pub struct PassCache {
    pub framebuffer_key: Option<FramebufferKey>,
    pub pass_info: Option<PassInfo>,
    pub render_pass_desc: Option<RenderPassDesc>,
    pub clear_values: Vec<ClearValue>,
}

/// A node of a render graph: its name, its accesses, and the cache built
/// from them.
pub struct RenderPass {
    name: String,
    accesses: Vec<ResourceAccess>,
    cache: PassCache,
}

impl RenderPass {
    /// Name of the pass.
    pub closed spec fn spec_name(&self) -> Seq<char> {
        self.name@
    }

    /// Access declarations.
    pub closed spec fn spec_accesses(&self) -> Seq<ResourceAccess> {
        self.accesses@
    }

    /// Cache built from the accesses.
    pub closed spec fn spec_cache(&self) -> PassCache {
        self.cache
    }

    /// A pass with its ready-built cache.
    pub fn new(name: String, accesses: Vec<ResourceAccess>, cache: PassCache) -> (p: Self)
        ensures
            p.spec_name() == name@,
            p.spec_accesses() == accesses@,
            p.spec_cache() == cache,
    {
        RenderPass { name, accesses, cache }
    }

    /// Name of the pass.
    pub fn name(&self) -> (s: &String)
        ensures
            s@ == self.spec_name(),
    {
        &self.name
    }

    /// Access declarations, in declaration order.
    pub fn accesses(&self) -> (s: &[ResourceAccess])
        ensures
            s@ == self.spec_accesses(),
    {
        self.accesses.as_slice()
    }

    /// Pass info (formats and sample count); `None` for passes without
    /// attachments.
    pub fn pass_info(&self) -> (r: Option<&PassInfo>)
        ensures
            r matches Some(i) ==> self.spec_cache().pass_info == Some(*i),
            r is None <==> self.spec_cache().pass_info is None,
    {
        match &self.cache.pass_info {
            Some(i) => Some(i),
            None => None,
        }
    }

    /// Framebuffer the pass renders into; `None` for passes without
    /// attachments.
    pub fn framebuffer_key(&self) -> (r: Option<FramebufferKey>)
        ensures
            r == self.spec_cache().framebuffer_key,
    {
        self.cache.framebuffer_key
    }

    /// Backend render-pass description; `None` without attachments.
    pub fn render_pass_desc(&self) -> (r: Option<&RenderPassDesc>)
        ensures
            r matches Some(d) ==> self.spec_cache().render_pass_desc == Some(*d),
            r is None <==> self.spec_cache().render_pass_desc is None,
    {
        match &self.cache.render_pass_desc {
            Some(d) => Some(d),
            None => None,
        }
    }

    /// Clear values, colors first then depth/stencil.
    pub fn clear_values(&self) -> (s: &[ClearValue])
        ensures
            s@ == self.spec_cache().clear_values@,
    {
        self.cache.clear_values.as_slice()
    }
    /// Replace every access; the cache is kept.
    pub fn replace_accesses(&mut self, new_accesses: Vec<ResourceAccess>)
        ensures
            final(self).spec_accesses() == new_accesses@,
            final(self).spec_name() == old(self).spec_name(),
            final(self).spec_cache() == old(self).spec_cache(),
    {
        self.accesses = new_accesses;
    }

    /// Replace the cache; name and accesses are kept.
    pub fn set_cache(&mut self, cache: PassCache)
        ensures
            final(self).spec_cache() == cache,
            final(self).spec_name() == old(self).spec_name(),
            final(self).spec_accesses() == old(self).spec_accesses(),
    {
        self.cache = cache;
    }
}

} // verus!
