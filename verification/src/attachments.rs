//! What the render graph manager checks of a pass's attachments, stated
//! as functions of the graph resources and the textures they point at.
//!
//! A framebuffer is checked attachment by attachment: every color, its
//! resolve target right after it, then the depth/stencil attachment. A
//! pass is checked access by access, in declaration order. The first
//! failing check decides the error.

use vstd::prelude::*;
use vstd::arithmetic::power2::pow2;
use vstd::bits::lemma_u32_shr_is_div;
use vstd::string::*;
use crate::access_type::AccessType;
use crate::frame_buffer::{texture_lookup, ColorAttachmentSlot, FramebufferAttachment, TextureInfo};
use crate::graph_resource::GraphResource;
use crate::keys::{GraphResourceKey, TextureKey};
use crate::render_pass::{AttachmentDesc, ClearValue, LoadOp, ResourceAccess, StoreOp, TargetOps};
use crate::slots::canonical_key;
use crate::render_graph::{decimal, usize_to_decimal};

verus! {

/// Which attachment of a pass a lookup was made for.
#[derive(Debug, Clone, Copy, PartialEq, Eq, Structural)]
pub enum AttachmentRole {
    Color,
    Resolve,
    DepthStencil,
}

/// Why a graph resource key does not lead to a texture.
#[derive(Debug, Clone, Copy, PartialEq, Eq, Structural)]
pub enum LookupFailure {
    /// No graph resource is stored under the key.
    ResourceNotFound,
    /// The graph resource is a buffer range.
    NotATexture,
    /// The texture is not in the texture table.
    TextureNotFound,
}

/// Why an attachment set cannot form a framebuffer.
#[derive(Debug, Clone, Copy, PartialEq, Eq, Structural)]
pub enum FramebufferError {
    /// Some, but not all, color attachments have a resolve target.
    MixedResolves { resolves: usize, colors: usize },
    Lookup(LookupFailure),
    WidthMismatch { expected: u32, got: u32 },
    HeightMismatch { expected: u32, got: u32 },
    LayerCountMismatch { expected: u32, got: u32 },
    ResolveNotSingleSampled { got: u32 },
    ResolveSampleCountMismatch,
    SampleCountMismatch { expected: u32, got: u32 },
    /// No attachment at all.
    EmptyAttachmentSet,
}

/// Why the accesses of a pass cannot be rendered.
#[derive(Debug, Clone, Copy, PartialEq, Eq, Structural)]
pub enum PassError {
    Lookup(AttachmentRole, LookupFailure),
    SampleCountMismatch { expected: u32, found: u32 },
    ColorMissingTargetOps,
    ColorWithDepthOps,
    ResolveNotSingleSampled { got: u32 },
    ResolveFormatMismatch { resolve_format: u32, color_format: u32 },
    SecondDepthWrite,
    DepthMissingTargetOps,
    DepthWithColorOps,
    MixedResolves { resolves: usize, colors: usize },
}

/// The graph resource stored under a key, if any.
pub open spec fn resource_at(res: Map<u64, GraphResource>, key: GraphResourceKey) -> Option<GraphResource> {
    if res.contains_key(canonical_key(key.bits)) {
        Some(res[canonical_key(key.bits)])
    } else {
        None
    }
}

/// The attachment view of a texture graph resource.
pub open spec fn attachment_view(r: GraphResource) -> FramebufferAttachment {
    match r {
        GraphResource::Texture { texture_key, base_mip_level, base_array_layer, layer_count, .. } =>
            FramebufferAttachment { texture: texture_key, base_mip_level, base_array_layer, layer_count },
        GraphResource::Buffer { .. } => FramebufferAttachment {
            texture: TextureKey { bits: 0 },
            base_mip_level: 0,
            base_array_layer: 0,
            layer_count: 0,
        },
    }
}

/// The attachment a graph resource key stands for, with the properties of
/// its texture.
pub open spec fn attachment_of(
    res: Map<u64, GraphResource>,
    tex: Seq<(TextureKey, TextureInfo)>,
    key: GraphResourceKey,
) -> Result<(FramebufferAttachment, TextureInfo), LookupFailure> {
    match resource_at(res, key) {
        None => Err(LookupFailure::ResourceNotFound),
        Some(GraphResource::Buffer { .. }) => Err(LookupFailure::NotATexture),
        Some(r) => match r {
            GraphResource::Texture { texture_key, .. } => match texture_lookup(tex, texture_key) {
                None => Err(LookupFailure::TextureNotFound),
                Some(info) => Ok((attachment_view(r), info)),
            },
            GraphResource::Buffer { .. } => Err(LookupFailure::NotATexture),
        },
    }
}

/// Extent of a mip level: the base extent halved `mip` times, at least 1.
pub open spec fn mip_extent(extent: u32, mip: u32) -> u32 {
    if mip >= 32 {
        1
    } else {
        let s = extent >> mip;
        if s == 0 {
            1
        } else {
            s
        }
    }
}

/// What the framebuffer check has seen so far.
#[derive(Debug, Clone, Copy, PartialEq, Eq, Structural)]
pub struct FramebufferTracker {
    pub width: Option<u32>,
    pub height: Option<u32>,
    pub layer_count: Option<u32>,
    pub sample_count: Option<u32>,
    pub resolve_sample_count: Option<u32>,
}

/// The tracker before any attachment.
pub open spec fn empty_tracker() -> FramebufferTracker {
    FramebufferTracker {
        width: None,
        height: None,
        layer_count: None,
        sample_count: None,
        resolve_sample_count: None,
    }
}

/// A value that must agree with what was seen before, if anything was.
pub open spec fn agrees(seen: Option<u32>, v: u32) -> bool {
    seen is None || seen->0 == v
}

/// Check one attachment (`is_resolve` for a resolve target) against the
/// tracker, and fold it in.
pub open spec fn framebuffer_step(
    res: Map<u64, GraphResource>,
    tex: Seq<(TextureKey, TextureInfo)>,
    key: GraphResourceKey,
    is_resolve: bool,
    t: FramebufferTracker,
) -> Result<FramebufferTracker, FramebufferError> {
    match attachment_of(res, tex, key) {
        Err(f) => Err(FramebufferError::Lookup(f)),
        Ok((att, info)) => {
            let w = mip_extent(info.width, att.base_mip_level);
            let h = mip_extent(info.height, att.base_mip_level);
            if !agrees(t.width, w) {
                Err(FramebufferError::WidthMismatch { expected: t.width->0, got: w })
            } else if !agrees(t.height, h) {
                Err(FramebufferError::HeightMismatch { expected: t.height->0, got: h })
            } else if !agrees(t.layer_count, att.layer_count) {
                Err(
                    FramebufferError::LayerCountMismatch {
                        expected: t.layer_count->0,
                        got: att.layer_count,
                    },
                )
            } else if is_resolve {
                if info.sample_count != 1 {
                    Err(FramebufferError::ResolveNotSingleSampled { got: info.sample_count })
                } else if !agrees(t.resolve_sample_count, info.sample_count) {
                    Err(FramebufferError::ResolveSampleCountMismatch)
                } else {
                    Ok(
                        FramebufferTracker {
                            width: Some(w),
                            height: Some(h),
                            layer_count: Some(att.layer_count),
                            sample_count: t.sample_count,
                            resolve_sample_count: Some(info.sample_count),
                        },
                    )
                }
            } else if !agrees(t.sample_count, info.sample_count) {
                Err(
                    FramebufferError::SampleCountMismatch {
                        expected: t.sample_count->0,
                        got: info.sample_count,
                    },
                )
            } else {
                Ok(
                    FramebufferTracker {
                        width: Some(w),
                        height: Some(h),
                        layer_count: Some(att.layer_count),
                        sample_count: Some(info.sample_count),
                        resolve_sample_count: t.resolve_sample_count,
                    },
                )
            }
        },
    }
}

/// Check a sequence of attachments (key, is_resolve) in order.
pub open spec fn framebuffer_fold(
    res: Map<u64, GraphResource>,
    tex: Seq<(TextureKey, TextureInfo)>,
    items: Seq<(GraphResourceKey, bool)>,
) -> Result<FramebufferTracker, FramebufferError>
    decreases items.len(),
{
    if items.len() == 0 {
        Ok(empty_tracker())
    } else {
        match framebuffer_fold(res, tex, items.drop_last()) {
            Err(e) => Err(e),
            Ok(t) => framebuffer_step(res, tex, items.last().0, items.last().1, t),
        }
    }
}

/// The attachments one color slot contributes: the color, then its
/// resolve target.
pub open spec fn slot_item(s: ColorAttachmentSlot) -> Seq<(GraphResourceKey, bool)> {
    match s.resolve {
        None => seq![(s.color, false)],
        Some(r) => seq![(s.color, false), (r, true)],
    }
}

/// The attachments of a list of color slots, in order.
pub open spec fn slot_items(slots: Seq<ColorAttachmentSlot>) -> Seq<(GraphResourceKey, bool)>
    decreases slots.len(),
{
    if slots.len() == 0 {
        Seq::empty()
    } else {
        slot_items(slots.drop_last()) + slot_item(slots.last())
    }
}

/// Every attachment of a framebuffer, in the order it is checked.
pub open spec fn framebuffer_items(
    slots: Seq<ColorAttachmentSlot>,
    depth: Option<GraphResourceKey>,
) -> Seq<(GraphResourceKey, bool)> {
    match depth {
        None => slot_items(slots),
        Some(d) => slot_items(slots).push((d, false)),
    }
}

/// Number of color slots with a resolve target.
pub open spec fn resolve_count(slots: Seq<ColorAttachmentSlot>) -> nat
    decreases slots.len(),
{
    if slots.len() == 0 {
        0
    } else {
        resolve_count(slots.drop_last()) + if slots.last().resolve is Some {
            1nat
        } else {
            0nat
        }
    }
}

/// The first reason why an attachment set cannot form a framebuffer, or
/// `None` when it can.
pub open spec fn framebuffer_check(
    res: Map<u64, GraphResource>,
    tex: Seq<(TextureKey, TextureInfo)>,
    slots: Seq<ColorAttachmentSlot>,
    depth: Option<GraphResourceKey>,
) -> Option<FramebufferError> {
    let n = resolve_count(slots);
    if n != 0 && n != slots.len() {
        Some(FramebufferError::MixedResolves { resolves: n as usize, colors: slots.len() as usize })
    } else {
        match framebuffer_fold(res, tex, framebuffer_items(slots, depth)) {
            Err(e) => Some(e),
            Ok(t) => if t.width is None {
                Some(FramebufferError::EmptyAttachmentSet)
            } else {
                None
            },
        }
    }
}

/// Resolve targets of a list of color slots, as attachments, in order.
pub open spec fn resolve_attachments(
    res: Map<u64, GraphResource>,
    slots: Seq<ColorAttachmentSlot>,
) -> Seq<FramebufferAttachment>
    decreases slots.len(),
{
    if slots.len() == 0 {
        Seq::empty()
    } else {
        let prefix = resolve_attachments(res, slots.drop_last());
        match slots.last().resolve {
            Some(r) => prefix.push(attachment_view(res[canonical_key(r.bits)])),
            None => prefix,
        }
    }
}

/// Color attachments of a list of color slots, in order.
pub open spec fn color_attachments_of(
    res: Map<u64, GraphResource>,
    slots: Seq<ColorAttachmentSlot>,
) -> Seq<FramebufferAttachment> {
    slots.map_values(|s: ColorAttachmentSlot| attachment_view(res[canonical_key(s.color.bits)]))
}

// ===== Passes =====

/// What the walk over a pass's accesses has gathered so far.
pub struct PassWalk {
    /// Color slots, in declaration order.
    pub color_slots: Seq<ColorAttachmentSlot>,
    /// Backend description of each color attachment.
    pub color_descs: Seq<AttachmentDesc>,
    /// Backend description of each resolve target.
    pub resolve_descs: Seq<AttachmentDesc>,
    /// Backend description of the depth/stencil attachment.
    pub depth_desc: Option<AttachmentDesc>,
    /// Graph resource of the depth/stencil attachment.
    pub depth_key: Option<GraphResourceKey>,
    /// Clear values of the colors, in declaration order.
    pub clear_values: Seq<ClearValue>,
    /// Clear value of the depth/stencil attachment.
    pub depth_clear: Option<ClearValue>,
    /// Sample count shared by the attachments seen so far.
    pub sample_count: Option<u32>,
}

/// The walk before any access.
pub open spec fn empty_walk() -> PassWalk {
    PassWalk {
        color_slots: Seq::empty(),
        color_descs: Seq::empty(),
        resolve_descs: Seq::empty(),
        depth_desc: None,
        depth_key: None,
        clear_values: Seq::empty(),
        depth_clear: None,
        sample_count: None,
    }
}

/// The texture properties behind a graph resource key, for a given role.
pub open spec fn texture_for(
    res: Map<u64, GraphResource>,
    tex: Seq<(TextureKey, TextureInfo)>,
    key: GraphResourceKey,
    role: AttachmentRole,
) -> Result<TextureInfo, PassError> {
    match attachment_of(res, tex, key) {
        Err(f) => Err(PassError::Lookup(role, f)),
        Ok((_, info)) => Ok(info),
    }
}

/// Fold a candidate sample count into the one the pass has so far.
pub open spec fn sample_step(seen: Option<u32>, candidate: u32) -> Result<Option<u32>, PassError> {
    match seen {
        None => Ok(Some(candidate)),
        Some(e) => if e != candidate {
            Err(PassError::SampleCountMismatch { expected: e, found: candidate })
        } else {
            Ok(seen)
        },
    }
}

/// Description of a resolve target of the given format.
pub open spec fn resolve_desc(format: u32) -> AttachmentDesc {
    AttachmentDesc {
        format,
        samples: 1,
        load_op: LoadOp::DontCare,
        store_op: StoreOp::Store,
        stencil_load_op: LoadOp::DontCare,
        stencil_store_op: StoreOp::DontCare,
    }
}

/// One color access.
pub open spec fn color_step(
    res: Map<u64, GraphResource>,
    tex: Seq<(TextureKey, TextureInfo)>,
    w: PassWalk,
    a: ResourceAccess,
) -> Result<PassWalk, PassError> {
    match texture_for(res, tex, a.graph_resource_key, AttachmentRole::Color) {
        Err(e) => Err(e),
        Ok(info) => match sample_step(w.sample_count, info.sample_count) {
            Err(e) => Err(e),
            Ok(sc) => match a.target_ops {
                None => Err(PassError::ColorMissingTargetOps),
                Some(TargetOps::DepthStencil { .. }) => Err(PassError::ColorWithDepthOps),
                Some(TargetOps::Color { clear_color, load_op, store_op, resolve_target }) => {
                    let desc = AttachmentDesc {
                        format: info.format,
                        samples: info.sample_count,
                        load_op,
                        store_op,
                        stencil_load_op: LoadOp::DontCare,
                        stencil_store_op: StoreOp::DontCare,
                    };
                    let slot = ColorAttachmentSlot {
                        color: a.graph_resource_key,
                        resolve: resolve_target,
                    };
                    let next = PassWalk {
                        color_slots: w.color_slots.push(slot),
                        color_descs: w.color_descs.push(desc),
                        resolve_descs: w.resolve_descs,
                        depth_desc: w.depth_desc,
                        depth_key: w.depth_key,
                        clear_values: w.clear_values.push(ClearValue::Color(clear_color)),
                        depth_clear: w.depth_clear,
                        sample_count: sc,
                    };
                    match resolve_target {
                        None => Ok(next),
                        Some(rk) => match texture_for(res, tex, rk, AttachmentRole::Resolve) {
                            Err(e) => Err(e),
                            Ok(rinfo) => if rinfo.sample_count != 1 {
                                Err(PassError::ResolveNotSingleSampled { got: rinfo.sample_count })
                            } else if rinfo.format != info.format {
                                Err(
                                    PassError::ResolveFormatMismatch {
                                        resolve_format: rinfo.format,
                                        color_format: info.format,
                                    },
                                )
                            } else {
                                Ok(
                                    PassWalk {
                                        resolve_descs: next.resolve_descs.push(
                                            resolve_desc(rinfo.format),
                                        ),
                                        ..next
                                    },
                                )
                            },
                        },
                    }
                },
            },
        },
    }
}

/// One depth/stencil write.
pub open spec fn depth_step(
    res: Map<u64, GraphResource>,
    tex: Seq<(TextureKey, TextureInfo)>,
    w: PassWalk,
    a: ResourceAccess,
) -> Result<PassWalk, PassError> {
    if w.depth_desc is Some {
        Err(PassError::SecondDepthWrite)
    } else {
        match texture_for(res, tex, a.graph_resource_key, AttachmentRole::DepthStencil) {
            Err(e) => Err(e),
            Ok(info) => match sample_step(w.sample_count, info.sample_count) {
                Err(e) => Err(e),
                Ok(sc) => match a.target_ops {
                    None => Err(PassError::DepthMissingTargetOps),
                    Some(TargetOps::Color { .. }) => Err(PassError::DepthWithColorOps),
                    Some(
                        TargetOps::DepthStencil {
                            depth_clear,
                            stencil_clear,
                            depth_load_op,
                            depth_store_op,
                            stencil_load_op,
                            stencil_store_op,
                        },
                    ) => Ok(
                        PassWalk {
                            depth_desc: Some(
                                AttachmentDesc {
                                    format: info.format,
                                    samples: info.sample_count,
                                    load_op: depth_load_op,
                                    store_op: depth_store_op,
                                    stencil_load_op,
                                    stencil_store_op,
                                },
                            ),
                            depth_key: Some(a.graph_resource_key),
                            depth_clear: Some(
                                ClearValue::DepthStencil { depth: depth_clear, stencil: stencil_clear },
                            ),
                            sample_count: sc,
                            ..w
                        },
                    ),
                },
            },
        }
    }
}

/// One access of a pass. Only color attachments and depth/stencil writes
/// take part in the framebuffer; every other access is passed over.
pub open spec fn pass_step(
    res: Map<u64, GraphResource>,
    tex: Seq<(TextureKey, TextureInfo)>,
    w: PassWalk,
    a: ResourceAccess,
) -> Result<PassWalk, PassError> {
    match a.access_type {
        AccessType::ColorAttachmentWrite | AccessType::ColorAttachmentRead => color_step(res, tex, w, a),
        AccessType::DepthStencilWrite => depth_step(res, tex, w, a),
        _ => Ok(w),
    }
}

/// Walk the accesses of a pass in order.
pub open spec fn pass_fold(
    res: Map<u64, GraphResource>,
    tex: Seq<(TextureKey, TextureInfo)>,
    accesses: Seq<ResourceAccess>,
) -> Result<PassWalk, PassError>
    decreases accesses.len(),
{
    if accesses.len() == 0 {
        Ok(empty_walk())
    } else {
        match pass_fold(res, tex, accesses.drop_last()) {
            Err(e) => Err(e),
            Ok(w) => pass_step(res, tex, w, accesses.last()),
        }
    }
}

/// The walk over a pass's accesses, with the all-or-none resolve rule
/// applied at the end.
pub open spec fn pass_walk(
    res: Map<u64, GraphResource>,
    tex: Seq<(TextureKey, TextureInfo)>,
    accesses: Seq<ResourceAccess>,
) -> Result<PassWalk, PassError> {
    match pass_fold(res, tex, accesses) {
        Err(e) => Err(e),
        Ok(w) => if w.resolve_descs.len() != 0 && w.resolve_descs.len() != w.color_descs.len() {
            Err(
                PassError::MixedResolves {
                    resolves: w.resolve_descs.len() as usize,
                    colors: w.color_descs.len() as usize,
                },
            )
        } else {
            Ok(w)
        },
    }
}

/// Clear values of a walk: the colors' in declaration order, then the
/// depth/stencil attachment's.
pub open spec fn walk_clear_values(w: PassWalk) -> Seq<ClearValue> {
    match w.depth_clear {
        Some(d) => w.clear_values.push(d),
        None => w.clear_values,
    }
}

/// The walk found no attachment: the pass needs no framebuffer.
pub open spec fn walk_is_empty(w: PassWalk) -> bool {
    w.color_descs.len() == 0 && w.depth_desc is None
}

// ===== Messages =====

/// How a sample count is printed: `S` and the number of samples.
pub open spec fn samples_text(n: u32) -> Seq<char> {
    "S"@ + decimal(n as nat)
}

/// How a role is named in messages.
pub open spec fn role_text(role: AttachmentRole) -> Seq<char> {
    match role {
        AttachmentRole::Color => "color attachment"@,
        AttachmentRole::Resolve => "resolve attachment"@,
        AttachmentRole::DepthStencil => "depth/stencil attachment"@,
    }
}

/// Message of a refused framebuffer.
pub open spec fn framebuffer_error_text(e: FramebufferError) -> Seq<char> {
    match e {
        FramebufferError::MixedResolves { resolves, colors } => "get_or_create_framebuffer: mixed resolve targets — "@
            + decimal(resolves as nat) + " of "@ + decimal(colors as nat)
            + " color attachments have a resolve. Either all or none."@,
        FramebufferError::Lookup(LookupFailure::ResourceNotFound) => "framebuffer attachment GraphResourceKey not found"@,
        FramebufferError::Lookup(LookupFailure::NotATexture) => "framebuffer attachment expected a Texture, got Buffer"@,
        FramebufferError::Lookup(LookupFailure::TextureNotFound) => "framebuffer attachment TextureKey not found in ResourceManager"@,
        FramebufferError::WidthMismatch { expected, got } => "framebuffer attachments have mismatched widths (expected "@
            + decimal(expected as nat) + ", got "@ + decimal(got as nat) + ")"@,
        FramebufferError::HeightMismatch { expected, got } => "framebuffer attachments have mismatched heights (expected "@
            + decimal(expected as nat) + ", got "@ + decimal(got as nat) + ")"@,
        FramebufferError::LayerCountMismatch { expected, got } => "framebuffer attachments have mismatched layer_count (expected "@
            + decimal(expected as nat) + ", got "@ + decimal(got as nat) + ")"@,
        FramebufferError::ResolveNotSingleSampled { got } => "framebuffer resolve attachment must be single-sampled (got "@
            + samples_text(got) + ")"@,
        FramebufferError::ResolveSampleCountMismatch => "framebuffer resolve attachments have mismatched sample counts"@,
        FramebufferError::SampleCountMismatch { expected, got } => "framebuffer attachments have mismatched sample counts (expected "@
            + samples_text(expected) + ", got "@ + samples_text(got) + ")"@,
        FramebufferError::EmptyAttachmentSet => "get_or_create_framebuffer: empty attachment set"@,
    }
}

/// What follows the pass name in the message of a refused pass.
pub open spec fn pass_error_detail(e: PassError) -> Seq<char> {
    match e {
        PassError::Lookup(role, LookupFailure::ResourceNotFound) => role_text(role) + " GraphResourceKey not found"@,
        PassError::Lookup(role, LookupFailure::NotATexture) => role_text(role) + " expected a Texture GraphResource, got Buffer"@,
        PassError::Lookup(role, LookupFailure::TextureNotFound) => role_text(role) + " TextureKey not found in ResourceManager"@,
        PassError::SampleCountMismatch { expected, found } => "mismatched sample counts in attachments (expected "@
            + samples_text(expected) + ", found "@ + samples_text(found) + ")"@,
        PassError::ColorMissingTargetOps => "color attachment access has no TargetOps"@,
        PassError::ColorWithDepthOps => "color access carries DepthStencil ops"@,
        PassError::ResolveNotSingleSampled { got } => "resolve_target must be single-sampled (got "@
            + samples_text(got) + ")"@,
        PassError::ResolveFormatMismatch { resolve_format, color_format } => "resolve_target format "@
            + decimal(resolve_format as nat) + " doesn't match color format "@ + decimal(color_format as nat),
        PassError::SecondDepthWrite => "more than one DepthStencilWrite attachment (only one depth/stencil OUTPUT is allowed per pass)"@,
        PassError::DepthMissingTargetOps => "depth/stencil access has no TargetOps"@,
        PassError::DepthWithColorOps => "depth/stencil access carries Color ops"@,
        PassError::MixedResolves { resolves, colors } => "mixed resolve targets — "@ + decimal(resolves as nat) + " of "@
            + decimal(colors as nat) + " color attachments have a resolve. Either all colors have a resolve_target or none."@,
    }
}

/// Message of a refused pass: the pass name and what was wrong.
pub open spec fn pass_error_text(name: Seq<char>, e: PassError) -> Seq<char> {
    "Pass '"@ + name + "': "@ + pass_error_detail(e)
}

/// Decimal rendering of a 32-bit count.
fn u32_text(n: u32) -> (s: String)
    ensures
        s@ == decimal(n as nat),
{
    usize_to_decimal(n as usize)
}

/// Printed sample count.
fn samples_message(n: u32) -> (s: String)
    ensures
        s@ == samples_text(n),
{
    let mut s = String::from_str("S");
    let d = u32_text(n);
    s.append(d.as_str());
    proof {
        reveal_strlit("S");
    }
    s
}

/// `head`, a number, `middle`, a number and `tail`, concatenated.
fn two_numbers(head: &str, a: &String, middle: &str, b: &String, tail: &str) -> (s: String)
    ensures
        s@ == head@ + a@ + middle@ + b@ + tail@,
{
    let mut s = String::from_str(head);
    s.append(a.as_str());
    s.append(middle);
    s.append(b.as_str());
    s.append(tail);
    s
}

/// Message of a refused framebuffer.
pub fn framebuffer_error_message(e: FramebufferError) -> (s: String)
    ensures
        s@ == framebuffer_error_text(e),
{
    match e {
        FramebufferError::MixedResolves { resolves, colors } => {
            let a = usize_to_decimal(resolves);
            let b = usize_to_decimal(colors);
            proof {
                reveal_strlit("get_or_create_framebuffer: mixed resolve targets — ");
                reveal_strlit(" of ");
                reveal_strlit(" color attachments have a resolve. Either all or none.");
            }
            two_numbers(
                "get_or_create_framebuffer: mixed resolve targets — ",
                &a,
                " of ",
                &b,
                " color attachments have a resolve. Either all or none.",
            )
        },
        FramebufferError::Lookup(LookupFailure::ResourceNotFound) => {
            proof {
                reveal_strlit("framebuffer attachment GraphResourceKey not found");
            }
            String::from_str("framebuffer attachment GraphResourceKey not found")
        },
        FramebufferError::Lookup(LookupFailure::NotATexture) => {
            proof {
                reveal_strlit("framebuffer attachment expected a Texture, got Buffer");
            }
            String::from_str("framebuffer attachment expected a Texture, got Buffer")
        },
        FramebufferError::Lookup(LookupFailure::TextureNotFound) => {
            proof {
                reveal_strlit("framebuffer attachment TextureKey not found in ResourceManager");
            }
            String::from_str("framebuffer attachment TextureKey not found in ResourceManager")
        },
        FramebufferError::WidthMismatch { expected, got } => {
            let a = u32_text(expected);
            let b = u32_text(got);
            proof {
                reveal_strlit("framebuffer attachments have mismatched widths (expected ");
                reveal_strlit(", got ");
                reveal_strlit(")");
            }
            two_numbers("framebuffer attachments have mismatched widths (expected ", &a, ", got ", &b, ")")
        },
        FramebufferError::HeightMismatch { expected, got } => {
            let a = u32_text(expected);
            let b = u32_text(got);
            proof {
                reveal_strlit("framebuffer attachments have mismatched heights (expected ");
                reveal_strlit(", got ");
                reveal_strlit(")");
            }
            two_numbers("framebuffer attachments have mismatched heights (expected ", &a, ", got ", &b, ")")
        },
        FramebufferError::LayerCountMismatch { expected, got } => {
            let a = u32_text(expected);
            let b = u32_text(got);
            proof {
                reveal_strlit("framebuffer attachments have mismatched layer_count (expected ");
                reveal_strlit(", got ");
                reveal_strlit(")");
            }
            two_numbers(
                "framebuffer attachments have mismatched layer_count (expected ",
                &a,
                ", got ",
                &b,
                ")",
            )
        },
        FramebufferError::ResolveNotSingleSampled { got } => {
            let a = samples_message(got);
            let mut s = String::from_str("framebuffer resolve attachment must be single-sampled (got ");
            s.append(a.as_str());
            s.append(")");
            proof {
                reveal_strlit("framebuffer resolve attachment must be single-sampled (got ");
                reveal_strlit(")");
            }
            s
        },
        FramebufferError::ResolveSampleCountMismatch => {
            proof {
                reveal_strlit("framebuffer resolve attachments have mismatched sample counts");
            }
            String::from_str("framebuffer resolve attachments have mismatched sample counts")
        },
        FramebufferError::SampleCountMismatch { expected, got } => {
            let a = samples_message(expected);
            let b = samples_message(got);
            proof {
                reveal_strlit("framebuffer attachments have mismatched sample counts (expected ");
                reveal_strlit(", got ");
                reveal_strlit(")");
            }
            two_numbers(
                "framebuffer attachments have mismatched sample counts (expected ",
                &a,
                ", got ",
                &b,
                ")",
            )
        },
        FramebufferError::EmptyAttachmentSet => {
            proof {
                reveal_strlit("get_or_create_framebuffer: empty attachment set");
            }
            String::from_str("get_or_create_framebuffer: empty attachment set")
        },
    }
}

/// Role name, as printed.
fn role_message(role: AttachmentRole) -> (s: String)
    ensures
        s@ == role_text(role),
{
    match role {
        AttachmentRole::Color => {
            proof {
                reveal_strlit("color attachment");
            }
            String::from_str("color attachment")
        },
        AttachmentRole::Resolve => {
            proof {
                reveal_strlit("resolve attachment");
            }
            String::from_str("resolve attachment")
        },
        AttachmentRole::DepthStencil => {
            proof {
                reveal_strlit("depth/stencil attachment");
            }
            String::from_str("depth/stencil attachment")
        },
    }
}

/// What follows the pass name in the message of a refused pass.
fn pass_error_detail_message(e: PassError) -> (s: String)
    ensures
        s@ == pass_error_detail(e),
{
    match e {
        PassError::Lookup(role, failure) => {
            let mut s = role_message(role);
            match failure {
                LookupFailure::ResourceNotFound => {
                    s.append(" GraphResourceKey not found");
                    proof {
                        reveal_strlit(" GraphResourceKey not found");
                    }
                },
                LookupFailure::NotATexture => {
                    s.append(" expected a Texture GraphResource, got Buffer");
                    proof {
                        reveal_strlit(" expected a Texture GraphResource, got Buffer");
                    }
                },
                LookupFailure::TextureNotFound => {
                    s.append(" TextureKey not found in ResourceManager");
                    proof {
                        reveal_strlit(" TextureKey not found in ResourceManager");
                    }
                },
            }
            s
        },
        PassError::SampleCountMismatch { expected, found } => {
            let a = samples_message(expected);
            let b = samples_message(found);
            proof {
                reveal_strlit("mismatched sample counts in attachments (expected ");
                reveal_strlit(", found ");
                reveal_strlit(")");
            }
            two_numbers("mismatched sample counts in attachments (expected ", &a, ", found ", &b, ")")
        },
        PassError::ColorMissingTargetOps => {
            proof {
                reveal_strlit("color attachment access has no TargetOps");
            }
            String::from_str("color attachment access has no TargetOps")
        },
        PassError::ColorWithDepthOps => {
            proof {
                reveal_strlit("color access carries DepthStencil ops");
            }
            String::from_str("color access carries DepthStencil ops")
        },
        PassError::ResolveNotSingleSampled { got } => {
            let a = samples_message(got);
            let mut s = String::from_str("resolve_target must be single-sampled (got ");
            s.append(a.as_str());
            s.append(")");
            proof {
                reveal_strlit("resolve_target must be single-sampled (got ");
                reveal_strlit(")");
            }
            s
        },
        PassError::ResolveFormatMismatch { resolve_format, color_format } => {
            let a = u32_text(resolve_format);
            let b = u32_text(color_format);
            proof {
                reveal_strlit("resolve_target format ");
                reveal_strlit(" doesn't match color format ");
                reveal_strlit("");
            }
            let s = two_numbers("resolve_target format ", &a, " doesn't match color format ", &b, "");
            proof {
                assert(s@ =~= pass_error_detail(e));
            }
            s
        },
        PassError::SecondDepthWrite => {
            proof {
                reveal_strlit(
                    "more than one DepthStencilWrite attachment (only one depth/stencil OUTPUT is allowed per pass)",
                );
            }
            String::from_str(
                "more than one DepthStencilWrite attachment (only one depth/stencil OUTPUT is allowed per pass)",
            )
        },
        PassError::DepthMissingTargetOps => {
            proof {
                reveal_strlit("depth/stencil access has no TargetOps");
            }
            String::from_str("depth/stencil access has no TargetOps")
        },
        PassError::DepthWithColorOps => {
            proof {
                reveal_strlit("depth/stencil access carries Color ops");
            }
            String::from_str("depth/stencil access carries Color ops")
        },
        PassError::MixedResolves { resolves, colors } => {
            let a = usize_to_decimal(resolves);
            let b = usize_to_decimal(colors);
            proof {
                reveal_strlit("mixed resolve targets — ");
                reveal_strlit(" of ");
                reveal_strlit(
                    " color attachments have a resolve. Either all colors have a resolve_target or none.",
                );
            }
            two_numbers(
                "mixed resolve targets — ",
                &a,
                " of ",
                &b,
                " color attachments have a resolve. Either all colors have a resolve_target or none.",
            )
        },
    }
}

/// Message of a refused pass.
pub fn pass_error_message(name: &str, e: PassError) -> (s: String)
    ensures
        s@ == pass_error_text(name@, e),
{
    let d = pass_error_detail_message(e);
    let mut s = String::from_str("Pass '");
    s.append(name);
    s.append("': ");
    s.append(d.as_str());
    proof {
        reveal_strlit("Pass '");
        reveal_strlit("': ");
    }
    s
}

/// The extent of mip level `mip` of an extent `extent` is the base extent
/// halved `mip` times, rounded down, and at least 1: `max(1, extent /
/// 2^mip)` (mip 2 of 1024 is 256). Past the 32 levels a 32-bit extent can
/// halve through, it is 1.
pub proof fn law_mip_extent_halves(extent: u32, mip: u32)
    ensures
        mip < 32 ==> mip_extent(extent, mip) as int == if extent as int / pow2(mip as nat) as int == 0 {
            1
        } else {
            extent as int / pow2(mip as nat) as int
        },
        mip >= 32 ==> mip_extent(extent, mip) == 1,
        mip_extent(extent, mip) >= 1,
{
    if mip < 32 {
        lemma_u32_shr_is_div(extent, mip);
    }
}

/// An access that binds its resource as a color attachment.
pub open spec fn is_color_access(a: ResourceAccess) -> bool {
    a.access_type is ColorAttachmentWrite || a.access_type is ColorAttachmentRead
}

/// The load and store ops that the color accesses of a pass ask for, in
/// declaration order.
pub open spec fn color_target_ops(accesses: Seq<ResourceAccess>) -> Seq<(LoadOp, StoreOp)>
    decreases accesses.len(),
{
    if accesses.len() == 0 {
        Seq::empty()
    } else {
        let prefix = color_target_ops(accesses.drop_last());
        let a = accesses.last();
        match a.target_ops {
            Some(TargetOps::Color { load_op, store_op, .. }) => if is_color_access(a) {
                prefix.push((load_op, store_op))
            } else {
                prefix
            },
            _ => prefix,
        }
    }
}

/// The color attachments of an accepted pass are its color accesses, in
/// declaration order, and each keeps the load and store ops its access
/// asked for: an overlay that loads keeps what earlier passes drew.
pub proof fn law_color_attachments_keep_their_ops(
    res: Map<u64, GraphResource>,
    tex: Seq<(TextureKey, TextureInfo)>,
    accesses: Seq<ResourceAccess>,
)
    requires
        pass_walk(res, tex, accesses) is Ok,
    ensures
        ({
            let w = pass_walk(res, tex, accesses)->Ok_0;
            &&& w.color_descs.len() == color_target_ops(accesses).len()
            &&& forall|k: int|
                0 <= k < w.color_descs.len() ==> ((#[trigger] w.color_descs[k]).load_op, w.color_descs[k].store_op)
                    == color_target_ops(accesses)[k]
        }),
{
    lemma_fold_keeps_ops(res, tex, accesses);
}

/// The walk's color descriptions carry the ops of the color accesses.
proof fn lemma_fold_keeps_ops(
    res: Map<u64, GraphResource>,
    tex: Seq<(TextureKey, TextureInfo)>,
    accesses: Seq<ResourceAccess>,
)
    requires
        pass_fold(res, tex, accesses) is Ok,
    ensures
        ({
            let w = pass_fold(res, tex, accesses)->Ok_0;
            &&& w.color_descs.len() == color_target_ops(accesses).len()
            &&& forall|k: int|
                0 <= k < w.color_descs.len() ==> ((#[trigger] w.color_descs[k]).load_op, w.color_descs[k].store_op)
                    == color_target_ops(accesses)[k]
        }),
    decreases accesses.len(),
{
    if accesses.len() > 0 {
        let pre = accesses.drop_last();
        lemma_fold_keeps_ops(res, tex, pre);
        let w0 = pass_fold(res, tex, pre)->Ok_0;
        let w = pass_fold(res, tex, accesses)->Ok_0;
        let a = accesses.last();
        let ops0 = color_target_ops(pre);
        let ops = color_target_ops(accesses);
        if is_color_access(a) {
            assert(pass_step(res, tex, w0, a) == color_step(res, tex, w0, a));
            match a.target_ops {
                Some(TargetOps::Color { load_op, store_op, .. }) => {
                    assert(ops == ops0.push((load_op, store_op)));
                    assert(w.color_descs.len() == w0.color_descs.len() + 1);
                    assert(w.color_descs.last().load_op == load_op);
                    assert(w.color_descs.last().store_op == store_op);
                    assert forall|k: int| 0 <= k < w.color_descs.len() implies ((
                        #[trigger] w.color_descs[k]).load_op, w.color_descs[k].store_op) == ops[k] by {
                        if k < w0.color_descs.len() {
                            assert(w.color_descs[k] == w0.color_descs[k]);
                        }
                    }
                },
                _ => {},
            }
        } else {
            assert(ops == ops0);
            assert(w.color_descs == w0.color_descs);
        }
    }
}

/// An accepted attachment set has one extent: every attachment's mip
/// extent (see `law_mip_extent_halves`) is the framebuffer's width and
/// height, and every attachment has its layer count.
pub proof fn law_attachments_share_extent(
    res: Map<u64, GraphResource>,
    tex: Seq<(TextureKey, TextureInfo)>,
    items: Seq<(GraphResourceKey, bool)>,
    i: int,
)
    requires
        framebuffer_fold(res, tex, items) is Ok,
        0 <= i < items.len(),
    ensures
        attachment_of(res, tex, items[i].0) is Ok,
        ({
            let t = framebuffer_fold(res, tex, items)->Ok_0;
            let (att, info) = attachment_of(res, tex, items[i].0)->Ok_0;
            &&& t.width == Some(mip_extent(info.width, att.base_mip_level))
            &&& t.height == Some(mip_extent(info.height, att.base_mip_level))
            &&& t.layer_count == Some(att.layer_count)
        }),
    decreases items.len(),
{
    let pre = items.drop_last();
    if pre.len() > 0 {
        assert(framebuffer_fold(res, tex, pre) is Ok);
        if i < pre.len() {
            law_attachments_share_extent(res, tex, pre, i);
            assert(pre[i] == items[i]);
        } else {
            law_attachments_share_extent(res, tex, pre, 0);
        }
    }
}

} // verus!
