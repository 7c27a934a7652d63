//! Framebuffers of the render graph manager: built on demand for an
//! attachment set, shared by every pass that renders into the same set,
//! and dropped on request.

use vstd::prelude::*;
use crate::attachments::{
    attachment_of, attachment_view, color_attachments_of, framebuffer_check, framebuffer_error_message,
    framebuffer_error_text, framebuffer_fold, framebuffer_items, framebuffer_step, mip_extent,
    resolve_attachments, resolve_count, slot_item, slot_items, FramebufferError, FramebufferTracker,
    LookupFailure,
};
use crate::error::{Error, ErrorView};
use crate::frame_buffer::{
    ColorAttachmentSlot, Framebuffer, FramebufferAttachment, FramebufferDesc, FramebufferLookupKey,
    TextureInfo, TextureTable,
};
use crate::graph_resource::GraphResource;
use crate::keys::{FramebufferKey, GraphResourceKey, TextureKey};
use crate::name_maps::{lookup_get, lookup_insert, lookup_retain_other};
use crate::render_graph_manager::{
    lemma_keys_match_insert, lemma_keys_match_retain_other, RenderGraphManager,
};
use crate::slots::{
    canonical_key, framebuffer_slots_get, framebuffer_slots_insert, framebuffer_slots_len,
    framebuffer_slots_remove, graph_resource_slots, resource_slots_get, slot_capacity,
    GraphResourceSlots,
};

verus! {

/// The framebuffer the lookup map holds for an attachment set, if any.
pub open spec fn lookup_framebuffer(
    lookup: Map<(Seq<ColorAttachmentSlot>, Option<GraphResourceKey>), u64>,
    slots: Seq<ColorAttachmentSlot>,
    depth: Option<GraphResourceKey>,
) -> Option<FramebufferKey> {
    if lookup.contains_key((slots, depth)) {
        Some(FramebufferKey { bits: lookup[(slots, depth)] })
    } else {
        None
    }
}

/// A framebuffer built for the attachment set `(slots, depth)`, given the
/// graph resources and textures it was built from.
pub open spec fn framebuffer_built(
    fb: Framebuffer,
    res: Map<u64, GraphResource>,
    tex: Seq<(TextureKey, TextureInfo)>,
    slots: Seq<ColorAttachmentSlot>,
    depth: Option<GraphResourceKey>,
) -> bool {
    let d = fb.spec_gd_framebuffer();
    let t = framebuffer_fold(res, tex, framebuffer_items(slots, depth))->Ok_0;
    &&& fb.spec_color_attachments() == slots
    &&& fb.spec_depth_stencil_attachment() == depth
    &&& d.color_attachments@ == color_attachments_of(res, slots)
    &&& d.color_resolve_attachments@ == resolve_attachments(res, slots)
    &&& d.depth_stencil_attachment == match depth {
        Some(k) => Some(attachment_view(res[canonical_key(k.bits)])),
        None => None,
    }
    &&& d.width == t.width->0
    &&& d.height == t.height->0
}

impl RenderGraphManager {
    /// The framebuffer stored under `key`, if any.
    pub fn framebuffer(&self, key: FramebufferKey) -> (r: Option<&Framebuffer>)
        ensures
            r is Some <==> self.spec_framebuffers().contains_key(canonical_key(key.bits)),
            r matches Some(f) ==> *f == self.spec_framebuffers()[canonical_key(key.bits)],
    {
        framebuffer_slots_get(&self.framebuffers, key.bits)
    }

    /// Number of framebuffers.
    pub fn framebuffer_count(&self) -> (n: usize)
        requires
            self.wf(),
        ensures
            n == self.spec_framebuffers().len(),
    {
        framebuffer_slots_len(&self.framebuffers)
    }

    /// Remove the framebuffer stored under `key`, and the lookup entry that
    /// led to it, so that the same attachment set later builds a new one.
    /// Returns whether there was one.
    pub fn remove_framebuffer(&mut self, key: FramebufferKey) -> (removed: bool)
        requires
            old(self).wf(),
        ensures
            final(self).wf(),
            removed == old(self).spec_framebuffers().contains_key(canonical_key(key.bits)),
            final(self).spec_framebuffers() == old(self).spec_framebuffers().remove(
                canonical_key(key.bits),
            ),
            removed ==> final(self).spec_lookup() == old(self).spec_lookup().remove(
                choose|s: (Seq<ColorAttachmentSlot>, Option<GraphResourceKey>)|
                    #[trigger] old(self).spec_lookup().contains_key(s) && old(self).spec_lookup()[s]
                        == canonical_key(key.bits),
            ),
            !removed ==> final(self).spec_lookup() == old(self).spec_lookup(),
            final(self).same_graphs(*old(self)),
            final(self).same_passes(*old(self)),
            final(self).same_resources(*old(self)),
    {
        let canon: u64 = key.bits | 0x1_0000_0000u64;
        let removed = framebuffer_slots_remove(&mut self.framebuffers, key.bits);
        if removed.is_none() {
            proof {
                assert(self.spec_framebuffers() =~= old(self).spec_framebuffers());
            }
            return false;
        }
        lookup_retain_other(&mut self.framebuffer_lookup, canon);
        proof {
            let old_lookup = old(self).spec_lookup();
            let old_fbs = old(self).spec_framebuffers();
            lemma_keys_match_retain_other(old_lookup, old_fbs.dom(), self.spec_lookup(), canon);
            assert forall|s: (Seq<ColorAttachmentSlot>, Option<GraphResourceKey>)|
                #[trigger] self.spec_lookup().contains_key(s) implies ({
                let f = self.spec_framebuffers()[self.spec_lookup()[s]];
                f.spec_color_attachments() == s.0 && f.spec_depth_stencil_attachment() == s.1
            }) by {
                assert(old_lookup.contains_key(s));
                assert(old_fbs.remove(canon)[old_lookup[s]] == old_fbs[old_lookup[s]]);
            }
        }
        true
    }

    /// The framebuffer for an attachment set: each color slot (a color
    /// graph resource and its optional resolve target) in order, and the
    /// optional depth/stencil graph resource.
    ///
    /// The same attachment set gives the same key as long as that
    /// framebuffer is not removed: a set found in the lookup table is
    /// returned as it is, without any check. A new set is checked (all or
    /// none of the colors have a resolve target; every attachment is a
    /// texture of the table; all attachments share their mip extent and
    /// layer count; colors and depth share one sample count; resolve
    /// targets are single-sampled; the set is not empty); a refused set
    /// fails with `BackendError`, changing nothing. An accepted set is
    /// built, stored under a new key and entered in the lookup table.
    #[verifier::loop_isolation(false)]
    pub fn get_or_create_framebuffer(
        &mut self,
        color_attachments: &[ColorAttachmentSlot],
        depth_stencil_attachment: Option<GraphResourceKey>,
        textures: &TextureTable,
    ) -> (r: Result<FramebufferKey, Error>)
        requires
            old(self).wf(),
            old(self).spec_framebuffers().len() < slot_capacity(),
            textures.wf(),
        ensures
            final(self).wf(),
            final(self).same_graphs(*old(self)),
            final(self).same_passes(*old(self)),
            final(self).same_resources(*old(self)),
            framebuffer_outcome(
                *old(self),
                *final(self),
                textures@,
                color_attachments@,
                depth_stencil_attachment,
                r,
            ),
    {
        let ghost res = self.spec_resources();
        let ghost slots = color_attachments@;
        let lookup_key = FramebufferLookupKey {
            color_attachments: copy_slots(color_attachments),
            depth_stencil_attachment,
        };
        // A set already built is shared.
        match lookup_get(&self.framebuffer_lookup, &lookup_key) {
            Some(bits) => {
                return Ok(FramebufferKey { bits });
            },
            None => {},
        }
        // All or none of the colors have a resolve target.
        let mut resolves: usize = 0;
        let mut c: usize = 0;
        while c < color_attachments.len()
            invariant
                c <= slots.len(),
                slots == color_attachments@,
                resolves == resolve_count(slots.take(c as int)),
                resolves <= c,
            decreases slots.len() - c,
        {
            proof {
                assert(slots.take(c as int + 1).drop_last() =~= slots.take(c as int));
            }
            if color_attachments[c].resolve.is_some() {
                resolves += 1;
            }
            c += 1;
        }
        proof {
            assert(slots.take(slots.len() as int) =~= slots);
        }
        if resolves != 0 && resolves != color_attachments.len() {
            let e = FramebufferError::MixedResolves { resolves, colors: color_attachments.len() };
            return Err(Error::BackendError(framebuffer_error_message(e)));
        }
        // Check every attachment, colors with their resolve targets first.
        let mut tracker = FramebufferTracker {
            width: None,
            height: None,
            layer_count: None,
            sample_count: None,
            resolve_sample_count: None,
        };
        let mut color_atts: Vec<FramebufferAttachment> = Vec::new();
        let mut resolve_atts: Vec<FramebufferAttachment> = Vec::new();
        let mut c: usize = 0;
        while c < color_attachments.len()
            invariant
                c <= slots.len(),
                slots == color_attachments@,
                res == self.spec_resources(),
                framebuffer_fold(res, textures@, slot_items(slots.take(c as int))) == Ok::<
                    FramebufferTracker,
                    FramebufferError,
                >(tracker),
                color_atts@ == color_attachments_of(res, slots.take(c as int)),
                resolve_atts@ == resolve_attachments(res, slots.take(c as int)),
            decreases slots.len() - c,
        {
            let slot = color_attachments[c];
            let ghost before = slot_items(slots.take(c as int));
            proof {
                assert(slots.take(c as int + 1).drop_last() =~= slots.take(c as int));
                assert(slots.take(c as int + 1).last() == slot);
            }
            let att = match build_attachment_and_check_dims(
                &self.graph_resources,
                textures,
                slot.color,
                false,
                &mut tracker,
            ) {
                Ok(a) => a,
                Err(e) => {
                    proof {
                        lemma_fold_push(res, textures@, before, (slot.color, false));
                        lemma_items_split(slots, depth_stencil_attachment, c as int);
                        lemma_fold_err_prefix(
                            res,
                            textures@,
                            before.push((slot.color, false)),
                            framebuffer_items(slots, depth_stencil_attachment),
                        );
                    }
                    return Err(Error::BackendError(framebuffer_error_message(e)));
                },
            };
            color_atts.push(att);
            proof {
                lemma_fold_push(res, textures@, before, (slot.color, false));
            }
            match slot.resolve {
                Some(rk) => {
                    let ratt = match build_attachment_and_check_dims(
                        &self.graph_resources,
                        textures,
                        rk,
                        true,
                        &mut tracker,
                    ) {
                        Ok(a) => a,
                        Err(e) => {
                            proof {
                                let b2 = before.push((slot.color, false));
                                lemma_fold_push(res, textures@, b2, (rk, true));
                                lemma_items_split(slots, depth_stencil_attachment, c as int);
                                lemma_fold_err_prefix(
                                    res,
                                    textures@,
                                    b2.push((rk, true)),
                                    framebuffer_items(slots, depth_stencil_attachment),
                                );
                            }
                            return Err(Error::BackendError(framebuffer_error_message(e)));
                        },
                    };
                    resolve_atts.push(ratt);
                    proof {
                        lemma_fold_push(res, textures@, before.push((slot.color, false)), (rk, true));
                        assert(slot_items(slots.take(c as int + 1)) =~= before.push(
                            (slot.color, false),
                        ).push((rk, true)));
                    }
                },
                None => {
                    proof {
                        assert(slot_items(slots.take(c as int + 1)) =~= before.push(
                            (slot.color, false),
                        ));
                    }
                },
            }
            proof {
                assert(color_atts@ =~= color_attachments_of(res, slots.take(c as int + 1)));
                assert(resolve_atts@ =~= resolve_attachments(res, slots.take(c as int + 1)));
            }
            c += 1;
        }
        proof {
            assert(slots.take(slots.len() as int) =~= slots);
        }
        let depth_att = match depth_stencil_attachment {
            Some(dk) => {
                match build_attachment_and_check_dims(
                    &self.graph_resources,
                    textures,
                    dk,
                    false,
                    &mut tracker,
                ) {
                    Ok(a) => {
                        proof {
                            lemma_fold_push(res, textures@, slot_items(slots), (dk, false));
                        }
                        Some(a)
                    },
                    Err(e) => {
                        proof {
                            lemma_fold_push(res, textures@, slot_items(slots), (dk, false));
                        }
                        return Err(Error::BackendError(framebuffer_error_message(e)));
                    },
                }
            },
            None => None,
        };
        let width = match tracker.width {
            Some(w) => w,
            None => {
                let e = FramebufferError::EmptyAttachmentSet;
                return Err(Error::BackendError(framebuffer_error_message(e)));
            },
        };
        let height = match tracker.height {
            Some(h) => h,
            None => {
                proof {
                    lemma_fold_sizes_together(res, textures@, framebuffer_items(slots, depth_stencil_attachment));
                }
                0
            },
        };
        let desc = FramebufferDesc {
            color_attachments: color_atts,
            depth_stencil_attachment: depth_att,
            color_resolve_attachments: resolve_atts,
            width,
            height,
        };
        let fb = Framebuffer::new(desc, copy_slots(color_attachments), depth_stencil_attachment);
        let ghost old_lookup = self.spec_lookup();
        let ghost old_fbs = self.spec_framebuffers();
        let bits = framebuffer_slots_insert(&mut self.framebuffers, fb);
        let key = FramebufferKey { bits };
        lookup_insert(&mut self.framebuffer_lookup, &lookup_key, bits);
        proof {
            let set = (slots, depth_stencil_attachment);
            lemma_keys_match_insert(old_lookup, old_fbs.dom(), set, bits);
            assert forall|s: (Seq<ColorAttachmentSlot>, Option<GraphResourceKey>)|
                #[trigger] self.spec_lookup().contains_key(s) implies ({
                let f = self.spec_framebuffers()[self.spec_lookup()[s]];
                f.spec_color_attachments() == s.0 && f.spec_depth_stencil_attachment() == s.1
            }) by {
                if s != set {
                    assert(old_lookup.contains_key(s));
                    assert(old_fbs.dom().contains(old_lookup[s]));
                }
            }
            assert(self.spec_framebuffers().dom() =~= old_fbs.dom().insert(bits));
        }
        Ok(key)
    }
}


/// What `get_or_create_framebuffer` does to the framebuffers for the
/// attachment set `(slots, depth)`, and what it returns: the key found in
/// the lookup table; else the error of the first failed check; else the
/// key of a framebuffer just built.
pub open spec fn framebuffer_outcome(
    before: RenderGraphManager,
    after: RenderGraphManager,
    tex: Seq<(TextureKey, TextureInfo)>,
    slots: Seq<ColorAttachmentSlot>,
    depth: Option<GraphResourceKey>,
    r: Result<FramebufferKey, Error>,
) -> bool {
    match lookup_framebuffer(before.spec_lookup(), slots, depth) {
        Some(k) => r == Ok::<FramebufferKey, Error>(k) && after.same_framebuffers(before),
        None => match framebuffer_check(before.spec_resources(), tex, slots, depth) {
            Some(e) => r is Err && r->Err_0@ == ErrorView::BackendError(framebuffer_error_text(e))
                && after.same_framebuffers(before),
            None => r is Ok && framebuffer_added(before, after, r->Ok_0, tex, slots, depth),
        },
    }
}

/// `after` is `before` with one more framebuffer, stored under the fresh
/// key `k`, built for `(slots, depth)` and entered last in the lookup table.
pub open spec fn framebuffer_added(
    before: RenderGraphManager,
    after: RenderGraphManager,
    k: FramebufferKey,
    tex: Seq<(TextureKey, TextureInfo)>,
    slots: Seq<ColorAttachmentSlot>,
    depth: Option<GraphResourceKey>,
) -> bool {
    &&& !before.spec_framebuffers().contains_key(k.bits)
    &&& canonical_key(k.bits) == k.bits
    &&& after.spec_framebuffers().dom() == before.spec_framebuffers().dom().insert(k.bits)
    &&& forall|b: u64|
        b != k.bits ==> #[trigger] after.spec_framebuffers().index(b) == before.spec_framebuffers().index(
            b,
        )
    &&& framebuffer_built(after.spec_framebuffers()[k.bits], before.spec_resources(), tex, slots, depth)
    &&& after.spec_lookup() == before.spec_lookup().insert((slots, depth), k.bits)
}

/// A copy of a list of color slots.
fn copy_slots(s: &[ColorAttachmentSlot]) -> (v: Vec<ColorAttachmentSlot>)
    ensures
        v@ == s@,
{
    let mut v: Vec<ColorAttachmentSlot> = Vec::new();
    let mut i: usize = 0;
    while i < s.len()
        invariant
            i <= s@.len(),
            v@ == s@.take(i as int),
        decreases s@.len() - i,
    {
        v.push(s[i]);
        i += 1;
        proof {
            assert(v@ =~= s@.take(i as int));
        }
    }
    proof {
        assert(s@.take(s@.len() as int) =~= s@);
    }
    v
}

/// Extent of mip level `mip` of an extent.
fn mip_extent_of(extent: u32, mip: u32) -> (r: u32)
    ensures
        r == mip_extent(extent, mip),
{
    if mip >= 32 {
        1
    } else {
        let s = extent >> mip;
        if s == 0 {
            1
        } else {
            s
        }
    }
}

/// The attachment a graph resource key stands for, with the properties of
/// its texture.
pub(crate) fn attachment_lookup(res: &GraphResourceSlots, tex: &TextureTable, key: GraphResourceKey) -> (r: Result<
    (FramebufferAttachment, TextureInfo),
    LookupFailure,
>)
    requires
        tex.wf(),
    ensures
        r == attachment_of(graph_resource_slots(*res), tex@, key),
{
    match resource_slots_get(res, key.bits) {
        None => Err(LookupFailure::ResourceNotFound),
        Some(g) => match *g {
            GraphResource::Buffer { .. } => Err(LookupFailure::NotATexture),
            GraphResource::Texture { texture_key, base_mip_level, base_array_layer, layer_count, .. } => {
                match tex.get(texture_key) {
                    None => Err(LookupFailure::TextureNotFound),
                    Some(info) => Ok(
                        (
                            FramebufferAttachment {
                                texture: texture_key,
                                base_mip_level,
                                base_array_layer,
                                layer_count,
                            },
                            info,
                        ),
                    ),
                }
            },
        },
    }
}

/// Check one framebuffer attachment against what the previous ones
/// established, and fold it in.
fn build_attachment_and_check_dims(
    res: &GraphResourceSlots,
    tex: &TextureTable,
    key: GraphResourceKey,
    is_resolve: bool,
    tracker: &mut FramebufferTracker,
) -> (r: Result<FramebufferAttachment, FramebufferError>)
    requires
        tex.wf(),
    ensures
        match framebuffer_step(graph_resource_slots(*res), tex@, key, is_resolve, *old(tracker)) {
            Ok(t) => r == Ok::<FramebufferAttachment, FramebufferError>(
                attachment_of(graph_resource_slots(*res), tex@, key)->Ok_0.0,
            ) && *final(tracker) == t,
            Err(e) => r == Err::<FramebufferAttachment, FramebufferError>(e),
        },
{
    let (att, info) = match attachment_lookup(res, tex, key) {
        Ok(p) => p,
        Err(f) => {
            return Err(FramebufferError::Lookup(f));
        },
    };
    let w = mip_extent_of(info.width, att.base_mip_level);
    let h = mip_extent_of(info.height, att.base_mip_level);
    match tracker.width {
        Some(x) => if x != w {
            return Err(FramebufferError::WidthMismatch { expected: x, got: w });
        },
        None => {},
    }
    match tracker.height {
        Some(x) => if x != h {
            return Err(FramebufferError::HeightMismatch { expected: x, got: h });
        },
        None => {},
    }
    match tracker.layer_count {
        Some(x) => if x != att.layer_count {
            return Err(FramebufferError::LayerCountMismatch { expected: x, got: att.layer_count });
        },
        None => {},
    }
    if is_resolve {
        if info.sample_count != 1 {
            return Err(FramebufferError::ResolveNotSingleSampled { got: info.sample_count });
        }
        match tracker.resolve_sample_count {
            Some(x) => if x != info.sample_count {
                return Err(FramebufferError::ResolveSampleCountMismatch);
            },
            None => {},
        }
        tracker.resolve_sample_count = Some(info.sample_count);
    } else {
        match tracker.sample_count {
            Some(x) => if x != info.sample_count {
                return Err(
                    FramebufferError::SampleCountMismatch { expected: x, got: info.sample_count },
                );
            },
            None => {},
        }
        tracker.sample_count = Some(info.sample_count);
    }
    tracker.width = Some(w);
    tracker.height = Some(h);
    tracker.layer_count = Some(att.layer_count);
    Ok(att)
}

/// Folding one more attachment is one more step.
proof fn lemma_fold_push(
    res: Map<u64, GraphResource>,
    tex: Seq<(TextureKey, TextureInfo)>,
    items: Seq<(GraphResourceKey, bool)>,
    x: (GraphResourceKey, bool),
)
    ensures
        framebuffer_fold(res, tex, items.push(x)) == match framebuffer_fold(res, tex, items) {
            Err(e) => Err(e),
            Ok(t) => framebuffer_step(res, tex, x.0, x.1, t),
        },
{
    assert(items.push(x).drop_last() =~= items);
}

/// Once the check of a prefix fails, the check of any extension fails the
/// same way.
proof fn lemma_fold_err_extends(
    res: Map<u64, GraphResource>,
    tex: Seq<(TextureKey, TextureInfo)>,
    a: Seq<(GraphResourceKey, bool)>,
    b: Seq<(GraphResourceKey, bool)>,
)
    requires
        framebuffer_fold(res, tex, a) is Err,
    ensures
        framebuffer_fold(res, tex, a + b) == framebuffer_fold(res, tex, a),
    decreases b.len(),
{
    if b.len() == 0 {
        assert(a + b =~= a);
    } else {
        lemma_fold_err_extends(res, tex, a, b.drop_last());
        assert((a + b).drop_last() =~= a + b.drop_last());
    }
}

/// Width and height are set together.
proof fn lemma_fold_sizes_together(
    res: Map<u64, GraphResource>,
    tex: Seq<(TextureKey, TextureInfo)>,
    items: Seq<(GraphResourceKey, bool)>,
)
    requires
        framebuffer_fold(res, tex, items) is Ok,
    ensures
        (framebuffer_fold(res, tex, items)->Ok_0.width is Some) == (framebuffer_fold(
            res,
            tex,
            items,
        )->Ok_0.height is Some),
    decreases items.len(),
{
    if items.len() > 0 {
        lemma_fold_sizes_together(res, tex, items.drop_last());
    }
}

/// The attachments checked up to the color of slot `c` (and up to its
/// resolve target) begin the attachments of the framebuffer.
proof fn lemma_items_split(slots: Seq<ColorAttachmentSlot>, depth: Option<GraphResourceKey>, c: int)
    requires
        0 <= c < slots.len(),
    ensures
        ({
            let all = framebuffer_items(slots, depth);
            let pre = slot_items(slots.take(c)).push((slots[c].color, false));
            all.len() >= pre.len() && all.take(pre.len() as int) == pre
        }),
        slots[c].resolve is Some ==> ({
            let all = framebuffer_items(slots, depth);
            let pre = slot_items(slots.take(c)).push((slots[c].color, false)).push(
                (slots[c].resolve->0, true),
            );
            all.len() >= pre.len() && all.take(pre.len() as int) == pre
        }),
{
    lemma_slot_items_prefix(slots, c + 1);
    assert(slots.take(c + 1).drop_last() =~= slots.take(c));
    assert(slots.take(c + 1).last() == slots[c]);
    let all = framebuffer_items(slots, depth);
    let p = slot_items(slots.take(c + 1));
    let s_c = slot_items(slots.take(c));
    assert(p == s_c + slot_item(slots[c]));
    assert(all.len() >= p.len());
    assert(all.take(p.len() as int) =~= slot_items(slots).take(p.len() as int));
    let pre = s_c.push((slots[c].color, false));
    assert(all.take(pre.len() as int) =~= pre) by {
        assert forall|j: int| 0 <= j < pre.len() implies all.take(pre.len() as int)[j] == pre[j] by {
            assert(all[j] == all.take(p.len() as int)[j]);
            assert(p[j] == pre[j]);
        }
    }
    if slots[c].resolve is Some {
        let pre2 = pre.push((slots[c].resolve->0, true));
        assert(p =~= pre2);
        assert(all.take(pre2.len() as int) =~= pre2) by {
            assert forall|j: int| 0 <= j < pre2.len() implies all.take(pre2.len() as int)[j]
                == pre2[j] by {
                assert(all[j] == all.take(p.len() as int)[j]);
            }
        }
    }
}

/// Once the check of a prefix fails, the check of the whole fails the
/// same way.
proof fn lemma_fold_err_prefix(
    res: Map<u64, GraphResource>,
    tex: Seq<(TextureKey, TextureInfo)>,
    a: Seq<(GraphResourceKey, bool)>,
    all: Seq<(GraphResourceKey, bool)>,
)
    requires
        framebuffer_fold(res, tex, a) is Err,
        all.len() >= a.len(),
        all.take(a.len() as int) == a,
    ensures
        framebuffer_fold(res, tex, all) == framebuffer_fold(res, tex, a),
{
    assert(all =~= a + all.skip(a.len() as int));
    lemma_fold_err_extends(res, tex, a, all.skip(a.len() as int));
}

/// The attachments of the first `c` slots begin those of all slots.
proof fn lemma_slot_items_prefix(slots: Seq<ColorAttachmentSlot>, c: int)
    requires
        0 <= c <= slots.len(),
    ensures
        slot_items(slots).len() >= slot_items(slots.take(c)).len(),
        slot_items(slots).take(slot_items(slots.take(c)).len() as int) == slot_items(slots.take(c)),
    decreases slots.len() - c,
{
    if c == slots.len() {
        assert(slots.take(c) =~= slots);
        assert(slot_items(slots).take(slot_items(slots).len() as int) =~= slot_items(slots));
    } else {
        lemma_slot_items_prefix(slots, c + 1);
        assert(slots.take(c + 1).drop_last() =~= slots.take(c));
        let p = slot_items(slots.take(c));
        let q = slot_items(slots.take(c + 1));
        assert(q == p + slot_item(slots.take(c + 1).last()));
        assert(q.take(p.len() as int) =~= p);
        assert(slot_items(slots).take(p.len() as int) =~= q.take(p.len() as int));
    }
}

} // verus!
