//! Render passes of the render graph manager: creation, the eager cache
//! every pass carries (framebuffer, backend render-pass description, pass
//! info, clear values), and the calls that change a pass's accesses and
//! rebuild that cache.

use vstd::prelude::*;
use vstd::string::*;
use crate::access_type::AccessType;
use crate::attachments::{
    pass_error_message, pass_error_text, pass_fold, pass_walk, sample_step, texture_for,
    walk_clear_values, walk_is_empty, AttachmentRole, PassError, PassWalk,
};
use crate::error::{Error, ErrorView};
use crate::frame_buffer::{ColorAttachmentSlot, TextureInfo, TextureTable};
use crate::framebuffer_cache::{attachment_lookup, framebuffer_outcome};
use crate::graph_resource::GraphResource;
use crate::keys::{FramebufferKey, GraphResourceKey, RenderPassKey, TextureKey};
use crate::name_maps::{name_map_get, name_map_insert};
use crate::render_graph::{decimal, usize_to_decimal};
use crate::render_graph_manager::{lemma_keys_match_insert, name_taken_message, msg_name_taken, RenderGraphManager};
use crate::render_pass::{
    AttachmentDesc, ClearValue, LoadOp, PassCache, PassInfo, RenderPass, RenderPassDesc,
    ResourceAccess, StoreOp, TargetOps,
};
use crate::slots::{
    canonical_key, graph_resource_slots, pass_slots_get, pass_slots_insert, pass_slots_set,
    slot_capacity, GraphResourceSlots,
};

verus! {

impl RenderGraphManager {
    /// Walk the accesses of a pass and build everything the pass needs to
    /// run: its framebuffer (shared through the lookup table), its backend
    /// render-pass description, its pass info and its clear values (colors
    /// in declaration order, then depth/stencil). A pass without color
    /// attachments or depth/stencil write gets an empty cache. The pass
    /// info keeps `previous_pass_info`'s generation when formats and sample
    /// count are unchanged, and takes the next generation otherwise.
    #[verifier::loop_isolation(false)]
    fn build_pass_cache(
        &mut self,
        accesses: &[ResourceAccess],
        pass_name: &str,
        previous_pass_info: Option<&PassInfo>,
        textures: &TextureTable,
    ) -> (r: Result<PassCache, Error>)
        requires
            old(self).wf(),
            old(self).spec_framebuffers().len() < slot_capacity(),
            textures.wf(),
            previous_pass_info matches Some(p) ==> p.generation < u64::MAX,
        ensures
            final(self).wf(),
            final(self).same_graphs(*old(self)),
            final(self).same_passes(*old(self)),
            final(self).same_resources(*old(self)),
            pass_cache_outcome(
                *old(self),
                *final(self),
                textures@,
                accesses@,
                pass_name@,
                match previous_pass_info {
                    Some(p) => Some(*p),
                    None => None,
                },
                r,
            ),
    {
        let ghost res = self.spec_resources();
        let ghost tex = textures@;
        let mut color_slots: Vec<ColorAttachmentSlot> = Vec::new();
        let mut color_descs: Vec<AttachmentDesc> = Vec::new();
        let mut resolve_descs: Vec<AttachmentDesc> = Vec::new();
        let mut depth_desc: Option<AttachmentDesc> = None;
        let mut depth_key: Option<GraphResourceKey> = None;
        let mut clear_values: Vec<ClearValue> = Vec::new();
        let mut depth_clear_value: Option<ClearValue> = None;
        let mut sample_count: Option<u32> = None;
        let mut i: usize = 0;
        while i < accesses.len()
            invariant
                i <= accesses@.len(),
                res == self.spec_resources(),
                tex == textures@,
                textures.wf(),
                pass_fold(res, tex, accesses@.take(i as int)) == Ok::<PassWalk, PassError>(
                    PassWalk {
                        color_slots: color_slots@,
                        color_descs: color_descs@,
                        resolve_descs: resolve_descs@,
                        depth_desc,
                        depth_key,
                        clear_values: clear_values@,
                        depth_clear: depth_clear_value,
                        sample_count,
                    },
                ),
            decreases accesses@.len() - i,
        {
            let access = accesses[i];
            let ghost w = PassWalk {
                color_slots: color_slots@,
                color_descs: color_descs@,
                resolve_descs: resolve_descs@,
                depth_desc,
                depth_key,
                clear_values: clear_values@,
                depth_clear: depth_clear_value,
                sample_count,
            };
            proof {
                assert(accesses@.take(i as int + 1).drop_last() =~= accesses@.take(i as int));
                assert(accesses@.take(i as int + 1).last() == access);
            }
            match access.access_type {
                AccessType::ColorAttachmentWrite | AccessType::ColorAttachmentRead => {
                    let info = match resolve_texture_info(
                        &self.graph_resources,
                        textures,
                        access.graph_resource_key,
                        AttachmentRole::Color,
                    ) {
                        Ok(x) => x,
                        Err(e) => {
                            proof {
                                lemma_pass_fold_err(res, tex, accesses@, i as int);
                            }
                            return Err(Error::BackendError(pass_error_message(pass_name, e)));
                        },
                    };
                    match check_sample_count(&mut sample_count, info.sample_count) {
                        Ok(()) => {},
                        Err(e) => {
                            proof {
                                lemma_pass_fold_err(res, tex, accesses@, i as int);
                            }
                            return Err(Error::BackendError(pass_error_message(pass_name, e)));
                        },
                    }
                    let (clear_color, load_op, store_op, resolve_target) = match access.target_ops {
                        None => {
                            proof {
                                lemma_pass_fold_err(res, tex, accesses@, i as int);
                            }
                            let e = PassError::ColorMissingTargetOps;
                            return Err(Error::BackendError(pass_error_message(pass_name, e)));
                        },
                        Some(TargetOps::DepthStencil { .. }) => {
                            proof {
                                lemma_pass_fold_err(res, tex, accesses@, i as int);
                            }
                            let e = PassError::ColorWithDepthOps;
                            return Err(Error::BackendError(pass_error_message(pass_name, e)));
                        },
                        Some(TargetOps::Color { clear_color, load_op, store_op, resolve_target }) => (
                            clear_color,
                            load_op,
                            store_op,
                            resolve_target,
                        ),
                    };
                    color_descs.push(
                        AttachmentDesc {
                            format: info.format,
                            samples: info.sample_count,
                            load_op,
                            store_op,
                            stencil_load_op: LoadOp::DontCare,
                            stencil_store_op: StoreOp::DontCare,
                        },
                    );
                    clear_values.push(ClearValue::Color(clear_color));
                    match resolve_target {
                        Some(rk) => {
                            let rinfo = match resolve_texture_info(
                                &self.graph_resources,
                                textures,
                                rk,
                                AttachmentRole::Resolve,
                            ) {
                                Ok(x) => x,
                                Err(e) => {
                                    proof {
                                        lemma_pass_fold_err(res, tex, accesses@, i as int);
                                    }
                                    return Err(Error::BackendError(pass_error_message(pass_name, e)));
                                },
                            };
                            if rinfo.sample_count != 1 {
                                proof {
                                    lemma_pass_fold_err(res, tex, accesses@, i as int);
                                }
                                let e = PassError::ResolveNotSingleSampled { got: rinfo.sample_count };
                                return Err(Error::BackendError(pass_error_message(pass_name, e)));
                            }
                            if rinfo.format != info.format {
                                proof {
                                    lemma_pass_fold_err(res, tex, accesses@, i as int);
                                }
                                let e = PassError::ResolveFormatMismatch {
                                    resolve_format: rinfo.format,
                                    color_format: info.format,
                                };
                                return Err(Error::BackendError(pass_error_message(pass_name, e)));
                            }
                            resolve_descs.push(
                                AttachmentDesc {
                                    format: rinfo.format,
                                    samples: 1,
                                    load_op: LoadOp::DontCare,
                                    store_op: StoreOp::Store,
                                    stencil_load_op: LoadOp::DontCare,
                                    stencil_store_op: StoreOp::DontCare,
                                },
                            );
                        },
                        None => {},
                    }
                    color_slots.push(
                        ColorAttachmentSlot { color: access.graph_resource_key, resolve: resolve_target },
                    );
                },
                AccessType::DepthStencilWrite => {
                    if depth_desc.is_some() {
                        proof {
                            lemma_pass_fold_err(res, tex, accesses@, i as int);
                        }
                        let e = PassError::SecondDepthWrite;
                        return Err(Error::BackendError(pass_error_message(pass_name, e)));
                    }
                    let info = match resolve_texture_info(
                        &self.graph_resources,
                        textures,
                        access.graph_resource_key,
                        AttachmentRole::DepthStencil,
                    ) {
                        Ok(x) => x,
                        Err(e) => {
                            proof {
                                lemma_pass_fold_err(res, tex, accesses@, i as int);
                            }
                            return Err(Error::BackendError(pass_error_message(pass_name, e)));
                        },
                    };
                    match check_sample_count(&mut sample_count, info.sample_count) {
                        Ok(()) => {},
                        Err(e) => {
                            proof {
                                lemma_pass_fold_err(res, tex, accesses@, i as int);
                            }
                            return Err(Error::BackendError(pass_error_message(pass_name, e)));
                        },
                    }
                    match access.target_ops {
                        None => {
                            proof {
                                lemma_pass_fold_err(res, tex, accesses@, i as int);
                            }
                            let e = PassError::DepthMissingTargetOps;
                            return Err(Error::BackendError(pass_error_message(pass_name, e)));
                        },
                        Some(TargetOps::Color { .. }) => {
                            proof {
                                lemma_pass_fold_err(res, tex, accesses@, i as int);
                            }
                            let e = PassError::DepthWithColorOps;
                            return Err(Error::BackendError(pass_error_message(pass_name, e)));
                        },
                        Some(
                            TargetOps::DepthStencil {
                                depth_clear,
                                stencil_clear,
                                depth_load_op,
                                depth_store_op,
                                stencil_load_op,
                                stencil_store_op,
                            },
                        ) => {
                            depth_desc = Some(
                                AttachmentDesc {
                                    format: info.format,
                                    samples: info.sample_count,
                                    load_op: depth_load_op,
                                    store_op: depth_store_op,
                                    stencil_load_op,
                                    stencil_store_op,
                                },
                            );
                            depth_key = Some(access.graph_resource_key);
                            depth_clear_value = Some(
                                ClearValue::DepthStencil { depth: depth_clear, stencil: stencil_clear },
                            );
                        },
                    }
                },
                _ => {},
            }
            proof {
                assert(pass_fold(res, tex, accesses@.take(i as int + 1)) == Ok::<PassWalk, PassError>(
                    PassWalk {
                        color_slots: color_slots@,
                        color_descs: color_descs@,
                        resolve_descs: resolve_descs@,
                        depth_desc,
                        depth_key,
                        clear_values: clear_values@,
                        depth_clear: depth_clear_value,
                        sample_count,
                    },
                ));
            }
            i += 1;
        }
        proof {
            assert(accesses@.take(accesses@.len() as int) =~= accesses@);
        }
        // All or none of the colors have a resolve target.
        if resolve_descs.len() != 0 && resolve_descs.len() != color_descs.len() {
            let e = PassError::MixedResolves {
                resolves: resolve_descs.len(),
                colors: color_descs.len(),
            };
            return Err(Error::BackendError(pass_error_message(pass_name, e)));
        }
        // Nothing to attach.
        if color_descs.len() == 0 && depth_desc.is_none() {
            let cache = PassCache {
                framebuffer_key: None,
                pass_info: None,
                render_pass_desc: None,
                clear_values: Vec::new(),
            };
            proof {
                assert(self.same_framebuffers(*old(self)));
            }
            return Ok(cache);
        }
        let framebuffer_key = match self.get_or_create_framebuffer(
            color_slots.as_slice(),
            depth_key,
            textures,
        ) {
            Ok(k) => k,
            Err(e) => {
                return Err(e);
            },
        };
        let color_formats = formats_of(&color_descs);
        let depth_format = match depth_desc {
            Some(d) => Some(d.format),
            None => None,
        };
        let resolved_sample_count: u32 = match sample_count {
            Some(c) => c,
            None => 1,
        };
        let generation: u64 = match previous_pass_info {
            Some(prev) => {
                if same_formats(&prev.color_formats, &color_formats) && prev.depth_format
                    == depth_format && prev.sample_count == resolved_sample_count {
                    prev.generation
                } else {
                    prev.generation + 1
                }
            },
            None => 1,
        };
        let pass_info = PassInfo {
            color_formats,
            depth_format,
            sample_count: resolved_sample_count,
            generation,
        };
        match depth_clear_value {
            Some(d) => clear_values.push(d),
            None => {},
        }
        let render_pass_desc = RenderPassDesc {
            color_attachments: color_descs,
            depth_stencil_attachment: depth_desc,
            color_resolve_attachments: resolve_descs,
        };
        Ok(
            PassCache {
                framebuffer_key: Some(framebuffer_key),
                pass_info: Some(pass_info),
                render_pass_desc: Some(render_pass_desc),
                clear_values,
            },
        )
    }

    /// Create a render pass under a new name and build its cache at once
    /// (see `build_pass_cache`), so that a refused configuration is
    /// reported here. Fails with `BackendError`, changing no pass, when the
    /// name is taken or the accesses are refused.
    pub fn create_render_pass(
        &mut self,
        name: &str,
        accesses: Vec<ResourceAccess>,
        textures: &TextureTable,
    ) -> (r: Result<RenderPassKey, Error>)
        requires
            old(self).wf(),
            old(self).spec_passes().len() < slot_capacity(),
            old(self).spec_framebuffers().len() < slot_capacity(),
            textures.wf(),
        ensures
            final(self).wf(),
            final(self).same_graphs(*old(self)),
            final(self).same_resources(*old(self)),
            old(self).spec_pass_names().contains_key(name@) ==> r is Err && r->Err_0@
                == ErrorView::BackendError(msg_name_taken("RenderPass"@, name@)) && final(self).same_as(
                *old(self),
            ),
            !old(self).spec_pass_names().contains_key(name@) ==> match r {
                Err(e) => final(self).same_passes(*old(self)) && pass_cache_outcome(
                    *old(self),
                    *final(self),
                    textures@,
                    accesses@,
                    name@,
                    None,
                    Err(e),
                ),
                Ok(k) => {
                    &&& !old(self).spec_passes().contains_key(k.bits)
                    &&& canonical_key(k.bits) == k.bits
                    &&& final(self).spec_passes().dom() == old(self).spec_passes().dom().insert(k.bits)
                    &&& forall|b: u64|
                        b != k.bits ==> #[trigger] final(self).spec_passes().index(b)
                            == old(self).spec_passes().index(b)
                    &&& final(self).spec_passes()[k.bits].spec_name() == name@
                    &&& final(self).spec_passes()[k.bits].spec_accesses() == accesses@
                    &&& pass_cache_outcome(
                        *old(self),
                        *final(self),
                        textures@,
                        accesses@,
                        name@,
                        None,
                        Ok(final(self).spec_passes()[k.bits].spec_cache()),
                    )
                    &&& final(self).spec_pass_names() == old(self).spec_pass_names().insert(name@, k.bits)
                },
            },
    {
        if name_map_get(&self.pass_names, name).is_some() {
            return Err(Error::BackendError(name_taken_message("RenderPass", name)));
        }
        let cache = match self.build_pass_cache(accesses.as_slice(), name, None, textures) {
            Ok(c) => c,
            Err(e) => {
                return Err(e);
            },
        };
        let ghost mid = *self;
        let pass = RenderPass::new(String::from_str(name), accesses, cache);
        let bits = pass_slots_insert(&mut self.passes, pass);
        let key = RenderPassKey { bits };
        name_map_insert(&mut self.pass_names, name, bits);
        proof {
            lemma_keys_match_insert(mid.spec_pass_names(), mid.spec_passes().dom(), name@, bits);
            assert(self.spec_passes().dom() =~= old(self).spec_passes().dom().insert(bits));
            lemma_outcome_same_framebuffers(
                *old(self),
                mid,
                *self,
                textures@,
                accesses@,
                name@,
                None,
                Ok(self.spec_passes()[bits].spec_cache()),
            );
        }
        Ok(key)
    }

    /// Replace the graph resource of access number `access_idx` of a pass,
    /// and rebuild the pass's cache. Fails with `BackendError`, changing
    /// nothing, when the pass is not found, the index is out of bounds, or
    /// the new accesses are refused.
    pub fn set_pass_access_resource(
        &mut self,
        pass_key: RenderPassKey,
        access_idx: usize,
        gr_key: GraphResourceKey,
        textures: &TextureTable,
    ) -> (r: Result<(), Error>)
        requires
            old(self).wf(),
            old(self).spec_framebuffers().len() < slot_capacity(),
            textures.wf(),
            old(self).spec_passes().contains_key(canonical_key(pass_key.bits)) ==> generation_has_room(
                old(self).spec_passes()[canonical_key(pass_key.bits)],
            ),
        ensures
            final(self).wf(),
            access_change_outcome(
                *old(self),
                *final(self),
                "set_pass_access_resource"@,
                pass_key,
                access_idx,
                textures@,
                |a: ResourceAccess| ResourceAccess { graph_resource_key: gr_key, ..a },
                r,
            ),
    {
        let canon: u64 = pass_key.bits | 0x1_0000_0000u64;
        let accesses = match pass_slots_get(&self.passes, pass_key.bits) {
            None => {
                return Err(Error::BackendError(pass_not_found_message("set_pass_access_resource")));
            },
            Some(pass) => copy_accesses(pass.accesses()),
        };
        if access_idx >= accesses.len() {
            return Err(
                Error::BackendError(
                    out_of_bounds_message("set_pass_access_resource", access_idx, accesses.len()),
                ),
            );
        }
        let mut accesses = accesses;
        let a = accesses[access_idx];
        accesses.set(access_idx, ResourceAccess { graph_resource_key: gr_key, ..a });
        self.rebuild_pass(canon, accesses, textures)
    }

    /// Replace the target ops of access number `access_idx` of a pass, and
    /// rebuild the pass's cache (the framebuffer is found again when the
    /// attachment set is unchanged). Fails with `BackendError`, changing
    /// nothing, when the pass is not found, the index is out of bounds, or
    /// the new accesses are refused.
    pub fn set_pass_access_target_ops(
        &mut self,
        pass_key: RenderPassKey,
        access_idx: usize,
        ops: TargetOps,
        textures: &TextureTable,
    ) -> (r: Result<(), Error>)
        requires
            old(self).wf(),
            old(self).spec_framebuffers().len() < slot_capacity(),
            textures.wf(),
            old(self).spec_passes().contains_key(canonical_key(pass_key.bits)) ==> generation_has_room(
                old(self).spec_passes()[canonical_key(pass_key.bits)],
            ),
        ensures
            final(self).wf(),
            access_change_outcome(
                *old(self),
                *final(self),
                "set_pass_access_target_ops"@,
                pass_key,
                access_idx,
                textures@,
                |a: ResourceAccess| ResourceAccess { target_ops: Some(ops), ..a },
                r,
            ),
    {
        let canon: u64 = pass_key.bits | 0x1_0000_0000u64;
        let accesses = match pass_slots_get(&self.passes, pass_key.bits) {
            None => {
                return Err(Error::BackendError(pass_not_found_message("set_pass_access_target_ops")));
            },
            Some(pass) => copy_accesses(pass.accesses()),
        };
        if access_idx >= accesses.len() {
            return Err(
                Error::BackendError(
                    out_of_bounds_message("set_pass_access_target_ops", access_idx, accesses.len()),
                ),
            );
        }
        let mut accesses = accesses;
        let a = accesses[access_idx];
        accesses.set(access_idx, ResourceAccess { target_ops: Some(ops), ..a });
        self.rebuild_pass(canon, accesses, textures)
    }

    /// Replace every access of a pass at once and rebuild its cache; for
    /// changes that would pass through refused states one access at a time.
    /// Fails with `BackendError`, changing nothing, when the pass is not
    /// found or the new accesses are refused.
    pub fn replace_pass_accesses(
        &mut self,
        pass_key: RenderPassKey,
        new_accesses: Vec<ResourceAccess>,
        textures: &TextureTable,
    ) -> (r: Result<(), Error>)
        requires
            old(self).wf(),
            old(self).spec_framebuffers().len() < slot_capacity(),
            textures.wf(),
            old(self).spec_passes().contains_key(canonical_key(pass_key.bits)) ==> generation_has_room(
                old(self).spec_passes()[canonical_key(pass_key.bits)],
            ),
        ensures
            final(self).wf(),
            !old(self).spec_passes().contains_key(canonical_key(pass_key.bits)) ==> r is Err
                && r->Err_0@ == ErrorView::BackendError(msg_pass_not_found("replace_pass_accesses"@))
                && final(self).same_as(*old(self)),
            old(self).spec_passes().contains_key(canonical_key(pass_key.bits)) ==> pass_rebuilt(
                *old(self),
                *final(self),
                canonical_key(pass_key.bits),
                textures@,
                new_accesses@,
                r,
            ),
    {
        let canon: u64 = pass_key.bits | 0x1_0000_0000u64;
        match pass_slots_get(&self.passes, pass_key.bits) {
            None => {
                return Err(Error::BackendError(pass_not_found_message("replace_pass_accesses")));
            },
            Some(_) => {},
        }
        self.rebuild_pass(canon, new_accesses, textures)
    }

    /// Rebuild the cache of the pass stored under `bits` for new accesses,
    /// and store the pass with them; on failure nothing changes.
    fn rebuild_pass(&mut self, bits: u64, accesses: Vec<ResourceAccess>, textures: &TextureTable) -> (r:
        Result<(), Error>)
        requires
            old(self).wf(),
            old(self).spec_passes().contains_key(bits),
            canonical_key(bits) == bits,
            old(self).spec_framebuffers().len() < slot_capacity(),
            textures.wf(),
            generation_has_room(old(self).spec_passes()[bits]),
        ensures
            final(self).wf(),
            pass_rebuilt(*old(self), *final(self), bits, textures@, accesses@, r),
    {
        let (name, prev) = match pass_slots_get(&self.passes, bits) {
            Some(pass) => (pass.name().clone(), copy_pass_info(pass.pass_info())),
            None => {
                proof {
                    assert(false);
                }
                return Ok(());
            },
        };
        let ghost p = old(self).spec_passes()[bits];
        let cache = match &prev {
            Some(info) => self.build_pass_cache(accesses.as_slice(), name.as_str(), Some(info), textures),
            None => self.build_pass_cache(accesses.as_slice(), name.as_str(), None, textures),
        };
        proof {
            lemma_outcome_prev_views(
                *old(self),
                *self,
                textures@,
                accesses@,
                name@,
                prev,
                p.spec_cache().pass_info,
                cache,
            );
        }
        let cache = match cache {
            Ok(c) => c,
            Err(e) => {
                return Err(e);
            },
        };
        let ghost mid = *self;
        let pass = RenderPass::new(name, accesses, cache);
        pass_slots_set(&mut self.passes, bits, pass);
        proof {
            assert(self.spec_passes().dom() =~= old(self).spec_passes().dom());
            lemma_outcome_same_framebuffers(
                *old(self),
                mid,
                *self,
                textures@,
                accesses@,
                p.spec_name(),
                p.spec_cache().pass_info,
                Ok(self.spec_passes()[bits].spec_cache()),
            );
        }
        Ok(())
    }
}


/// Message: no pass is stored under the key given to an operation.
pub open spec fn msg_pass_not_found(op: Seq<char>) -> Seq<char> {
    op + ": RenderPassKey not found"@
}

/// Message: an access index past the end of a pass's accesses.
pub open spec fn msg_access_out_of_bounds(op: Seq<char>, idx: nat, count: nat) -> Seq<char> {
    op + ": access "@ + decimal(idx) + " out of bounds (count: "@ + decimal(count) + ")"@
}

/// The pass info of a pass can take one more generation.
pub open spec fn generation_has_room(p: RenderPass) -> bool {
    p.spec_cache().pass_info matches Some(i) ==> i.generation < u64::MAX
}

/// What rebuilding the pass stored under `bits` for new accesses does:
/// the cache is built as `pass_cache_outcome` says, from the pass's name
/// and previous pass info; on success the pass holds the new accesses and
/// the new cache, on failure no pass changes.
pub open spec fn pass_rebuilt(
    before: RenderGraphManager,
    after: RenderGraphManager,
    bits: u64,
    tex: Seq<(TextureKey, TextureInfo)>,
    accesses: Seq<ResourceAccess>,
    r: Result<(), Error>,
) -> bool {
    let p = before.spec_passes()[bits];
    &&& after.same_graphs(before)
    &&& after.same_resources(before)
    &&& after.spec_pass_names() == before.spec_pass_names()
    &&& match r {
        Ok(_) => {
            &&& pass_cache_outcome(
                before,
                after,
                tex,
                accesses,
                p.spec_name(),
                p.spec_cache().pass_info,
                Ok(after.spec_passes()[bits].spec_cache()),
            )
            &&& after.spec_passes().dom() == before.spec_passes().dom()
            &&& forall|b: u64|
                b != bits ==> #[trigger] after.spec_passes().index(b) == before.spec_passes().index(b)
            &&& after.spec_passes()[bits].spec_name() == p.spec_name()
            &&& after.spec_passes()[bits].spec_accesses() == accesses
        },
        Err(e) => {
            &&& pass_cache_outcome(
                before,
                after,
                tex,
                accesses,
                p.spec_name(),
                p.spec_cache().pass_info,
                Err(e),
            )
            &&& after.spec_passes() == before.spec_passes()
        },
    }
}

/// What changing access number `idx` of the pass under `key` with
/// `change` does: an error when the pass is not found or the index is out
/// of bounds, changing nothing; else the pass is rebuilt with the changed
/// access.
pub open spec fn access_change_outcome(
    before: RenderGraphManager,
    after: RenderGraphManager,
    op: Seq<char>,
    key: RenderPassKey,
    idx: usize,
    tex: Seq<(TextureKey, TextureInfo)>,
    change: spec_fn(ResourceAccess) -> ResourceAccess,
    r: Result<(), Error>,
) -> bool {
    let bits = canonical_key(key.bits);
    if !before.spec_passes().contains_key(bits) {
        r is Err && r->Err_0@ == ErrorView::BackendError(msg_pass_not_found(op)) && after.same_as(
            before,
        )
    } else {
        let accesses = before.spec_passes()[bits].spec_accesses();
        if idx >= accesses.len() {
            r is Err && r->Err_0@ == ErrorView::BackendError(
                msg_access_out_of_bounds(op, idx as nat, accesses.len()),
            ) && after.same_as(before)
        } else {
            pass_rebuilt(before, after, bits, tex, accesses.update(idx as int, change(accesses[idx as int])), r)
        }
    }
}

/// Message: no pass is stored under the key given to an operation.
fn pass_not_found_message(op: &str) -> (s: String)
    ensures
        s@ == msg_pass_not_found(op@),
{
    let mut s = String::from_str(op);
    s.append(": RenderPassKey not found");
    proof {
        reveal_strlit(": RenderPassKey not found");
    }
    s
}

/// Message: an access index past the end of a pass's accesses.
fn out_of_bounds_message(op: &str, idx: usize, count: usize) -> (s: String)
    ensures
        s@ == msg_access_out_of_bounds(op@, idx as nat, count as nat),
{
    let a = usize_to_decimal(idx);
    let b = usize_to_decimal(count);
    let mut s = String::from_str(op);
    s.append(": access ");
    s.append(a.as_str());
    s.append(" out of bounds (count: ");
    s.append(b.as_str());
    s.append(")");
    proof {
        reveal_strlit(": access ");
        reveal_strlit(" out of bounds (count: ");
        reveal_strlit(")");
    }
    s
}

/// A copy of a list of accesses.
fn copy_accesses(s: &[ResourceAccess]) -> (v: Vec<ResourceAccess>)
    ensures
        v@ == s@,
{
    let mut v: Vec<ResourceAccess> = Vec::new();
    let mut i: usize = 0;
    while i < s.len()
        invariant
            i <= s@.len(),
            v@ == s@.take(i as int),
        decreases s@.len() - i,
    {
        v.push(s[i]);
        i += 1;
        proof {
            assert(v@ =~= s@.take(i as int));
        }
    }
    proof {
        assert(s@.take(s@.len() as int) =~= s@);
    }
    v
}

/// A copy of a pass info.
fn copy_pass_info(info: Option<&PassInfo>) -> (r: Option<PassInfo>)
    ensures
        r is Some <==> info is Some,
        r matches Some(c) ==> c.color_formats@ == info->0.color_formats@ && c.depth_format
            == info->0.depth_format && c.sample_count == info->0.sample_count && c.generation
            == info->0.generation,
{
    match info {
        Some(i) => {
            let mut formats: Vec<u32> = Vec::new();
            let mut k: usize = 0;
            while k < i.color_formats.len()
                invariant
                    k <= i.color_formats@.len(),
                    formats@ == i.color_formats@.take(k as int),
                decreases i.color_formats@.len() - k,
            {
                formats.push(i.color_formats[k]);
                k += 1;
                proof {
                    assert(formats@ =~= i.color_formats@.take(k as int));
                }
            }
            proof {
                assert(i.color_formats@.take(i.color_formats@.len() as int) =~= i.color_formats@);
            }
            Some(
                PassInfo {
                    color_formats: formats,
                    depth_format: i.depth_format,
                    sample_count: i.sample_count,
                    generation: i.generation,
                },
            )
        },
        None => None,
    }
}

/// Two pass infos that agree on formats, sample count and generation
/// lead to the same outcome.
proof fn lemma_outcome_prev_views(
    before: RenderGraphManager,
    after: RenderGraphManager,
    tex: Seq<(TextureKey, TextureInfo)>,
    accesses: Seq<ResourceAccess>,
    name: Seq<char>,
    a: Option<PassInfo>,
    b: Option<PassInfo>,
    r: Result<PassCache, Error>,
)
    requires
        a is Some <==> b is Some,
        a matches Some(x) ==> x.color_formats@ == b->0.color_formats@ && x.depth_format
            == b->0.depth_format && x.sample_count == b->0.sample_count && x.generation
            == b->0.generation,
        pass_cache_outcome(before, after, tex, accesses, name, a, r),
    ensures
        pass_cache_outcome(before, after, tex, accesses, name, b, r),
{
}

/// The outcome speaks only of the framebuffers of the state after, so a
/// state with the same framebuffers has the same outcome.
proof fn lemma_outcome_same_framebuffers(
    before: RenderGraphManager,
    mid: RenderGraphManager,
    after: RenderGraphManager,
    tex: Seq<(TextureKey, TextureInfo)>,
    accesses: Seq<ResourceAccess>,
    name: Seq<char>,
    prev: Option<PassInfo>,
    r: Result<PassCache, Error>,
)
    requires
        pass_cache_outcome(before, mid, tex, accesses, name, prev, r),
        after.same_framebuffers(mid),
    ensures
        pass_cache_outcome(before, after, tex, accesses, name, prev, r),
{
}


/// Formats of the color attachments of a walk, in order.
pub open spec fn walk_color_formats(w: PassWalk) -> Seq<u32> {
    w.color_descs.map_values(|d: AttachmentDesc| d.format)
}

/// Format of the depth/stencil attachment of a walk.
pub open spec fn walk_depth_format(w: PassWalk) -> Option<u32> {
    match w.depth_desc {
        Some(d) => Some(d.format),
        None => None,
    }
}

/// Sample count of the attachments of a walk (1 when there are none).
pub open spec fn walk_sample_count(w: PassWalk) -> u32 {
    match w.sample_count {
        Some(c) => c,
        None => 1,
    }
}

/// The pass info of a walk: its formats and sample count, under the
/// previous generation when they are those of `prev`, else the next one
/// (1 without a previous pass info).
pub open spec fn pass_info_for(info: PassInfo, w: PassWalk, prev: Option<PassInfo>) -> bool {
    &&& info.color_formats@ == walk_color_formats(w)
    &&& info.depth_format == walk_depth_format(w)
    &&& info.sample_count == walk_sample_count(w)
    &&& info.generation == match prev {
        None => 1,
        Some(p) => if p.color_formats@ == walk_color_formats(w) && p.depth_format == walk_depth_format(w)
            && p.sample_count == walk_sample_count(w) {
            p.generation as int
        } else {
            p.generation + 1
        },
    }
}

/// The cache of a pass with attachments, built from its walk.
pub open spec fn cache_for(c: PassCache, w: PassWalk, prev: Option<PassInfo>) -> bool {
    &&& c.framebuffer_key is Some
    &&& c.pass_info matches Some(info) && pass_info_for(info, w, prev)
    &&& c.render_pass_desc matches Some(d) && d.color_attachments@ == w.color_descs
        && d.depth_stencil_attachment == w.depth_desc && d.color_resolve_attachments@
        == w.resolve_descs
    &&& c.clear_values@ == walk_clear_values(w)
}

/// The cache of a pass without attachments.
pub open spec fn cache_is_empty(c: PassCache) -> bool {
    c.framebuffer_key is None && c.pass_info is None && c.render_pass_desc is None
        && c.clear_values@.len() == 0
}

/// The framebuffer key of a cache, or the error that stopped it.
pub open spec fn cache_key(r: Result<PassCache, Error>) -> Result<FramebufferKey, Error> {
    match r {
        Ok(c) => Ok(c.framebuffer_key->0),
        Err(e) => Err(e),
    }
}

/// What building the cache of a pass named `name` with these accesses
/// does to the framebuffers, and what it returns: the error of the first
/// refused access; an empty cache when nothing is attached; else the
/// framebuffer for the attachments (found or built, see
/// `framebuffer_outcome`) and the cache built around it.
pub open spec fn pass_cache_outcome(
    before: RenderGraphManager,
    after: RenderGraphManager,
    tex: Seq<(TextureKey, TextureInfo)>,
    accesses: Seq<ResourceAccess>,
    name: Seq<char>,
    prev: Option<PassInfo>,
    r: Result<PassCache, Error>,
) -> bool {
    match pass_walk(before.spec_resources(), tex, accesses) {
        Err(e) => r is Err && r->Err_0@ == ErrorView::BackendError(pass_error_text(name, e))
            && after.same_framebuffers(before),
        Ok(w) => if walk_is_empty(w) {
            r is Ok && cache_is_empty(r->Ok_0) && after.same_framebuffers(before)
        } else {
            &&& framebuffer_outcome(before, after, tex, w.color_slots, w.depth_key, cache_key(r))
            &&& r is Ok ==> cache_for(r->Ok_0, w, prev)
        },
    }
}

/// Texture properties behind a graph resource key, for an attachment of
/// the given role.
fn resolve_texture_info(
    res: &GraphResourceSlots,
    tex: &TextureTable,
    key: GraphResourceKey,
    role: AttachmentRole,
) -> (r: Result<TextureInfo, PassError>)
    requires
        tex.wf(),
    ensures
        r == texture_for(graph_resource_slots(*res), tex@, key, role),
{
    match attachment_lookup(res, tex, key) {
        Ok((_, info)) => Ok(info),
        Err(f) => Err(PassError::Lookup(role, f)),
    }
}

/// Every attachment of a pass shares one sample count.
fn check_sample_count(sample_count: &mut Option<u32>, candidate: u32) -> (r: Result<(), PassError>)
    ensures
        match sample_step(*old(sample_count), candidate) {
            Ok(c) => r is Ok && *final(sample_count) == c,
            Err(e) => r == Err::<(), PassError>(e),
        },
{
    match *sample_count {
        None => {
            *sample_count = Some(candidate);
        },
        Some(existing) => {
            if existing != candidate {
                return Err(PassError::SampleCountMismatch { expected: existing, found: candidate });
            }
        },
    }
    Ok(())
}

/// Formats of a list of attachment descriptions.
fn formats_of(descs: &Vec<AttachmentDesc>) -> (v: Vec<u32>)
    ensures
        v@ == descs@.map_values(|d: AttachmentDesc| d.format),
{
    let mut v: Vec<u32> = Vec::new();
    let mut i: usize = 0;
    while i < descs.len()
        invariant
            i <= descs@.len(),
            v@ == descs@.take(i as int).map_values(|d: AttachmentDesc| d.format),
        decreases descs@.len() - i,
    {
        v.push(descs[i].format);
        i += 1;
        proof {
            assert(v@ =~= descs@.take(i as int).map_values(|d: AttachmentDesc| d.format));
        }
    }
    proof {
        assert(descs@.take(descs@.len() as int) =~= descs@);
    }
    v
}

/// Whether two format lists are equal.
fn same_formats(a: &Vec<u32>, b: &Vec<u32>) -> (r: bool)
    ensures
        r == (a@ == b@),
{
    if a.len() != b.len() {
        return false;
    }
    let mut i: usize = 0;
    while i < a.len()
        invariant
            i <= a@.len(),
            a@.len() == b@.len(),
            forall|j: int| 0 <= j < i ==> a@[j] == b@[j],
        decreases a@.len() - i,
    {
        if a[i] != b[i] {
            return false;
        }
        i += 1;
    }
    assert(a@ =~= b@);
    true
}

/// Once the walk of a prefix of the accesses fails, the walk of all of
/// them fails the same way.
proof fn lemma_pass_fold_err(
    res: Map<u64, GraphResource>,
    tex: Seq<(TextureKey, TextureInfo)>,
    accesses: Seq<ResourceAccess>,
    i: int,
)
    requires
        0 <= i < accesses.len(),
        pass_fold(res, tex, accesses.take(i + 1)) is Err,
    ensures
        pass_fold(res, tex, accesses) == pass_fold(res, tex, accesses.take(i + 1)),
        pass_walk(res, tex, accesses) == pass_fold(res, tex, accesses.take(i + 1)),
    decreases accesses.len() - i,
{
    if i + 1 == accesses.len() {
        assert(accesses.take(i + 1) =~= accesses);
    } else {
        assert(accesses.take(i + 2).drop_last() =~= accesses.take(i + 1));
        lemma_pass_fold_err(res, tex, accesses, i + 1);
    }
}

} // verus!
