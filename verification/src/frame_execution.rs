//! Planning a frame of a render graph over the manager's passes.

use vstd::prelude::*;
use vstd::string::*;
use crate::attachments::resource_at;
use crate::error::{Error, ErrorView};
use crate::graph_resource::{BufferSubRange, GraphResource, ImageSubRange};
use crate::keys::{GraphResourceKey, RenderGraphKey, RenderPassKey, TextureKey};
use crate::pass_order::{targets_overlap, AccessTarget, ResolvedAccess};
use crate::access_type::AccessType;
use crate::render_graph::{access_records, frame_planned, FramePlan};
use crate::render_graph_manager::RenderGraphManager;
use crate::render_pass::{ResourceAccess, TargetOps};
use crate::slots::{
    canonical_key, graph_resource_slots, graph_slots_get, graph_slots_set, pass_slots_get,
    resource_slots_get, GraphResourceSlots,
};

verus! {

impl RenderGraphManager {
    /// Plan one frame of a render graph over the given passes, in the
    /// order the passes are listed (see `RenderGraph::plan_frame`): each
    /// access is resolved through the graph resources to the GPU resource
    /// and sub-range it reaches, and a color access with a texture resolve
    /// target also records a color write of that target.
    ///
    /// Fails with `BackendError`, changing nothing, when the graph or one
    /// of the passes is not found; a cycle among the passes fails as
    /// `plan_frame` says. Only the planned graph changes.
    #[verifier::loop_isolation(false)]
    pub fn execute_render_graph(&mut self, graph_key: RenderGraphKey, passes: &[RenderPassKey]) -> (r:
        Result<FramePlan, Error>)
        requires
            old(self).wf(),
        ensures
            final(self).wf(),
            final(self).same_passes(*old(self)),
            final(self).same_resources(*old(self)),
            final(self).same_framebuffers(*old(self)),
            final(self).spec_graph_names() == old(self).spec_graph_names(),
            !old(self).spec_graphs().contains_key(canonical_key(graph_key.bits)) ==> r is Err
                && r->Err_0@ == ErrorView::BackendError(
                "execute_render_graph: RenderGraphKey not found"@,
            ) && final(self).same_as(*old(self)),
            old(self).spec_graphs().contains_key(canonical_key(graph_key.bits)) && !all_passes_stored(
                *old(self),
                passes@,
            ) ==> r is Err && r->Err_0@ == ErrorView::BackendError(
                msg_pass_missing(old(self).spec_graphs()[canonical_key(graph_key.bits)].spec_name()),
            ) && final(self).same_as(*old(self)),
            old(self).spec_graphs().contains_key(canonical_key(graph_key.bits)) && all_passes_stored(
                *old(self),
                passes@,
            ) ==> {
                let bits = canonical_key(graph_key.bits);
                &&& final(self).spec_graphs().dom() == old(self).spec_graphs().dom()
                &&& forall|b: u64|
                    b != bits ==> #[trigger] final(self).spec_graphs().index(b)
                        == old(self).spec_graphs().index(b)
                &&& exists|acc: Seq<Vec<ResolvedAccess>>, rs: Seq<Vec<Option<(TextureKey, ImageSubRange)>>>|
                    #[trigger] frame_inputs(*old(self), passes@, acc, rs) && frame_planned(
                        old(self).spec_graphs()[bits],
                        final(self).spec_graphs()[bits],
                        acc,
                        rs,
                        r,
                    )
            },
    {
        let graph = match graph_slots_get(&self.graphs, graph_key.bits) {
            Some(g) => g,
            None => {
                proof {
                    reveal_strlit("execute_render_graph: RenderGraphKey not found");
                }
                return Err(
                    Error::BackendError(
                        String::from_str("execute_render_graph: RenderGraphKey not found"),
                    ),
                );
            },
        };
        let ghost res = self.spec_resources();
        // Every pass must be stored; resolve every access to its GPU target.
        let mut accesses: Vec<Vec<ResolvedAccess>> = Vec::new();
        let mut resolves: Vec<Vec<Option<(TextureKey, ImageSubRange)>>> = Vec::new();
        let mut p: usize = 0;
        while p < passes.len()
            invariant
                p <= passes@.len(),
                res == self.spec_resources(),
                forall|j: int|
                    0 <= j < p ==> #[trigger] self.spec_passes().contains_key(
                        canonical_key(passes@[j].bits),
                    ),
                accesses@.len() == p,
                resolves@.len() == p,
                forall|j: int|
                    0 <= j < p ==> (#[trigger] accesses@[j])@ == resolved_pass(
                        res,
                        self.spec_passes()[canonical_key(passes@[j].bits)].spec_accesses(),
                    ),
                forall|j: int|
                    0 <= j < p ==> (#[trigger] resolves@[j])@ == resolve_records(
                        res,
                        self.spec_passes()[canonical_key(passes@[j].bits)].spec_accesses(),
                    ),
            decreases passes@.len() - p,
        {
            let pass = match pass_slots_get(&self.passes, passes[p].bits) {
                Some(x) => x,
                None => {
                    let mut msg = String::from_str("RenderGraph '");
                    msg.append(graph.name().as_str());
                    msg.append("': RenderPassKey not found");
                    proof {
                        reveal_strlit("RenderGraph '");
                        reveal_strlit("': RenderPassKey not found");
                    }
                    return Err(Error::BackendError(msg));
                },
            };
            let list = pass.accesses();
            let mut acc: Vec<ResolvedAccess> = Vec::new();
            let mut rs: Vec<Option<(TextureKey, ImageSubRange)>> = Vec::new();
            let mut k: usize = 0;
            while k < list.len()
                invariant
                    k <= list@.len(),
                    acc@ == resolved_pass(res, list@.take(k as int)),
                    rs@ == resolve_records(res, list@.take(k as int)),
                    res == graph_resource_slots(self.graph_resources),
                decreases list@.len() - k,
            {
                let a = list[k];
                acc.push(
                    ResolvedAccess {
                        target: resolve_access_target(&self.graph_resources, a.graph_resource_key),
                        access_type: a.access_type,
                    },
                );
                let record = match a.target_ops {
                    Some(TargetOps::Color { resolve_target: Some(rt), .. }) => {
                        match resolve_access_target(&self.graph_resources, rt) {
                            AccessTarget::Image { texture_key, range } => Some((texture_key, range)),
                            _ => None,
                        }
                    },
                    _ => None,
                };
                rs.push(record);
                proof {
                    assert(acc@ =~= resolved_pass(res, list@.take(k as int + 1)));
                    assert(rs@ =~= resolve_records(res, list@.take(k as int + 1)));
                }
                k += 1;
            }
            proof {
                assert(list@.take(list@.len() as int) =~= list@);
            }
            accesses.push(acc);
            resolves.push(rs);
            p += 1;
        }
        let ghost bits = canonical_key(graph_key.bits);
        let ghost g0 = old(self).spec_graphs()[bits];
        proof {
            assert(g0.wf());
        }
        let mut planned = graph.duplicate();
        let r = planned.plan_frame(&accesses, &resolves);
        let ghost g1 = planned;
        graph_slots_set(&mut self.graphs, graph_key.bits, planned);
        proof {
            assert(self.spec_graphs().dom() =~= old(self).spec_graphs().dom());
            assert(frame_inputs(*old(self), passes@, accesses@, resolves@));
            assert(frame_planned(g0, self.spec_graphs()[bits], accesses@, resolves@, r));
        }
        r
    }
}

/// Message: a pass given to a graph is not stored.
pub open spec fn msg_pass_missing(graph_name: Seq<char>) -> Seq<char> {
    "RenderGraph '"@ + graph_name + "': RenderPassKey not found"@
}

/// Every listed pass key designates a stored pass.
pub open spec fn all_passes_stored(m: RenderGraphManager, keys: Seq<RenderPassKey>) -> bool {
    forall|j: int| 0 <= j < keys.len() ==> #[trigger] m.spec_passes().contains_key(canonical_key(keys[j].bits))
}

/// The GPU resource and sub-range a graph resource key reaches.
pub open spec fn resolved_target(res: Map<u64, GraphResource>, key: GraphResourceKey) -> AccessTarget {
    match resource_at(res, key) {
        Some(GraphResource::Texture { texture_key, base_mip_level, mip_count, base_array_layer, layer_count }) =>
            AccessTarget::Image {
            texture_key,
            range: ImageSubRange { base_mip_level, mip_count, base_array_layer, layer_count },
        },
        Some(GraphResource::Buffer { buffer_key, offset, size }) => AccessTarget::Buffer {
            buffer_key,
            range: BufferSubRange { offset, size },
        },
        None => AccessTarget::Unresolved,
    }
}

/// The accesses of a pass, resolved to their GPU targets.
pub open spec fn resolved_pass(res: Map<u64, GraphResource>, accesses: Seq<ResourceAccess>) -> Seq<
    ResolvedAccess,
> {
    accesses.map_values(
        |a: ResourceAccess|
            ResolvedAccess { target: resolved_target(res, a.graph_resource_key), access_type: a.access_type },
    )
}

/// The texture view a color access also writes at the end of its pass:
/// its resolve target, when that is a texture graph resource.
pub open spec fn resolve_record(res: Map<u64, GraphResource>, a: ResourceAccess) -> Option<
    (TextureKey, ImageSubRange),
> {
    match a.target_ops {
        Some(TargetOps::Color { resolve_target: Some(rt), .. }) => match resolved_target(res, rt) {
            AccessTarget::Image { texture_key, range } => Some((texture_key, range)),
            _ => None,
        },
        _ => None,
    }
}

/// The resolve writes of the accesses of a pass.
pub open spec fn resolve_records(res: Map<u64, GraphResource>, accesses: Seq<ResourceAccess>) -> Seq<
    Option<(TextureKey, ImageSubRange)>,
> {
    accesses.map_values(|a: ResourceAccess| resolve_record(res, a))
}

/// `acc` and `rs` hold, for each listed pass, its resolved accesses and
/// their resolve writes.
pub open spec fn frame_inputs(
    m: RenderGraphManager,
    keys: Seq<RenderPassKey>,
    acc: Seq<Vec<ResolvedAccess>>,
    rs: Seq<Vec<Option<(TextureKey, ImageSubRange)>>>,
) -> bool {
    &&& acc.len() == keys.len()
    &&& rs.len() == keys.len()
    &&& forall|j: int|
        0 <= j < keys.len() ==> (#[trigger] acc[j])@ == resolved_pass(
            m.spec_resources(),
            m.spec_passes()[canonical_key(keys[j].bits)].spec_accesses(),
        )
    &&& forall|j: int|
        0 <= j < keys.len() ==> (#[trigger] rs[j])@ == resolve_records(
            m.spec_resources(),
            m.spec_passes()[canonical_key(keys[j].bits)].spec_accesses(),
        )
}

/// The GPU resource and sub-range a graph resource key reaches.
fn resolve_access_target(res: &GraphResourceSlots, key: GraphResourceKey) -> (t: AccessTarget)
    ensures
        t == resolved_target(graph_resource_slots(*res), key),
{
    match resource_slots_get(res, key.bits) {
        Some(g) => match *g {
            GraphResource::Texture { texture_key, base_mip_level, mip_count, base_array_layer, layer_count } =>
                AccessTarget::Image {
                texture_key,
                range: ImageSubRange { base_mip_level, mip_count, base_array_layer, layer_count },
            },
            GraphResource::Buffer { buffer_key, offset, size } => AccessTarget::Buffer {
                buffer_key,
                range: BufferSubRange { offset, size },
            },
        },
        None => AccessTarget::Unresolved,
    }
}

/// An access to a texture graph resource reaches that texture on the
/// resource's own mip and layer range; an access to a buffer graph
/// resource reaches that buffer on the resource's own byte range.
pub proof fn law_access_reaches_its_resource_range(res: Map<u64, GraphResource>, key: GraphResourceKey)
    requires
        res.contains_key(canonical_key(key.bits)),
    ensures
        res[canonical_key(key.bits)] matches GraphResource::Texture {
            texture_key,
            base_mip_level,
            mip_count,
            base_array_layer,
            layer_count,
        } ==> resolved_target(res, key) == (AccessTarget::Image {
            texture_key,
            range: ImageSubRange { base_mip_level, mip_count, base_array_layer, layer_count },
        }),
        res[canonical_key(key.bits)] matches GraphResource::Buffer { buffer_key, offset, size }
            ==> resolved_target(res, key) == (AccessTarget::Buffer {
            buffer_key,
            range: BufferSubRange { offset, size },
        }),
{
}

/// Accesses to two views of one texture whose mip ranges are disjoint
/// (the first ends, without reaching the last mip, before the second
/// begins) reach no common subresource, so they order no pass before the
/// other; e.g. mip 0 and mip 1 of a mip chain.
pub proof fn law_disjoint_mips_do_not_meet(
    res: Map<u64, GraphResource>,
    ka: GraphResourceKey,
    kb: GraphResourceKey,
)
    requires
        res.contains_key(canonical_key(ka.bits)),
        res.contains_key(canonical_key(kb.bits)),
        res[canonical_key(ka.bits)] is Texture,
        res[canonical_key(kb.bits)] is Texture,
        res[canonical_key(ka.bits)]->Texture_texture_key == res[canonical_key(kb.bits)]->Texture_texture_key,
        res[canonical_key(ka.bits)]->Texture_mip_count != 0xFFFF_FFFFu32,
        res[canonical_key(ka.bits)]->Texture_base_mip_level as int + res[canonical_key(
            ka.bits,
        )]->Texture_mip_count as int <= res[canonical_key(kb.bits)]->Texture_base_mip_level as int,
    ensures
        !targets_overlap(resolved_target(res, ka), resolved_target(res, kb)),
        !targets_overlap(resolved_target(res, kb), resolved_target(res, ka)),
{
}

/// The resolved accesses of a pass are its accesses, one for one and in
/// order, each with its own access type and the target its graph resource
/// reaches.
pub proof fn law_resolved_pass_follows_accesses(res: Map<u64, GraphResource>, accesses: Seq<ResourceAccess>)
    ensures
        resolved_pass(res, accesses).len() == accesses.len(),
        forall|i: int|
            0 <= i < accesses.len() ==> (#[trigger] resolved_pass(res, accesses)[i]).access_type
                == accesses[i].access_type && resolved_pass(res, accesses)[i].target == resolved_target(
                res,
                accesses[i].graph_resource_key,
            ),
        resolve_records(res, accesses).len() == accesses.len(),
{
}

/// A color access with a texture resolve target also writes that
/// texture's view at the end of its pass: the frame's history records a
/// color-attachment write of the resolve target's own range right after
/// the access itself.
pub proof fn law_resolve_target_is_written(
    res: Map<u64, GraphResource>,
    a: ResourceAccess,
    rt: GraphResourceKey,
)
    requires
        a.target_ops matches Some(TargetOps::Color { resolve_target: Some(k), .. }) && k == rt,
        res.contains_key(canonical_key(rt.bits)),
        res[canonical_key(rt.bits)] is Texture,
    ensures
        ({
            let g = res[canonical_key(rt.bits)];
            let written = AccessTarget::Image {
                texture_key: g->Texture_texture_key,
                range: ImageSubRange {
                    base_mip_level: g->Texture_base_mip_level,
                    mip_count: g->Texture_mip_count,
                    base_array_layer: g->Texture_base_array_layer,
                    layer_count: g->Texture_layer_count,
                },
            };
            let recs = access_records(
                ResolvedAccess {
                    target: resolved_target(res, a.graph_resource_key),
                    access_type: a.access_type,
                },
                resolve_record(res, a),
            );
            &&& recs.len() > 0
            &&& recs.last() == (written, AccessType::ColorAttachmentWrite)
        }),
{
}

} // verus!
