//! What holds of the render graph manager across its operations.

use vstd::prelude::*;
use crate::frame_buffer::{ColorAttachmentSlot, TextureInfo};
use crate::attachments::{color_target_ops, law_color_attachments_keep_their_ops, PassWalk};
use crate::framebuffer_cache::{framebuffer_outcome, lookup_framebuffer};
use crate::pass_cache::{
    pass_cache_outcome, pass_info_for, walk_color_formats, walk_depth_format, walk_sample_count,
};
use crate::render_pass::{PassCache, PassInfo, ResourceAccess};
use crate::graph_resource::GraphResource;
use crate::keys::{FramebufferKey, GraphResourceKey, TextureKey, NULL_KEY_BITS};
use crate::render_graph_manager::{lemma_keys_match_len, named, RenderGraphManager};
use crate::slots::canonical_key;

verus! {

/// A graph resource just created is found again: its name leads to its
/// key, its key to the resource, and every other name leads where it did.
pub proof fn law_created_resource_is_found(
    before: RenderGraphManager,
    after: RenderGraphManager,
    name: Seq<char>,
    resource: GraphResource,
    k: GraphResourceKey,
)
    requires
        before.wf(),
        !before.spec_resource_names().contains_key(name),
        canonical_key(k.bits) == k.bits,
        after.spec_resources() == before.spec_resources().insert(k.bits, resource),
        after.spec_resource_names() == before.spec_resource_names().insert(name, k.bits),
    ensures
        named(after.spec_resource_names(), name) == Some(k.bits),
        after.resource_of(k) == Some(resource),
        forall|other: Seq<char>|
            other != name ==> #[trigger] named(after.spec_resource_names(), other) == named(
                before.spec_resource_names(),
                other,
            ),
{
}

/// Once a graph resource is removed, its key finds nothing and no name
/// leads to it.
pub proof fn law_removed_resource_is_gone(after: RenderGraphManager, key: GraphResourceKey)
    requires
        after.wf(),
        !after.spec_resources().contains_key(canonical_key(key.bits)),
    ensures
        after.resource_of(key) is None,
        forall|name: Seq<char>|
            #[trigger] after.spec_resource_names().contains_key(name) ==> after.spec_resource_names()[name]
                != canonical_key(key.bits),
{
}

/// A framebuffer handed out for an attachment set is handed out again
/// for the same set: a second request finds it, returns the same key and
/// changes nothing.
pub proof fn law_framebuffer_is_reused(
    before: RenderGraphManager,
    after: RenderGraphManager,
    tex: Seq<(TextureKey, TextureInfo)>,
    slots: Seq<ColorAttachmentSlot>,
    depth: Option<GraphResourceKey>,
    k: FramebufferKey,
)
    requires
        framebuffer_outcome(before, after, tex, slots, depth, Ok(k)),
    ensures
        lookup_framebuffer(after.spec_lookup(), slots, depth) == Some(k),
        framebuffer_outcome(after, after, tex, slots, depth, Ok(k)),
{
}

/// The framebuffer the lookup map holds for an attachment set was built
/// from that set.
pub proof fn law_found_framebuffer_matches(
    m: RenderGraphManager,
    slots: Seq<ColorAttachmentSlot>,
    depth: Option<GraphResourceKey>,
)
    requires
        m.wf(),
        lookup_framebuffer(m.spec_lookup(), slots, depth) is Some,
    ensures
        ({
            let k = lookup_framebuffer(m.spec_lookup(), slots, depth)->0;
            &&& m.spec_framebuffers().contains_key(k.bits)
            &&& m.spec_framebuffers()[k.bits].spec_color_attachments() == slots
            &&& m.spec_framebuffers()[k.bits].spec_depth_stencil_attachment() == depth
        }),
{
    assert(m.spec_lookup().contains_key((slots, depth)));
}

/// Once a framebuffer is removed, no attachment set leads to it any more:
/// the next request for its set builds a new one.
pub proof fn law_removed_framebuffer_is_not_reused(
    after: RenderGraphManager,
    key: FramebufferKey,
    slots: Seq<ColorAttachmentSlot>,
    depth: Option<GraphResourceKey>,
)
    requires
        after.wf(),
        !after.spec_framebuffers().contains_key(canonical_key(key.bits)),
    ensures
        lookup_framebuffer(after.spec_lookup(), slots, depth) matches Some(k) ==> k.bits
            != canonical_key(key.bits),
{
    if lookup_framebuffer(after.spec_lookup(), slots, depth) is Some {
        assert(after.spec_lookup().contains_key((slots, depth)));
    }
}

/// Each collection holds as many objects as it has names (framebuffers:
/// attachment sets).
pub proof fn law_counts_match_names(m: RenderGraphManager)
    requires
        m.wf(),
    ensures
        m.spec_graphs().len() == m.spec_graph_names().dom().len(),
        m.spec_passes().len() == m.spec_pass_names().dom().len(),
        m.spec_resources().len() == m.spec_resource_names().dom().len(),
        m.spec_framebuffers().len() == m.spec_lookup().dom().len(),
{
    lemma_keys_match_len(m.spec_graph_names(), m.spec_graphs().dom());
    lemma_keys_match_len(m.spec_pass_names(), m.spec_passes().dom());
    lemma_keys_match_len(m.spec_resource_names(), m.spec_resources().dom());
    lemma_keys_match_len(m.spec_lookup(), m.spec_framebuffers().dom());
}

/// A rebuilt pass info carries the formats and sample count of the pass's
/// attachments; it keeps the previous generation when those are unchanged
/// and takes a strictly greater one otherwise.
pub proof fn law_pass_info_generation(info: PassInfo, w: PassWalk, prev: PassInfo)
    requires
        pass_info_for(info, w, Some(prev)),
    ensures
        info.color_formats@ == walk_color_formats(w),
        info.depth_format == walk_depth_format(w),
        info.sample_count == walk_sample_count(w),
        prev.color_formats@ == info.color_formats@ && prev.depth_format == info.depth_format
            && prev.sample_count == info.sample_count ==> info.generation == prev.generation,
        !(prev.color_formats@ == info.color_formats@ && prev.depth_format == info.depth_format
            && prev.sample_count == info.sample_count) ==> info.generation > prev.generation,
{
}

/// The null key (the default of every key type) designates nothing in the
/// manager: no graph, pass, graph resource or framebuffer is stored under
/// it, so every lookup, change or frame given a null key is refused.
pub proof fn law_null_key_names_nothing(m: RenderGraphManager)
    requires
        m.wf(),
    ensures
        !m.spec_graphs().contains_key(canonical_key(NULL_KEY_BITS)),
        !m.spec_passes().contains_key(canonical_key(NULL_KEY_BITS)),
        !m.spec_resources().contains_key(canonical_key(NULL_KEY_BITS)),
        !m.spec_framebuffers().contains_key(canonical_key(NULL_KEY_BITS)),
{
    let b = canonical_key(NULL_KEY_BITS);
    assert(b == 0x1_FFFF_FFFFu64) by (bit_vector)
        requires
            b == (0x1_FFFF_FFFFu64 | 0x1_0000_0000u64),
    ;
    assert(b % 0x1_0000_0000 == 0xFFFF_FFFF);
    if m.spec_graphs().contains_key(b) {
        let k = choose|k: Seq<char>| #[trigger] m.spec_graph_names().contains_key(k) && m.spec_graph_names()[k] == b;
    }
    if m.spec_passes().contains_key(b) {
        let k = choose|k: Seq<char>| #[trigger] m.spec_pass_names().contains_key(k) && m.spec_pass_names()[k] == b;
    }
    if m.spec_resources().contains_key(b) {
        let k = choose|k: Seq<char>| #[trigger] m.spec_resource_names().contains_key(k) && m.spec_resource_names()[k] == b;
    }
    if m.spec_framebuffers().contains_key(b) {
        let k = choose|k: (Seq<ColorAttachmentSlot>, Option<GraphResourceKey>)| #[trigger] m.spec_lookup().contains_key(k) && m.spec_lookup()[k] == b;
    }
}

/// A pass cache built with a render pass describes each color attachment
/// with the load and store ops its access asked for, in declaration order
/// (e.g. a pass whose color access loads keeps the attachment's content).
pub proof fn law_cache_keeps_color_ops(
    before: RenderGraphManager,
    after: RenderGraphManager,
    tex: Seq<(TextureKey, TextureInfo)>,
    accesses: Seq<ResourceAccess>,
    name: Seq<char>,
    prev: Option<PassInfo>,
    c: PassCache,
)
    requires
        pass_cache_outcome(before, after, tex, accesses, name, prev, Ok(c)),
        c.render_pass_desc is Some,
    ensures
        ({
            let d = c.render_pass_desc->0.color_attachments@;
            &&& d.len() == color_target_ops(accesses).len()
            &&& forall|k: int|
                0 <= k < d.len() ==> ((#[trigger] d[k]).load_op, d[k].store_op) == color_target_ops(accesses)[k]
        }),
{
    law_color_attachments_keep_their_ops(before.spec_resources(), tex, accesses);
}

} // verus!
