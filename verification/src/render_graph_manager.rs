//! Central render graph manager.
//!
//! Owns four collections: render graphs, render passes, graph resources and
//! framebuffers. The first three are stored under keys and found again by
//! name; framebuffers have no name and are shared through a lookup map
//! keyed by their exact attachment set.
//!
//! Passes are eager: their cache (framebuffer, render-pass description,
//! pass info, clear values) is rebuilt by every call that changes their
//! accesses, so a refused configuration is reported by that call (see
//! `pass_cache`). Framebuffers are built and shared in `framebuffer_cache`,
//! and frames are planned in `frame_execution`.

use vstd::prelude::*;
use vstd::string::*;
use vstd::set_lib::lemma_map_size;
use crate::attachments::resource_at;
use crate::error::{Error, ErrorView};
use crate::frame_buffer::{ColorAttachmentSlot, Framebuffer};
use crate::graph_resource::GraphResource;
use crate::keys::{GraphResourceKey, RenderGraphKey, RenderPassKey};
use crate::name_maps::{
    framebuffer_lookup, lookup_clear, lookup_new, name_map, name_map_clear, name_map_get,
    name_map_insert, name_map_new, name_map_remove, name_map_retain_other, FramebufferLookup,
    NameMap,
};
use crate::command_lists::{CommandListSource, CreationLog};
use crate::render_graph::{create_command_lists, ring_created, RenderGraph};
use crate::render_pass::RenderPass;
use crate::slots::{
    canonical_key, framebuffer_slots, framebuffer_slots_clear, framebuffer_slots_new,
    graph_resource_slots, graph_slots_clear, graph_slots_get, graph_slots_insert, graph_slots_len,
    graph_slots_new, no_slots, pass_slots_clear, pass_slots_get, pass_slots_len, pass_slots_new,
    render_graph_slots, render_pass_slots, resource_slots_clear, resource_slots_get,
    resource_slots_insert, resource_slots_len, resource_slots_new, resource_slots_remove,
    slot_capacity, FramebufferSlots,
    GraphResourceSlots, RenderGraphSlots, RenderPassSlots,
};

verus! {

/// Message: an object of the given kind already carries the name.
pub open spec fn msg_name_taken(kind: Seq<char>, name: Seq<char>) -> Seq<char> {
    kind + " '"@ + name + "' already exists"@
}

/// A map to keys and the keys of a slot map correspond one to one: every
/// key of the map is stored, in canonical form and with an index other than
/// the null key's, every stored key is in the map, and no key is in the map
/// twice.
pub open spec fn keys_match<K>(names: Map<K, u64>, dom: Set<u64>) -> bool {
    &&& dom.finite()
    &&& names.dom().finite()
    &&& forall|k: K| #[trigger] names.contains_key(k) ==> dom.contains(names[k])
    &&& forall|k: K| #[trigger] names.contains_key(k) ==> canonical_key(names[k]) == names[k]
    &&& forall|k: K| #[trigger] names.contains_key(k) ==> names[k] % 0x1_0000_0000 != 0xFFFF_FFFF
    &&& forall|b: u64| #[trigger] dom.contains(b) ==> exists|k: K| #[trigger] names.contains_key(k) && names[k] == b
    &&& forall|k1: K, k2: K|
        #[trigger] names.contains_key(k1) && #[trigger] names.contains_key(k2) && names[k1] == names[k2]
            ==> k1 == k2
}

/// The key a name designates, if any, in its 64-bit form.
pub open spec fn named(names: Map<Seq<char>, u64>, name: Seq<char>) -> Option<u64> {
    if names.contains_key(name) {
        Some(names[name])
    } else {
        None
    }
}

/// `after` is `before` with one more render graph, stored under the fresh
/// key `k` and named `name`, with a ring of `frames` slots whose current
/// slot is the last one; nothing else changed.
pub open spec fn graph_created(
    before: RenderGraphManager,
    after: RenderGraphManager,
    name: Seq<char>,
    frames: usize,
    k: RenderGraphKey,
) -> bool {
    &&& !before.spec_graphs().contains_key(k.bits)
    &&& canonical_key(k.bits) == k.bits
    &&& after.spec_graphs().dom() == before.spec_graphs().dom().insert(k.bits)
    &&& forall|b: u64|
        b != k.bits ==> #[trigger] after.spec_graphs().index(b) == before.spec_graphs().index(b)
    &&& after.spec_graphs()[k.bits].spec_name() == name
    &&& after.spec_graphs()[k.bits].spec_frames_in_flight() == frames
    &&& after.spec_graphs()[k.bits].spec_current_frame() == frames - 1
    &&& after.spec_graph_names() == before.spec_graph_names().insert(name, k.bits)
    &&& after.same_passes(before)
    &&& after.same_resources(before)
    &&& after.same_framebuffers(before)
}

/// The render graph manager.
pub struct RenderGraphManager {
    pub(crate) graphs: RenderGraphSlots,
    pub(crate) graph_names: NameMap,
    pub(crate) passes: RenderPassSlots,
    pub(crate) pass_names: NameMap,
    pub(crate) graph_resources: GraphResourceSlots,
    pub(crate) graph_resource_names: NameMap,
    pub(crate) framebuffers: FramebufferSlots,
    pub(crate) framebuffer_lookup: FramebufferLookup,
}

impl RenderGraphManager {
    /// Render graphs, by 64-bit key.
    pub open(crate) spec fn spec_graphs(&self) -> Map<u64, RenderGraph> {
        render_graph_slots(self.graphs)
    }

    /// Keys of the render graphs, by name.
    pub open(crate) spec fn spec_graph_names(&self) -> Map<Seq<char>, u64> {
        name_map(self.graph_names)
    }

    /// Render passes, by 64-bit key.
    pub open(crate) spec fn spec_passes(&self) -> Map<u64, RenderPass> {
        render_pass_slots(self.passes)
    }

    /// Keys of the render passes, by name.
    pub open(crate) spec fn spec_pass_names(&self) -> Map<Seq<char>, u64> {
        name_map(self.pass_names)
    }

    /// Graph resources, by 64-bit key.
    pub open(crate) spec fn spec_resources(&self) -> Map<u64, GraphResource> {
        graph_resource_slots(self.graph_resources)
    }

    /// Keys of the graph resources, by name.
    pub open(crate) spec fn spec_resource_names(&self) -> Map<Seq<char>, u64> {
        name_map(self.graph_resource_names)
    }

    /// Framebuffers, by 64-bit key.
    pub open(crate) spec fn spec_framebuffers(&self) -> Map<u64, Framebuffer> {
        framebuffer_slots(self.framebuffers)
    }

    /// Keys of the framebuffers, by attachment set (color slots and
    /// depth/stencil resource).
    pub open(crate) spec fn spec_lookup(&self) -> Map<(Seq<ColorAttachmentSlot>, Option<GraphResourceKey>), u64> {
        framebuffer_lookup(self.framebuffer_lookup)
    }

    /// Invariant: each name map and the lookup map correspond one to one
    /// with their slot map, every graph keeps its ring invariant, and every
    /// framebuffer is entered under the attachment set it was built from.
    pub open spec fn wf(&self) -> bool {
        &&& keys_match(self.spec_graph_names(), self.spec_graphs().dom())
        &&& forall|b: u64| #[trigger] self.spec_graphs().contains_key(b) ==> self.spec_graphs()[b].wf()
        &&& keys_match(self.spec_pass_names(), self.spec_passes().dom())
        &&& keys_match(self.spec_resource_names(), self.spec_resources().dom())
        &&& keys_match(self.spec_lookup(), self.spec_framebuffers().dom())
        &&& forall|s: (Seq<ColorAttachmentSlot>, Option<GraphResourceKey>)|
            #[trigger] self.spec_lookup().contains_key(s) ==> ({
                let fb = self.spec_framebuffers()[self.spec_lookup()[s]];
                fb.spec_color_attachments() == s.0 && fb.spec_depth_stencil_attachment() == s.1
            })
    }

    /// The render graphs are as in `other`.
    pub open spec fn same_graphs(self, other: Self) -> bool {
        self.spec_graphs() == other.spec_graphs() && self.spec_graph_names()
            == other.spec_graph_names()
    }

    /// The render passes are as in `other`.
    pub open spec fn same_passes(self, other: Self) -> bool {
        self.spec_passes() == other.spec_passes() && self.spec_pass_names()
            == other.spec_pass_names()
    }

    /// The graph resources are as in `other`.
    pub open spec fn same_resources(self, other: Self) -> bool {
        self.spec_resources() == other.spec_resources() && self.spec_resource_names()
            == other.spec_resource_names()
    }

    /// The framebuffers and their lookup map are as in `other`.
    pub open spec fn same_framebuffers(self, other: Self) -> bool {
        self.spec_framebuffers() == other.spec_framebuffers() && self.spec_lookup()
            == other.spec_lookup()
    }

    /// Nothing differs from `other`.
    pub open spec fn same_as(self, other: Self) -> bool {
        self.same_graphs(other) && self.same_passes(other) && self.same_resources(other)
            && self.same_framebuffers(other)
    }

    /// The graph resource a key designates, if any.
    pub open spec fn resource_of(&self, key: GraphResourceKey) -> Option<GraphResource> {
        resource_at(self.spec_resources(), key)
    }

    /// An empty manager.
    pub fn new() -> (m: Self)
        ensures
            m.wf(),
            m.spec_graphs() == no_slots::<RenderGraph>(),
            m.spec_graph_names().dom() == Set::<Seq<char>>::empty(),
            m.spec_passes() == no_slots::<RenderPass>(),
            m.spec_pass_names().dom() == Set::<Seq<char>>::empty(),
            m.spec_resources() == no_slots::<GraphResource>(),
            m.spec_resource_names().dom() == Set::<Seq<char>>::empty(),
            m.spec_framebuffers() == no_slots::<Framebuffer>(),
            m.spec_lookup().dom() == Set::<(Seq<ColorAttachmentSlot>, Option<GraphResourceKey>)>::empty(),
    {
        let m = RenderGraphManager {
            graphs: graph_slots_new(),
            graph_names: name_map_new(),
            passes: pass_slots_new(),
            pass_names: name_map_new(),
            graph_resources: resource_slots_new(),
            graph_resource_names: name_map_new(),
            framebuffers: framebuffer_slots_new(),
            framebuffer_lookup: lookup_new(),
        };
        proof {
            lemma_keys_match_empty(m.spec_graph_names(), m.spec_graphs().dom());
            lemma_keys_match_empty(m.spec_pass_names(), m.spec_passes().dom());
            lemma_keys_match_empty(m.spec_resource_names(), m.spec_resources().dom());
            lemma_keys_match_empty(m.spec_lookup(), m.spec_framebuffers().dom());
        }
        m
    }

    // ===== Graph resources =====

    /// Register a graph resource under a new name. Fails with
    /// `BackendError` when the name is taken, changing nothing.
    pub fn create_graph_resource(&mut self, name: &str, resource: GraphResource) -> (r: Result<
        GraphResourceKey,
        Error,
    >)
        requires
            old(self).wf(),
            old(self).spec_resources().len() < slot_capacity(),
        ensures
            final(self).wf(),
            r is Err <==> old(self).spec_resource_names().contains_key(name@),
            r matches Err(e) ==> e@ == ErrorView::BackendError(
                msg_name_taken("GraphResource"@, name@),
            ) && final(self).same_as(*old(self)),
            r matches Ok(k) ==> {
                &&& !old(self).spec_resources().contains_key(k.bits)
                &&& canonical_key(k.bits) == k.bits
                &&& final(self).spec_resources() == old(self).spec_resources().insert(k.bits, resource)
                &&& final(self).spec_resource_names() == old(self).spec_resource_names().insert(
                    name@,
                    k.bits,
                )
                &&& final(self).same_graphs(*old(self))
                &&& final(self).same_passes(*old(self))
                &&& final(self).same_framebuffers(*old(self))
            },
    {
        if name_map_get(&self.graph_resource_names, name).is_some() {
            return Err(Error::BackendError(name_taken_message("GraphResource", name)));
        }
        let bits = resource_slots_insert(&mut self.graph_resources, resource);
        name_map_insert(&mut self.graph_resource_names, name, bits);
        proof {
            lemma_keys_match_insert(
                old(self).spec_resource_names(),
                old(self).spec_resources().dom(),
                name@,
                bits,
            );
        }
        Ok(GraphResourceKey { bits })
    }

    /// The graph resource stored under `key`, if any.
    pub fn graph_resource(&self, key: GraphResourceKey) -> (r: Option<GraphResource>)
        ensures
            r == self.resource_of(key),
    {
        match resource_slots_get(&self.graph_resources, key.bits) {
            Some(g) => Some(*g),
            None => None,
        }
    }

    /// The graph resource registered under `name`, if any.
    pub fn graph_resource_by_name(&self, name: &str) -> (r: Option<GraphResource>)
        requires
            self.wf(),
        ensures
            r == match named(self.spec_resource_names(), name@) {
                Some(b) => Some(self.spec_resources()[b]),
                None => None,
            },
    {
        match self.graph_resource_id(name) {
            Some(key) => self.graph_resource(key),
            None => None,
        }
    }

    /// Key of the graph resource registered under `name`, if any.
    pub fn graph_resource_id(&self, name: &str) -> (r: Option<GraphResourceKey>)
        requires
            self.wf(),
        ensures
            r is Some <==> self.spec_resource_names().contains_key(name@),
            r matches Some(k) ==> k.bits == self.spec_resource_names()[name@],
    {
        match name_map_get(&self.graph_resource_names, name) {
            Some(bits) => Some(GraphResourceKey { bits }),
            None => None,
        }
    }

    /// Number of graph resources.
    pub fn graph_resource_count(&self) -> (n: usize)
        requires
            self.wf(),
        ensures
            n == self.spec_resources().len(),
    {
        resource_slots_len(&self.graph_resources)
    }

    /// Remove the graph resource stored under `key`, and the name that
    /// designated it. Returns whether there was one.
    pub fn remove_graph_resource(&mut self, key: GraphResourceKey) -> (removed: bool)
        requires
            old(self).wf(),
        ensures
            final(self).wf(),
            removed == old(self).spec_resources().contains_key(canonical_key(key.bits)),
            final(self).spec_resources() == old(self).spec_resources().remove(canonical_key(key.bits)),
            removed ==> final(self).spec_resource_names() == old(self).spec_resource_names().remove(
                choose|n: Seq<char>|
                    #[trigger] old(self).spec_resource_names().contains_key(n)
                        && old(self).spec_resource_names()[n] == canonical_key(key.bits),
            ),
            !removed ==> final(self).spec_resource_names() == old(self).spec_resource_names(),
            final(self).same_graphs(*old(self)),
            final(self).same_passes(*old(self)),
            final(self).same_framebuffers(*old(self)),
    {
        let canon: u64 = key.bits | 0x1_0000_0000u64;
        let removed = resource_slots_remove(&mut self.graph_resources, key.bits);
        if removed.is_none() {
            proof {
                assert(self.spec_resources() =~= old(self).spec_resources());
            }
            return false;
        }
        name_map_retain_other(&mut self.graph_resource_names, canon);
        proof {
            lemma_keys_match_retain_other(
                old(self).spec_resource_names(),
                old(self).spec_resources().dom(),
                self.spec_resource_names(),
                canon,
            );
        }
        true
    }

    /// Remove the graph resource registered under `name`, and its name.
    /// Returns whether there was one.
    pub fn remove_graph_resource_by_name(&mut self, name: &str) -> (removed: bool)
        requires
            old(self).wf(),
        ensures
            final(self).wf(),
            removed == old(self).spec_resource_names().contains_key(name@),
            removed ==> final(self).spec_resource_names() == old(self).spec_resource_names().remove(
                name@,
            ) && final(self).spec_resources() == old(self).spec_resources().remove(
                old(self).spec_resource_names()[name@],
            ),
            !removed ==> final(self).same_resources(*old(self)),
            final(self).same_graphs(*old(self)),
            final(self).same_passes(*old(self)),
            final(self).same_framebuffers(*old(self)),
    {
        match name_map_remove(&mut self.graph_resource_names, name) {
            Some(bits) => {
                proof {
                    assert(old(self).spec_resource_names().contains_key(name@));
                    assert(canonical_key(bits) == bits);
                    lemma_keys_match_remove(
                        old(self).spec_resource_names(),
                        old(self).spec_resources().dom(),
                        name@,
                    );
                }
                resource_slots_remove(&mut self.graph_resources, bits);
                proof {
                    assert(self.spec_resources().dom() =~= old(self).spec_resources().dom().remove(bits));
                }
                true
            },
            None => {
                proof {
                    assert(self.spec_resource_names() =~= old(self).spec_resource_names());
                }
                false
            },
        }
    }

    // ===== Render graphs =====

    /// Create a render graph with `frames_in_flight` ring slots under a new
    /// name. Fails with `BackendError`, changing nothing, when the name is
    /// taken or when there are no ring slots.
    pub fn create_render_graph(&mut self, name: &str, frames_in_flight: usize) -> (r: Result<
        RenderGraphKey,
        Error,
    >)
        requires
            old(self).wf(),
            old(self).spec_graphs().len() < slot_capacity(),
        ensures
            final(self).wf(),
            r is Err <==> old(self).spec_graph_names().contains_key(name@) || frames_in_flight == 0,
            r matches Err(e) ==> final(self).same_as(*old(self)) && e@ == ErrorView::BackendError(
                if old(self).spec_graph_names().contains_key(name@) {
                    msg_name_taken("RenderGraph"@, name@)
                } else {
                    "frames_in_flight must be at least 1"@
                },
            ),
            r matches Ok(k) ==> graph_created(*old(self), *final(self), name@, frames_in_flight, k),
    {
        if name_map_get(&self.graph_names, name).is_some() {
            return Err(Error::BackendError(name_taken_message("RenderGraph", name)));
        }
        let graph = match RenderGraph::new(String::from_str(name), frames_in_flight) {
            Ok(g) => g,
            Err(e) => {
                return Err(e);
            },
        };
        let bits = graph_slots_insert(&mut self.graphs, graph);
        name_map_insert(&mut self.graph_names, name, bits);
        proof {
            lemma_keys_match_insert(old(self).spec_graph_names(), old(self).spec_graphs().dom(), name@, bits);
            assert(self.spec_graphs().dom() =~= old(self).spec_graphs().dom().insert(bits));
        }
        Ok(RenderGraphKey { bits })
    }

    /// Create a render graph as `create_render_graph` does, together with
    /// the command lists of its ring, made on `device` (see
    /// `create_command_lists`). A taken name or an empty ring is refused
    /// before any command list is made; a failing creation is returned as
    /// the device gave it, and no graph is created.
    pub fn create_render_graph_with_command_lists<C, D: CommandListSource<C>>(
        &mut self,
        name: &str,
        frames_in_flight: usize,
        device: &mut CreationLog<D>,
    ) -> (r: Result<(RenderGraphKey, Vec<C>), Error>)
        requires
            old(self).wf(),
            old(self).spec_graphs().len() < slot_capacity(),
        ensures
            final(self).wf(),
            old(self).spec_graph_names().contains_key(name@) || frames_in_flight == 0 ==> {
                &&& r is Err
                &&& r->Err_0@ == ErrorView::BackendError(
                    if old(self).spec_graph_names().contains_key(name@) {
                        msg_name_taken("RenderGraph"@, name@)
                    } else {
                        "frames_in_flight must be at least 1"@
                    },
                )
                &&& final(self).same_as(*old(self))
                &&& final(device).outcomes() == old(device).outcomes()
            },
            !old(self).spec_graph_names().contains_key(name@) && frames_in_flight > 0 ==> {
                &&& ring_created(
                    old(device).outcomes(),
                    final(device).outcomes(),
                    frames_in_flight as nat,
                    match r {
                        Ok((_, lists)) => Ok(lists),
                        Err(e) => Err(e),
                    },
                )
                &&& r is Err ==> final(self).same_as(*old(self))
                &&& r matches Ok((k, _)) ==> graph_created(*old(self), *final(self), name@, frames_in_flight, k)
            },
    {
        if name_map_get(&self.graph_names, name).is_some() {
            return Err(Error::BackendError(name_taken_message("RenderGraph", name)));
        }
        if let Err(e) = RenderGraph::new(String::from_str(name), frames_in_flight) {
            return Err(e);
        }
        let lists = match create_command_lists(device, frames_in_flight) {
            Ok(l) => l,
            Err(e) => {
                return Err(e);
            },
        };
        match self.create_render_graph(name, frames_in_flight) {
            Ok(k) => Ok((k, lists)),
            Err(e) => Err(e),
        }
    }

    /// The render graph stored under `key`, if any.
    pub fn render_graph(&self, key: RenderGraphKey) -> (r: Option<&RenderGraph>)
        ensures
            r is Some <==> self.spec_graphs().contains_key(canonical_key(key.bits)),
            r matches Some(g) ==> *g == self.spec_graphs()[canonical_key(key.bits)],
    {
        graph_slots_get(&self.graphs, key.bits)
    }

    /// The render graph registered under `name`, if any.
    pub fn render_graph_by_name(&self, name: &str) -> (r: Option<&RenderGraph>)
        requires
            self.wf(),
        ensures
            r is Some <==> self.spec_graph_names().contains_key(name@),
            r matches Some(g) ==> *g == self.spec_graphs()[self.spec_graph_names()[name@]],
    {
        match self.render_graph_id(name) {
            Some(key) => self.render_graph(key),
            None => None,
        }
    }

    /// Key of the render graph registered under `name`, if any.
    pub fn render_graph_id(&self, name: &str) -> (r: Option<RenderGraphKey>)
        requires
            self.wf(),
        ensures
            r is Some <==> self.spec_graph_names().contains_key(name@),
            r matches Some(k) ==> k.bits == self.spec_graph_names()[name@],
    {
        match name_map_get(&self.graph_names, name) {
            Some(bits) => Some(RenderGraphKey { bits }),
            None => None,
        }
    }

    /// Number of render graphs.
    pub fn render_graph_count(&self) -> (n: usize)
        requires
            self.wf(),
        ensures
            n == self.spec_graphs().len(),
    {
        graph_slots_len(&self.graphs)
    }

    // ===== Render passes (lookups) =====

    /// The render pass stored under `key`, if any.
    pub fn render_pass(&self, key: RenderPassKey) -> (r: Option<&RenderPass>)
        ensures
            r is Some <==> self.spec_passes().contains_key(canonical_key(key.bits)),
            r matches Some(p) ==> *p == self.spec_passes()[canonical_key(key.bits)],
    {
        pass_slots_get(&self.passes, key.bits)
    }

    /// The render pass registered under `name`, if any.
    pub fn render_pass_by_name(&self, name: &str) -> (r: Option<&RenderPass>)
        requires
            self.wf(),
        ensures
            r is Some <==> self.spec_pass_names().contains_key(name@),
            r matches Some(p) ==> *p == self.spec_passes()[self.spec_pass_names()[name@]],
    {
        match self.render_pass_id(name) {
            Some(key) => self.render_pass(key),
            None => None,
        }
    }

    /// Key of the render pass registered under `name`, if any.
    pub fn render_pass_id(&self, name: &str) -> (r: Option<RenderPassKey>)
        requires
            self.wf(),
        ensures
            r is Some <==> self.spec_pass_names().contains_key(name@),
            r matches Some(k) ==> k.bits == self.spec_pass_names()[name@],
    {
        match name_map_get(&self.pass_names, name) {
            Some(bits) => Some(RenderPassKey { bits }),
            None => None,
        }
    }

    /// Number of render passes.
    pub fn render_pass_count(&self) -> (n: usize)
        requires
            self.wf(),
        ensures
            n == self.spec_passes().len(),
    {
        pass_slots_len(&self.passes)
    }

    /// Drop every graph, pass, graph resource and framebuffer.
    pub fn clear(&mut self)
        ensures
            final(self).wf(),
            final(self).spec_graphs() == no_slots::<RenderGraph>(),
            final(self).spec_graph_names().dom() == Set::<Seq<char>>::empty(),
            final(self).spec_passes() == no_slots::<RenderPass>(),
            final(self).spec_pass_names().dom() == Set::<Seq<char>>::empty(),
            final(self).spec_resources() == no_slots::<GraphResource>(),
            final(self).spec_resource_names().dom() == Set::<Seq<char>>::empty(),
            final(self).spec_framebuffers() == no_slots::<Framebuffer>(),
            final(self).spec_lookup().dom() == Set::<
                (Seq<ColorAttachmentSlot>, Option<GraphResourceKey>),
            >::empty(),
    {
        graph_slots_clear(&mut self.graphs);
        name_map_clear(&mut self.graph_names);
        pass_slots_clear(&mut self.passes);
        name_map_clear(&mut self.pass_names);
        resource_slots_clear(&mut self.graph_resources);
        name_map_clear(&mut self.graph_resource_names);
        framebuffer_slots_clear(&mut self.framebuffers);
        lookup_clear(&mut self.framebuffer_lookup);
        proof {
            lemma_keys_match_empty(self.spec_graph_names(), self.spec_graphs().dom());
            lemma_keys_match_empty(self.spec_pass_names(), self.spec_passes().dom());
            lemma_keys_match_empty(self.spec_resource_names(), self.spec_resources().dom());
            lemma_keys_match_empty(self.spec_lookup(), self.spec_framebuffers().dom());
        }
    }
}

/// Message: an object of the given kind already carries the name.
pub(crate) fn name_taken_message(kind: &str, name: &str) -> (s: String)
    ensures
        s@ == msg_name_taken(kind@, name@),
{
    let mut s = String::from_str(kind);
    s.append(" '");
    s.append(name);
    s.append("' already exists");
    proof {
        reveal_strlit(" '");
        reveal_strlit("' already exists");
    }
    s
}

// ===== Correspondence lemmas =====

/// Empty maps match empty slot maps.
pub(crate) proof fn lemma_keys_match_empty<K>(names: Map<K, u64>, dom: Set<u64>)
    requires
        names.dom() == Set::<K>::empty(),
        dom == Set::<u64>::empty(),
    ensures
        keys_match(names, dom),
{
}

/// A fresh canonical key, stored and entered under a new name at once,
/// keeps the correspondence.
pub(crate) proof fn lemma_keys_match_insert<K>(names: Map<K, u64>, dom: Set<u64>, k: K, b: u64)
    requires
        keys_match(names, dom),
        !names.contains_key(k),
        !dom.contains(b),
        canonical_key(b) == b,
        b % 0x1_0000_0000 != 0xFFFF_FFFF,
    ensures
        keys_match(names.insert(k, b), dom.insert(b)),
{
    let n2 = names.insert(k, b);
    assert forall|c: u64| #[trigger] dom.insert(b).contains(c) implies exists|j: K|
        #[trigger] n2.contains_key(j) && n2[j] == c by {
        if c == b {
            assert(n2.contains_key(k) && n2[k] == b);
        } else {
            let j = choose|j: K| #[trigger] names.contains_key(j) && names[j] == c;
            assert(n2.contains_key(j) && n2[j] == c);
        }
    }
    assert forall|k1: K, k2: K|
        #[trigger] n2.contains_key(k1) && #[trigger] n2.contains_key(k2) && n2[k1] == n2[k2] implies k1
        == k2 by {
        if k1 != k && k2 != k {
        } else if k1 == k && k2 != k {
            assert(dom.contains(names[k2]));
        } else if k1 != k && k2 == k {
            assert(dom.contains(names[k1]));
        }
    }
}

/// Dropping a name and its key keeps the correspondence.
pub(crate) proof fn lemma_keys_match_remove<K>(names: Map<K, u64>, dom: Set<u64>, k: K)
    requires
        keys_match(names, dom),
        names.contains_key(k),
    ensures
        keys_match(names.remove(k), dom.remove(names[k])),
{
    let n2 = names.remove(k);
    let b = names[k];
    assert forall|c: u64| #[trigger] dom.remove(b).contains(c) implies exists|j: K|
        #[trigger] n2.contains_key(j) && n2[j] == c by {
        let j = choose|j: K| #[trigger] names.contains_key(j) && names[j] == c;
        assert(j != k);
        assert(n2.contains_key(j) && n2[j] == c);
    }
    assert forall|j: K| #[trigger] n2.contains_key(j) implies dom.remove(b).contains(n2[j]) by {
        assert(names.contains_key(j) && j != k);
    }
}

/// Dropping a stored key and the entries that lead to it keeps the
/// correspondence.
pub(crate) proof fn lemma_keys_match_retain_other<K>(
    names: Map<K, u64>,
    dom: Set<u64>,
    kept: Map<K, u64>,
    b: u64,
)
    requires
        keys_match(names, dom),
        dom.contains(b),
        forall|k: K| #[trigger] kept.contains_key(k) <==> names.contains_key(k) && names[k] != b,
        forall|k: K| #[trigger] kept.contains_key(k) ==> kept[k] == names[k],
    ensures
        keys_match(kept, dom.remove(b)),
        kept == names.remove(choose|k: K| #[trigger] names.contains_key(k) && names[k] == b),
{
    let k0 = choose|k: K| #[trigger] names.contains_key(k) && names[k] == b;
    assert(names.contains_key(k0) && names[k0] == b);
    assert(kept.dom() =~= names.remove(k0).dom()) by {
        assert forall|k: K| kept.contains_key(k) <==> names.remove(k0).contains_key(k) by {
            if names.contains_key(k) && names[k] == b {
                assert(k == k0);
            }
        }
    }
    assert(kept =~= names.remove(k0));
    lemma_keys_match_remove(names, dom, k0);
}

/// A map to keys in one-to-one correspondence with a slot map has as many
/// entries as the slot map.
pub(crate) proof fn lemma_keys_match_len<K>(names: Map<K, u64>, dom: Set<u64>)
    requires
        keys_match(names, dom),
    ensures
        dom.len() == names.dom().len(),
{
    let f = |k: K| names[k];
    assert(vstd::relations::injective_on(f, names.dom()));
    assert(names.dom().map(f) =~= dom) by {
        assert forall|c: u64| dom.contains(c) implies names.dom().map(f).contains(c) by {
            let j = choose|j: K| #[trigger] names.contains_key(j) && names[j] == c;
            assert(names.dom().contains(j) && f(j) == c);
        }
    }
    lemma_map_size(names.dom(), dom, f);
}

} // verus!
