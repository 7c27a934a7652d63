//! Slot-map storage of the render graph manager.
//!
//! Each collection of the manager is a `slotmap::SlotMap` with the default
//! key type, held in a struct whose inside Verus does not see (the slot
//! map's type names its `Key` trait in a bound, which Verus cannot read).
//! Its contents are named as a map from the 64-bit form of a key
//! (`KeyData::as_ffi`) to the stored value. The functions below are the
//! only calls into the slot map; each states what the slot map's source
//! does to those contents.
//!
//! A 64-bit key is turned back into a slot-map key with
//! `KeyData::from_ffi`, which forces the version (high 32 bits) odd; every
//! key that a slot map hands out already has an odd version. So a lookup of
//! `bits` is a lookup of `canonical_key(bits)`.

use vstd::prelude::*;
use slotmap::{DefaultKey, Key, KeyData, SlotMap};
use crate::graph_resource::GraphResource;
use crate::frame_buffer::Framebuffer;
use crate::render_pass::RenderPass;
use crate::render_graph::RenderGraph;

verus! {

/// The 64-bit key that `bits` designates once turned back into a slot-map
/// key: the same index, with the version's lowest bit set.
pub open spec fn canonical_key(bits: u64) -> u64 {
    bits | 0x1_0000_0000u64
}

/// The empty contents.
pub open spec fn no_slots<V>() -> Map<u64, V> {
    Map::empty()
}

/// Largest number of values a slot map can hold: it has at most
/// `u32::MAX` slots, and slot 0 is a sentinel that never holds a value. An
/// insertion panics ("SlotMap is full") only when every other slot holds
/// a value.
pub open spec fn slot_capacity() -> nat {
    0xFFFF_FFFEnat
}

/// Slot map of graph resources.
#[verifier::external_body]
pub struct GraphResourceSlots {
    map: SlotMap<DefaultKey, GraphResource>,
}

/// Contents of a slot map of graph resources, by 64-bit key.
pub uninterp spec fn graph_resource_slots(m: GraphResourceSlots) -> Map<u64, GraphResource>;

/// `SlotMap::with_key`: an empty slot map.
#[verifier::external_body]
pub(crate) fn resource_slots_new() -> (m: GraphResourceSlots)
    ensures
        graph_resource_slots(m) == no_slots::<GraphResource>(),
{
    GraphResourceSlots { map: SlotMap::with_key() }
}

/// `SlotMap::insert`: stores the value under a key that was not in use and
/// returns that key, whose version is odd and whose index is never
/// `u32::MAX` (the index of the null key). Panics only when the slot map
/// holds `slot_capacity()` values, which `requires` rules out.
#[verifier::external_body]
pub(crate) fn resource_slots_insert(m: &mut GraphResourceSlots, v: GraphResource) -> (bits: u64)
    requires
        graph_resource_slots(*old(m)).dom().finite(),
        graph_resource_slots(*old(m)).len() < slot_capacity(),
    ensures
        canonical_key(bits) == bits,
        bits % 0x1_0000_0000 != 0xFFFF_FFFF,
        !graph_resource_slots(*old(m)).contains_key(bits),
        graph_resource_slots(*final(m)) == graph_resource_slots(*old(m)).insert(bits, v),
{
    m.map.insert(v).data().as_ffi()
}

/// `SlotMap::get`: the value stored under the key, if any.
#[verifier::external_body]
pub(crate) fn resource_slots_get(m: &GraphResourceSlots, bits: u64) -> (r: Option<&GraphResource>)
    ensures
        r is Some <==> graph_resource_slots(*m).contains_key(canonical_key(bits)),
        r matches Some(v) ==> *v == graph_resource_slots(*m)[canonical_key(bits)],
{
    m.map.get(DefaultKey::from(KeyData::from_ffi(bits)))
}

/// `SlotMap::len`: the number of stored values.
#[verifier::external_body]
pub(crate) fn resource_slots_len(m: &GraphResourceSlots) -> (n: usize)
    requires
        graph_resource_slots(*m).dom().finite(),
    ensures
        n == graph_resource_slots(*m).len(),
{
    m.map.len()
}

/// `SlotMap::clear`: removes every value.
#[verifier::external_body]
pub(crate) fn resource_slots_clear(m: &mut GraphResourceSlots)
    ensures
        graph_resource_slots(*final(m)) == no_slots::<GraphResource>(),
{
    m.map.clear()
}

/// `SlotMap::remove`: removes and returns the value stored under the key,
/// if any.
#[verifier::external_body]
pub(crate) fn resource_slots_remove(m: &mut GraphResourceSlots, bits: u64) -> (r: Option<GraphResource>)
    ensures
        r is Some <==> graph_resource_slots(*old(m)).contains_key(canonical_key(bits)),
        r matches Some(v) ==> v == graph_resource_slots(*old(m))[canonical_key(bits)],
        graph_resource_slots(*final(m)) == graph_resource_slots(*old(m)).remove(canonical_key(bits)),
{
    m.map.remove(DefaultKey::from(KeyData::from_ffi(bits)))
}

/// Slot map of framebuffers.
#[verifier::external_body]
pub struct FramebufferSlots {
    map: SlotMap<DefaultKey, Framebuffer>,
}

/// Contents of a slot map of framebuffers, by 64-bit key.
pub uninterp spec fn framebuffer_slots(m: FramebufferSlots) -> Map<u64, Framebuffer>;

/// `SlotMap::with_key`: an empty slot map.
#[verifier::external_body]
pub(crate) fn framebuffer_slots_new() -> (m: FramebufferSlots)
    ensures
        framebuffer_slots(m) == no_slots::<Framebuffer>(),
{
    FramebufferSlots { map: SlotMap::with_key() }
}

/// `SlotMap::insert`: stores the value under a key that was not in use and
/// returns that key, whose version is odd and whose index is never
/// `u32::MAX` (the index of the null key). Panics only when the slot map
/// holds `slot_capacity()` values, which `requires` rules out.
#[verifier::external_body]
pub(crate) fn framebuffer_slots_insert(m: &mut FramebufferSlots, v: Framebuffer) -> (bits: u64)
    requires
        framebuffer_slots(*old(m)).dom().finite(),
        framebuffer_slots(*old(m)).len() < slot_capacity(),
    ensures
        canonical_key(bits) == bits,
        bits % 0x1_0000_0000 != 0xFFFF_FFFF,
        !framebuffer_slots(*old(m)).contains_key(bits),
        framebuffer_slots(*final(m)) == framebuffer_slots(*old(m)).insert(bits, v),
{
    m.map.insert(v).data().as_ffi()
}

/// `SlotMap::get`: the value stored under the key, if any.
#[verifier::external_body]
pub(crate) fn framebuffer_slots_get(m: &FramebufferSlots, bits: u64) -> (r: Option<&Framebuffer>)
    ensures
        r is Some <==> framebuffer_slots(*m).contains_key(canonical_key(bits)),
        r matches Some(v) ==> *v == framebuffer_slots(*m)[canonical_key(bits)],
{
    m.map.get(DefaultKey::from(KeyData::from_ffi(bits)))
}

/// `SlotMap::len`: the number of stored values.
#[verifier::external_body]
pub(crate) fn framebuffer_slots_len(m: &FramebufferSlots) -> (n: usize)
    requires
        framebuffer_slots(*m).dom().finite(),
    ensures
        n == framebuffer_slots(*m).len(),
{
    m.map.len()
}

/// `SlotMap::clear`: removes every value.
#[verifier::external_body]
pub(crate) fn framebuffer_slots_clear(m: &mut FramebufferSlots)
    ensures
        framebuffer_slots(*final(m)) == no_slots::<Framebuffer>(),
{
    m.map.clear()
}

/// `SlotMap::remove`: removes and returns the value stored under the key,
/// if any.
#[verifier::external_body]
pub(crate) fn framebuffer_slots_remove(m: &mut FramebufferSlots, bits: u64) -> (r: Option<Framebuffer>)
    ensures
        r is Some <==> framebuffer_slots(*old(m)).contains_key(canonical_key(bits)),
        r matches Some(v) ==> v == framebuffer_slots(*old(m))[canonical_key(bits)],
        framebuffer_slots(*final(m)) == framebuffer_slots(*old(m)).remove(canonical_key(bits)),
{
    m.map.remove(DefaultKey::from(KeyData::from_ffi(bits)))
}

/// Slot map of render passes.
#[verifier::external_body]
pub struct RenderPassSlots {
    map: SlotMap<DefaultKey, RenderPass>,
}

/// Contents of a slot map of render passes, by 64-bit key.
pub uninterp spec fn render_pass_slots(m: RenderPassSlots) -> Map<u64, RenderPass>;

/// `SlotMap::with_key`: an empty slot map.
#[verifier::external_body]
pub(crate) fn pass_slots_new() -> (m: RenderPassSlots)
    ensures
        render_pass_slots(m) == no_slots::<RenderPass>(),
{
    RenderPassSlots { map: SlotMap::with_key() }
}

/// `SlotMap::insert`: stores the value under a key that was not in use and
/// returns that key, whose version is odd and whose index is never
/// `u32::MAX` (the index of the null key). Panics only when the slot map
/// holds `slot_capacity()` values, which `requires` rules out.
#[verifier::external_body]
pub(crate) fn pass_slots_insert(m: &mut RenderPassSlots, v: RenderPass) -> (bits: u64)
    requires
        render_pass_slots(*old(m)).dom().finite(),
        render_pass_slots(*old(m)).len() < slot_capacity(),
    ensures
        canonical_key(bits) == bits,
        bits % 0x1_0000_0000 != 0xFFFF_FFFF,
        !render_pass_slots(*old(m)).contains_key(bits),
        render_pass_slots(*final(m)) == render_pass_slots(*old(m)).insert(bits, v),
{
    m.map.insert(v).data().as_ffi()
}

/// `SlotMap::get`: the value stored under the key, if any.
#[verifier::external_body]
pub(crate) fn pass_slots_get(m: &RenderPassSlots, bits: u64) -> (r: Option<&RenderPass>)
    ensures
        r is Some <==> render_pass_slots(*m).contains_key(canonical_key(bits)),
        r matches Some(v) ==> *v == render_pass_slots(*m)[canonical_key(bits)],
{
    m.map.get(DefaultKey::from(KeyData::from_ffi(bits)))
}

/// `SlotMap::len`: the number of stored values.
#[verifier::external_body]
pub(crate) fn pass_slots_len(m: &RenderPassSlots) -> (n: usize)
    requires
        render_pass_slots(*m).dom().finite(),
    ensures
        n == render_pass_slots(*m).len(),
{
    m.map.len()
}

/// `SlotMap::clear`: removes every value.
#[verifier::external_body]
pub(crate) fn pass_slots_clear(m: &mut RenderPassSlots)
    ensures
        render_pass_slots(*final(m)) == no_slots::<RenderPass>(),
{
    m.map.clear()
}

/// `SlotMap::get_mut`, then an assignment through it: replaces the value
/// stored under the key, if any; reports whether there was one.
#[verifier::external_body]
pub(crate) fn pass_slots_set(m: &mut RenderPassSlots, bits: u64, v: RenderPass) -> (r: bool)
    ensures
        r == render_pass_slots(*old(m)).contains_key(canonical_key(bits)),
        render_pass_slots(*final(m)) == if r {
            render_pass_slots(*old(m)).insert(canonical_key(bits), v)
        } else {
            render_pass_slots(*old(m))
        },
{
    match m.map.get_mut(DefaultKey::from(KeyData::from_ffi(bits))) {
        Some(slot) => {
            *slot = v;
            true
        },
        None => false,
    }
}

/// Slot map of render graphs.
#[verifier::external_body]
pub struct RenderGraphSlots {
    map: SlotMap<DefaultKey, RenderGraph>,
}

/// Contents of a slot map of render graphs, by 64-bit key.
pub uninterp spec fn render_graph_slots(m: RenderGraphSlots) -> Map<u64, RenderGraph>;

/// `SlotMap::with_key`: an empty slot map.
#[verifier::external_body]
pub(crate) fn graph_slots_new() -> (m: RenderGraphSlots)
    ensures
        render_graph_slots(m) == no_slots::<RenderGraph>(),
{
    RenderGraphSlots { map: SlotMap::with_key() }
}

/// `SlotMap::insert`: stores the value under a key that was not in use and
/// returns that key, whose version is odd and whose index is never
/// `u32::MAX` (the index of the null key). Panics only when the slot map
/// holds `slot_capacity()` values, which `requires` rules out.
#[verifier::external_body]
pub(crate) fn graph_slots_insert(m: &mut RenderGraphSlots, v: RenderGraph) -> (bits: u64)
    requires
        render_graph_slots(*old(m)).dom().finite(),
        render_graph_slots(*old(m)).len() < slot_capacity(),
    ensures
        canonical_key(bits) == bits,
        bits % 0x1_0000_0000 != 0xFFFF_FFFF,
        !render_graph_slots(*old(m)).contains_key(bits),
        render_graph_slots(*final(m)) == render_graph_slots(*old(m)).insert(bits, v),
{
    m.map.insert(v).data().as_ffi()
}

/// `SlotMap::get`: the value stored under the key, if any.
#[verifier::external_body]
pub(crate) fn graph_slots_get(m: &RenderGraphSlots, bits: u64) -> (r: Option<&RenderGraph>)
    ensures
        r is Some <==> render_graph_slots(*m).contains_key(canonical_key(bits)),
        r matches Some(v) ==> *v == render_graph_slots(*m)[canonical_key(bits)],
{
    m.map.get(DefaultKey::from(KeyData::from_ffi(bits)))
}

/// `SlotMap::len`: the number of stored values.
#[verifier::external_body]
pub(crate) fn graph_slots_len(m: &RenderGraphSlots) -> (n: usize)
    requires
        render_graph_slots(*m).dom().finite(),
    ensures
        n == render_graph_slots(*m).len(),
{
    m.map.len()
}

/// `SlotMap::clear`: removes every value.
#[verifier::external_body]
pub(crate) fn graph_slots_clear(m: &mut RenderGraphSlots)
    ensures
        render_graph_slots(*final(m)) == no_slots::<RenderGraph>(),
{
    m.map.clear()
}

/// `SlotMap::get_mut`, then an assignment through it: replaces the value
/// stored under the key, if any; reports whether there was one.
#[verifier::external_body]
pub(crate) fn graph_slots_set(m: &mut RenderGraphSlots, bits: u64, v: RenderGraph) -> (r: bool)
    ensures
        r == render_graph_slots(*old(m)).contains_key(canonical_key(bits)),
        render_graph_slots(*final(m)) == if r {
            render_graph_slots(*old(m)).insert(canonical_key(bits), v)
        } else {
            render_graph_slots(*old(m))
        },
{
    match m.map.get_mut(DefaultKey::from(KeyData::from_ffi(bits))) {
        Some(slot) => {
            *slot = v;
            true
        },
        None => false,
    }
}

} // verus!
