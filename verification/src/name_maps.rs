//! Hash maps of the render graph manager.
//!
//! The manager finds its graphs, passes and graph resources by name, and
//! its framebuffers by attachment set, in `rustc_hash::FxHashMap`s. Each
//! map is held in a struct whose inside Verus does not see (the map's
//! hasher is an outside type that Verus cannot read), and its contents are
//! named as a map of plain values: names as character sequences, an
//! attachment set as its color slots and depth/stencil resource, keys in
//! their 64-bit form. The functions below are the only calls into these
//! maps; each states what `HashMap` does to those contents.

use vstd::prelude::*;
use rustc_hash::FxHashMap;
use crate::frame_buffer::{ColorAttachmentSlot, FramebufferLookupKey};
use crate::keys::GraphResourceKey;

verus! {

/// The empty contents.
pub open spec fn no_entries<K>() -> Map<K, u64> {
    Map::empty()
}

/// An entry whose value is not `bits` is kept.
pub(crate) fn keeps_entry(value: u64, bits: u64) -> (r: bool)
    ensures
        r == (value != bits),
{
    value != bits
}

/// Name to key map.
#[verifier::external_body]
pub struct NameMap {
    map: FxHashMap<String, u64>,
}

/// Contents of a name map: names as character sequences, keys in their
/// 64-bit form.
pub uninterp spec fn name_map(m: NameMap) -> Map<Seq<char>, u64>;

/// `FxHashMap::default`: an empty map.
#[verifier::external_body]
pub(crate) fn name_map_new() -> (m: NameMap)
    ensures
        name_map(m) == no_entries::<Seq<char>>(),
{
    NameMap { map: FxHashMap::default() }
}

/// `HashMap::get`: the key stored under the name, if any.
#[verifier::external_body]
pub(crate) fn name_map_get(m: &NameMap, name: &str) -> (r: Option<u64>)
    ensures
        r is Some <==> name_map(*m).contains_key(name@),
        r matches Some(b) ==> b == name_map(*m)[name@],
{
    m.map.get(name).copied()
}

/// `HashMap::insert`: stores the key under the name, replacing what was
/// stored there.
#[verifier::external_body]
pub(crate) fn name_map_insert(m: &mut NameMap, name: &str, bits: u64)
    ensures
        name_map(*final(m)) == name_map(*old(m)).insert(name@, bits),
{
    m.map.insert(name.to_string(), bits);
}

/// `HashMap::remove`: removes the name and returns the key it held, if any.
#[verifier::external_body]
pub(crate) fn name_map_remove(m: &mut NameMap, name: &str) -> (r: Option<u64>)
    ensures
        r is Some <==> name_map(*old(m)).contains_key(name@),
        r matches Some(b) ==> b == name_map(*old(m))[name@],
        name_map(*final(m)) == name_map(*old(m)).remove(name@),
{
    m.map.remove(name)
}

/// `HashMap::retain`: keeps the names whose key is not `bits`.
#[verifier::external_body]
pub(crate) fn name_map_retain_other(m: &mut NameMap, bits: u64)
    ensures
        forall|n: Seq<char>|
            #[trigger] name_map(*final(m)).contains_key(n) <==> name_map(*old(m)).contains_key(n)
                && name_map(*old(m))[n] != bits,
        forall|n: Seq<char>|
            #[trigger] name_map(*final(m)).contains_key(n) ==> name_map(*final(m))[n] == name_map(
                *old(m),
            )[n],
{
    m.map.retain(|_, v| keeps_entry(*v, bits));
}

/// `HashMap::clear`: removes every entry.
#[verifier::external_body]
pub(crate) fn name_map_clear(m: &mut NameMap)
    ensures
        name_map(*final(m)) == no_entries::<Seq<char>>(),
{
    m.map.clear()
}

/// The plain value of a lookup key: its color slots and its depth/stencil
/// resource.
pub open spec fn attachment_set(k: FramebufferLookupKey) -> (Seq<ColorAttachmentSlot>, Option<GraphResourceKey>) {
    (k.color_attachments@, k.depth_stencil_attachment)
}

/// An attachment set as plain integers: each color slot as its color key
/// and optional resolve key, then the optional depth/stencil key, all in
/// their 64-bit form.
pub open spec fn plain_set_view(p: (Vec<(u64, Option<u64>)>, Option<u64>)) -> (Seq<(u64, Option<u64>)>, Option<u64>) {
    (p.0@, p.1)
}

/// The plain form of an attachment set.
pub open spec fn plain_attachment_set(s: (Seq<ColorAttachmentSlot>, Option<GraphResourceKey>)) -> (
    Seq<(u64, Option<u64>)>,
    Option<u64>,
) {
    (
        s.0.map_values(
            |c: ColorAttachmentSlot|
                (
                    c.color.bits,
                    match c.resolve {
                        Some(r) => Some(r.bits),
                        None => None,
                    },
                ),
        ),
        match s.1 {
            Some(d) => Some(d.bits),
            None => None,
        },
    )
}

/// Two attachment sets with the same plain form are the same set: a map
/// keyed by plain forms holds at most one entry per attachment set.
pub proof fn lemma_plain_attachment_set_injective(
    a: (Seq<ColorAttachmentSlot>, Option<GraphResourceKey>),
    b: (Seq<ColorAttachmentSlot>, Option<GraphResourceKey>),
)
    requires
        plain_attachment_set(a) == plain_attachment_set(b),
    ensures
        a == b,
{
    let pa = plain_attachment_set(a);
    let pb = plain_attachment_set(b);
    assert(a.0.len() == pa.0.len() && b.0.len() == pb.0.len());
    assert forall|i: int| 0 <= i < a.0.len() implies a.0[i] == b.0[i] by {
        assert(pa.0[i] == pb.0[i]);
        assert(a.0[i].color.bits == b.0[i].color.bits);
        match a.0[i].resolve {
            Some(r) => {
                assert(b.0[i].resolve is Some);
            },
            None => {
                assert(b.0[i].resolve is None);
            },
        }
    }
    assert(a.0 =~= b.0);
    match a.1 {
        Some(d) => {
            assert(b.1 is Some);
        },
        None => {},
    }
}

/// The plain form of a lookup key.
pub(crate) fn plain_key(k: &FramebufferLookupKey) -> (p: (Vec<(u64, Option<u64>)>, Option<u64>))
    ensures
        plain_set_view(p) == plain_attachment_set(attachment_set(*k)),
{
    let mut slots: Vec<(u64, Option<u64>)> = Vec::new();
    let mut i: usize = 0;
    while i < k.color_attachments.len()
        invariant
            i <= k.color_attachments@.len(),
            slots@ == plain_attachment_set(attachment_set(*k)).0.take(i as int),
        decreases k.color_attachments@.len() - i,
    {
        let c = k.color_attachments[i];
        let resolve = match c.resolve {
            Some(r) => Some(r.bits),
            None => None,
        };
        slots.push((c.color.bits, resolve));
        i += 1;
        proof {
            assert(slots@ =~= plain_attachment_set(attachment_set(*k)).0.take(i as int));
        }
    }
    proof {
        let full = plain_attachment_set(attachment_set(*k)).0;
        assert(full.take(full.len() as int) =~= full);
    }
    let depth = match k.depth_stencil_attachment {
        Some(d) => Some(d.bits),
        None => None,
    };
    (slots, depth)
}

/// Attachment set to framebuffer key map, keyed by the plain form of the
/// set.
#[verifier::external_body]
pub struct FramebufferLookup {
    map: FxHashMap<(Vec<(u64, Option<u64>)>, Option<u64>), u64>,
}

/// Contents of a framebuffer lookup map: attachment sets, framebuffer keys
/// in their 64-bit form.
pub uninterp spec fn framebuffer_lookup(m: FramebufferLookup) -> Map<
    (Seq<ColorAttachmentSlot>, Option<GraphResourceKey>),
    u64,
>;

/// `FxHashMap::default`: an empty map.
#[verifier::external_body]
pub(crate) fn lookup_new() -> (m: FramebufferLookup)
    ensures
        framebuffer_lookup(m) == no_entries::<(Seq<ColorAttachmentSlot>, Option<GraphResourceKey>)>(),
{
    FramebufferLookup { map: FxHashMap::default() }
}

/// `HashMap::get`: the framebuffer key stored for the attachment set whose
/// plain form is `p`, if any (plain forms are equal exactly when the sets
/// are).
#[verifier::external_body]
fn lookup_get_plain(m: &FramebufferLookup, p: &(Vec<(u64, Option<u64>)>, Option<u64>)) -> (r: Option<u64>)
    ensures
        forall|s: (Seq<ColorAttachmentSlot>, Option<GraphResourceKey>)|
            plain_attachment_set(s) == plain_set_view(*p) ==> (r is Some
                <==> framebuffer_lookup(*m).contains_key(s)) && (r matches Some(b) ==> b
                == framebuffer_lookup(*m)[s]),
{
    m.map.get(p).copied()
}

/// The framebuffer key stored for the attachment set of `k`, if any.
pub(crate) fn lookup_get(m: &FramebufferLookup, k: &FramebufferLookupKey) -> (r: Option<u64>)
    ensures
        r is Some <==> framebuffer_lookup(*m).contains_key(attachment_set(*k)),
        r matches Some(b) ==> b == framebuffer_lookup(*m)[attachment_set(*k)],
{
    let p = plain_key(k);
    lookup_get_plain(m, &p)
}

/// `HashMap::insert`: stores the framebuffer key for the attachment set
/// whose plain form is `p`.
#[verifier::external_body]
fn lookup_insert_plain(m: &mut FramebufferLookup, p: (Vec<(u64, Option<u64>)>, Option<u64>), bits: u64)
    ensures
        forall|s: (Seq<ColorAttachmentSlot>, Option<GraphResourceKey>)|
            plain_attachment_set(s) == plain_set_view(p) ==> framebuffer_lookup(*final(m))
                == framebuffer_lookup(*old(m)).insert(s, bits),
{
    m.map.insert(p, bits);
}

/// Stores the framebuffer key for the attachment set of `k`.
pub(crate) fn lookup_insert(m: &mut FramebufferLookup, k: &FramebufferLookupKey, bits: u64)
    ensures
        framebuffer_lookup(*final(m)) == framebuffer_lookup(*old(m)).insert(attachment_set(*k), bits),
{
    let p = plain_key(k);
    lookup_insert_plain(m, p, bits);
}

/// `HashMap::retain`: keeps the attachment sets whose framebuffer key is
/// not `bits`.
#[verifier::external_body]
pub(crate) fn lookup_retain_other(m: &mut FramebufferLookup, bits: u64)
    ensures
        forall|s: (Seq<ColorAttachmentSlot>, Option<GraphResourceKey>)|
            #[trigger] framebuffer_lookup(*final(m)).contains_key(s) <==> framebuffer_lookup(
                *old(m),
            ).contains_key(s) && framebuffer_lookup(*old(m))[s] != bits,
        forall|s: (Seq<ColorAttachmentSlot>, Option<GraphResourceKey>)|
            #[trigger] framebuffer_lookup(*final(m)).contains_key(s) ==> framebuffer_lookup(
                *final(m),
            )[s] == framebuffer_lookup(*old(m))[s],
{
    m.map.retain(|_, v| keeps_entry(*v, bits));
}

/// `HashMap::clear`: removes every entry.
#[verifier::external_body]
pub(crate) fn lookup_clear(m: &mut FramebufferLookup)
    ensures
        framebuffer_lookup(*final(m)) == no_entries::<(Seq<ColorAttachmentSlot>, Option<GraphResourceKey>)>(),
{
    m.map.clear()
}

} // verus!
