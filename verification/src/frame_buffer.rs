//! Framebuffers: attachment descriptions, the texture properties the
//! render graph reads, and the render-graph framebuffer record.

use vstd::prelude::*;
use crate::keys::{GraphResourceKey, TextureKey};

verus! {

/// Sample count of a single-sampled texture.
pub const SINGLE_SAMPLED: u32 = 1u32;

/// Properties of a texture that the render graph reads.
#[derive(Debug, Clone, Copy, PartialEq, Eq, Structural)]
pub struct TextureInfo {
    /// Width of mip 0 in pixels.
    pub width: u32,
    /// Height of mip 0 in pixels.
    pub height: u32,
    /// Pixel format, as the backend numbers it.
    pub format: u32,
    /// Samples per pixel (1 = single-sampled).
    pub sample_count: u32,
}

/// The textures of the resource manager, by key: what the render graph
/// reads of them.
pub struct TextureTable {
    entries: Vec<(TextureKey, TextureInfo)>,
}

/// Keys of the table are distinct.
pub open spec fn texture_keys_distinct(s: Seq<(TextureKey, TextureInfo)>) -> bool {
    forall|i: int, j: int| 0 <= i < j < s.len() ==> #[trigger] s[i].0 != #[trigger] s[j].0
}

/// The texture registered under a key, if any.
pub open spec fn texture_lookup(s: Seq<(TextureKey, TextureInfo)>, k: TextureKey) -> Option<TextureInfo> {
    if exists|i: int| 0 <= i < s.len() && #[trigger] s[i].0 == k {
        Some(s[choose|i: int| 0 <= i < s.len() && #[trigger] s[i].0 == k].1)
    } else {
        None
    }
}

impl View for TextureTable {
    type V = Seq<(TextureKey, TextureInfo)>;

    closed spec fn view(&self) -> Seq<(TextureKey, TextureInfo)> {
        self.entries@
    }
}

impl TextureTable {
    /// Keys are distinct.
    pub closed spec fn wf(&self) -> bool {
        texture_keys_distinct(self@)
    }

    /// The texture registered under a key, if any.
    pub open spec fn spec_get(&self, k: TextureKey) -> Option<TextureInfo> {
        texture_lookup(self@, k)
    }

    /// An empty table.
    pub fn new() -> (t: Self)
        ensures
            t.wf(),
            forall|k: TextureKey| t.spec_get(k) is None,
    {
        TextureTable { entries: Vec::new() }
    }

    /// Register (or re-register) the texture under `key`.
    pub fn insert(&mut self, key: TextureKey, info: TextureInfo)
        requires
            old(self).wf(),
        ensures
            final(self).wf(),
            final(self).spec_get(key) == Some(info),
            forall|k: TextureKey| k != key ==> final(self).spec_get(k) == old(self).spec_get(k),
    {
        let mut i: usize = 0;
        while i < self.entries.len()
            invariant
                self.wf(),
                i <= self@.len(),
                forall|j: int| 0 <= j < i ==> #[trigger] self@[j].0 != key,
                self@ == old(self)@,
            decreases self@.len() - i,
        {
            if self.entries[i].0 == key {
                let ghost old_v = self@;
                self.entries.set(i, (key, info));
                proof {
                    assert(old_v[i as int].0 == key);
                    assert forall|a: int, b: int| 0 <= a < b < self@.len() implies #[trigger] self@[a].0
                        != #[trigger] self@[b].0 by {
                        assert(self@[a].0 == old_v[a].0 && self@[b].0 == old_v[b].0);
                    }
                    assert(self@[i as int].0 == key);
                    let c = choose|j: int| 0 <= j < self@.len() && #[trigger] self@[j].0 == key;
                    assert(c == i as int);
                    assert forall|k: TextureKey| k != key implies self.spec_get(k) == old(self).spec_get(k) by {
                        if exists|j: int| 0 <= j < old_v.len() && #[trigger] old_v[j].0 == k {
                            let c1 = choose|j: int| 0 <= j < old_v.len() && #[trigger] old_v[j].0 == k;
                            assert(self@[c1].0 == k);
                            let c2 = choose|j: int| 0 <= j < self@.len() && #[trigger] self@[j].0 == k;
                            assert(c2 != i && c1 != i);
                            assert(old_v[c2].0 == k);
                        } else {
                            assert forall|j: int| 0 <= j < self@.len() implies #[trigger] self@[j].0 != k by {
                                if j != i {
                                    assert(self@[j] == old_v[j]);
                                }
                            }
                        }
                    }
                }
                return;
            }
            i += 1;
        }
        let ghost old_v = self@;
        self.entries.push((key, info));
        proof {
            assert forall|a: int, b: int| 0 <= a < b < self@.len() implies #[trigger] self@[a].0
                != #[trigger] self@[b].0 by {
                if b == old_v.len() {
                    assert(self@[a] == old_v[a]);
                } else {
                    assert(self@[a] == old_v[a] && self@[b] == old_v[b]);
                }
            }
            let c = choose|j: int| 0 <= j < self@.len() && #[trigger] self@[j].0 == key;
            assert(self@[old_v.len() as int].0 == key);
            if c != old_v.len() {
                assert(self@[c] == old_v[c]);
            }
            assert forall|k: TextureKey| k != key implies self.spec_get(k) == old(self).spec_get(k) by {
                if exists|j: int| 0 <= j < old_v.len() && #[trigger] old_v[j].0 == k {
                    let c1 = choose|j: int| 0 <= j < old_v.len() && #[trigger] old_v[j].0 == k;
                    assert(self@[c1].0 == k);
                    let c2 = choose|j: int| 0 <= j < self@.len() && #[trigger] self@[j].0 == k;
                    assert(c2 < old_v.len());
                    assert(self@[c2] == old_v[c2]);
                } else {
                    assert forall|j: int| 0 <= j < self@.len() implies #[trigger] self@[j].0 != k by {
                        if j < old_v.len() {
                            assert(self@[j] == old_v[j]);
                        }
                    }
                }
            }
        }
    }

    /// The texture registered under `key`, if any.
    pub fn get(&self, key: TextureKey) -> (r: Option<TextureInfo>)
        requires
            self.wf(),
        ensures
            r == self.spec_get(key),
    {
        let mut i: usize = 0;
        while i < self.entries.len()
            invariant
                self.wf(),
                i <= self@.len(),
                forall|j: int| 0 <= j < i ==> #[trigger] self@[j].0 != key,
            decreases self@.len() - i,
        {
            if self.entries[i].0 == key {
                proof {
                    assert(self@[i as int].0 == key);
                    let c = choose|j: int| 0 <= j < self@.len() && #[trigger] self@[j].0 == key;
                    assert(c == i as int);
                }
                return Some(self.entries[i].1);
            }
            i += 1;
        }
        None
    }
}

/// A single framebuffer attachment: a texture, a mip level and a range of
/// layers.
#[derive(Debug, Clone, Copy, PartialEq, Eq, Structural)]
pub struct FramebufferAttachment {
    /// Source texture.
    pub texture: TextureKey,
    /// Mip level to render into (0 = base level).
    pub base_mip_level: u32,
    /// First array layer to render into.
    pub base_array_layer: u32,
    /// Number of consecutive layers to render into (at least 1).
    pub layer_count: u32,
}

impl FramebufferAttachment {
    /// Mip 0, layer 0, a single layer.
    pub fn whole(texture: TextureKey) -> (a: Self)
        ensures
            a == (FramebufferAttachment {
                texture,
                base_mip_level: 0,
                base_array_layer: 0,
                layer_count: 1,
            }),
    {
        FramebufferAttachment { texture, base_mip_level: 0, base_array_layer: 0, layer_count: 1 }
    }

    /// A single mip and a single layer.
    pub fn mip_layer(texture: TextureKey, mip_level: u32, layer: u32) -> (a: Self)
        ensures
            a == (FramebufferAttachment {
                texture,
                base_mip_level: mip_level,
                base_array_layer: layer,
                layer_count: 1,
            }),
    {
        FramebufferAttachment {
            texture,
            base_mip_level: mip_level,
            base_array_layer: layer,
            layer_count: 1,
        }
    }
}

/// What a backend framebuffer is built from: its attachments and its
/// extent.
#[derive(Debug, Clone)]
pub struct FramebufferDesc {
    /// Color attachments.
    pub color_attachments: Vec<FramebufferAttachment>,
    /// Optional depth/stencil attachment.
    pub depth_stencil_attachment: Option<FramebufferAttachment>,
    /// Resolve attachments for MSAA color targets (empty without MSAA);
    /// as many as color attachments when present.
    pub color_resolve_attachments: Vec<FramebufferAttachment>,
    /// Width in pixels.
    pub width: u32,
    /// Height in pixels.
    pub height: u32,
}

/// One color attachment slot of a framebuffer: a color graph resource and
/// its optional MSAA resolve target.
#[derive(Debug, Clone, Copy, PartialEq, Eq, Hash, Structural)]
pub struct ColorAttachmentSlot {
    /// The (possibly multi-sampled) color attachment.
    pub color: GraphResourceKey,
    /// Optional single-sampled resolve target.
    pub resolve: Option<GraphResourceKey>,
}

/// Render-graph framebuffer: the backend framebuffer's description plus
/// the graph resources it was built from.
pub struct Framebuffer {
    gd_framebuffer: FramebufferDesc,
    color_attachments: Vec<ColorAttachmentSlot>,
    depth_stencil_attachment: Option<GraphResourceKey>,
}

impl Framebuffer {
    /// Backend framebuffer description.
    pub closed spec fn spec_gd_framebuffer(&self) -> FramebufferDesc {
        self.gd_framebuffer
    }

    /// Color slots the framebuffer was built from.
    pub closed spec fn spec_color_attachments(&self) -> Seq<ColorAttachmentSlot> {
        self.color_attachments@
    }

    /// Depth/stencil resource the framebuffer was built from.
    pub closed spec fn spec_depth_stencil_attachment(&self) -> Option<GraphResourceKey> {
        self.depth_stencil_attachment
    }

    /// Record a framebuffer built from the given resources.
    pub fn new(
        gd_framebuffer: FramebufferDesc,
        color_attachments: Vec<ColorAttachmentSlot>,
        depth_stencil_attachment: Option<GraphResourceKey>,
    ) -> (fb: Self)
        ensures
            fb.spec_gd_framebuffer() == gd_framebuffer,
            fb.spec_color_attachments() == color_attachments@,
            fb.spec_depth_stencil_attachment() == depth_stencil_attachment,
    {
        Framebuffer { gd_framebuffer, color_attachments, depth_stencil_attachment }
    }

    /// Backend framebuffer description.
    pub fn gd_framebuffer(&self) -> (d: &FramebufferDesc)
        ensures
            *d == self.spec_gd_framebuffer(),
    {
        &self.gd_framebuffer
    }

    /// Color slots, in attachment order.
    pub fn color_attachments(&self) -> (s: &[ColorAttachmentSlot])
        ensures
            s@ == self.spec_color_attachments(),
    {
        self.color_attachments.as_slice()
    }

    /// Depth/stencil resource, if any.
    pub fn depth_stencil_attachment(&self) -> (d: Option<GraphResourceKey>)
        ensures
            d == self.spec_depth_stencil_attachment(),
    {
        self.depth_stencil_attachment
    }
}

/// Key under which the manager deduplicates framebuffers: the exact list
/// of color slots, in order, plus the depth/stencil resource.
#[derive(Debug, Clone, PartialEq, Eq, Hash)]
pub struct FramebufferLookupKey {
    pub color_attachments: Vec<ColorAttachmentSlot>,
    pub depth_stencil_attachment: Option<GraphResourceKey>,
}

/// Two lookup keys designate the same attachment set.
pub open spec fn same_lookup_key(a: FramebufferLookupKey, b: FramebufferLookupKey) -> bool {
    a.color_attachments@ == b.color_attachments@ && a.depth_stencil_attachment
        == b.depth_stencil_attachment
}

impl FramebufferLookupKey {
    /// Whether two lookup keys designate the same attachment set.
    pub fn same_as(&self, other: &FramebufferLookupKey) -> (r: bool)
        ensures
            r == same_lookup_key(*self, *other),
    {
        if self.color_attachments.len() != other.color_attachments.len() {
            return false;
        }
        if self.depth_stencil_attachment != other.depth_stencil_attachment {
            return false;
        }
        let n = self.color_attachments.len();
        let mut i: usize = 0;
        while i < n
            invariant
                i <= n,
                n == self.color_attachments@.len(),
                n == other.color_attachments@.len(),
                forall|j: int| 0 <= j < i ==> self.color_attachments@[j] == other.color_attachments@[j],
            decreases n - i,
        {
            if self.color_attachments[i] != other.color_attachments[i] {
                return false;
            }
            i += 1;
        }
        assert(self.color_attachments@ =~= other.color_attachments@);
        true
    }
}

} // verus!
