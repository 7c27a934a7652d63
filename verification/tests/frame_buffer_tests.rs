use galaxy_3d_engine::frame_buffer::{
    ColorAttachmentSlot, Framebuffer, FramebufferAttachment, FramebufferDesc, FramebufferLookupKey,
    TextureInfo, TextureTable,
};
use galaxy_3d_engine::graphics_device::Framebuffer as BackendFramebuffer;
use galaxy_3d_engine::keys::{GraphResourceKey, TextureKey};
use std::collections::HashSet;

fn mock_tex_key() -> TextureKey {
    TextureKey { bits: 0x1_0000_0007 }
}

fn mock_textures() -> TextureTable {
    let mut t = TextureTable::new();
    t.insert(mock_tex_key(), TextureInfo { width: 64, height: 64, format: 37, sample_count: 1 });
    t
}

fn make_fb(color_count: usize, depth: bool) -> Framebuffer {
    let gd_fb = FramebufferDesc {
        color_attachments: vec![],
        depth_stencil_attachment: None,
        color_resolve_attachments: vec![],
        width: 640,
        height: 480,
    };
    let color = (0..color_count)
        .map(|_| ColorAttachmentSlot { color: GraphResourceKey::default(), resolve: None })
        .collect();
    let depth_stencil = if depth { Some(GraphResourceKey::default()) } else { None };
    Framebuffer::new(gd_fb, color, depth_stencil)
}

#[test]
fn test_framebuffer_attachment_whole_defaults() {
    let attachment = FramebufferAttachment::whole(mock_tex_key());
    assert_eq!(attachment.base_mip_level, 0);
    assert_eq!(attachment.base_array_layer, 0);
    assert_eq!(attachment.layer_count, 1);
    assert_eq!(mock_textures().get(attachment.texture).unwrap().width, 64);
}

#[test]
fn test_framebuffer_attachment_mip_layer() {
    let attachment = FramebufferAttachment::mip_layer(mock_tex_key(), 3, 7);
    assert_eq!(attachment.base_mip_level, 3);
    assert_eq!(attachment.base_array_layer, 7);
    assert_eq!(attachment.layer_count, 1);
}

#[test]
fn test_framebuffer_attachment_mip_layer_zero() {
    let attachment = FramebufferAttachment::mip_layer(mock_tex_key(), 0, 0);
    assert_eq!(attachment.base_mip_level, 0);
    assert_eq!(attachment.base_array_layer, 0);
    assert_eq!(attachment.layer_count, 1);
}

#[test]
fn test_framebuffer_attachment_struct_construction() {
    let attachment = FramebufferAttachment {
        texture: mock_tex_key(),
        base_mip_level: 1,
        base_array_layer: 0,
        layer_count: 6,
    };
    assert_eq!(attachment.layer_count, 6);
}

#[test]
fn test_framebuffer_new_no_attachments() {
    let fb = make_fb(0, false);
    assert_eq!(fb.color_attachments().len(), 0);
    assert!(fb.depth_stencil_attachment().is_none());
}

#[test]
fn test_framebuffer_new_color_only() {
    let fb = make_fb(2, false);
    assert_eq!(fb.color_attachments().len(), 2);
    assert!(fb.depth_stencil_attachment().is_none());
}

#[test]
fn test_framebuffer_new_color_and_depth() {
    let fb = make_fb(1, true);
    assert_eq!(fb.color_attachments().len(), 1);
    assert!(fb.depth_stencil_attachment().is_some());
}

#[test]
fn test_framebuffer_gd_framebuffer_dimensions() {
    let fb = make_fb(1, false);
    assert_eq!(fb.gd_framebuffer().width(), 640);
    assert_eq!(fb.gd_framebuffer().height(), 480);
}

#[test]
fn test_color_attachment_slot_equality_no_resolve() {
    let a = ColorAttachmentSlot { color: GraphResourceKey::default(), resolve: None };
    let b = ColorAttachmentSlot { color: GraphResourceKey::default(), resolve: None };
    assert_eq!(a, b);
}

#[test]
fn test_color_attachment_slot_inequality_resolve() {
    let a = ColorAttachmentSlot { color: GraphResourceKey::default(), resolve: None };
    let b = ColorAttachmentSlot {
        color: GraphResourceKey::default(),
        resolve: Some(GraphResourceKey::default()),
    };
    assert_eq!(a.color, b.color);
    assert_ne!(a.resolve, b.resolve);
}

#[test]
fn test_color_attachment_slot_clone_copy() {
    let a = ColorAttachmentSlot {
        color: GraphResourceKey::default(),
        resolve: Some(GraphResourceKey::default()),
    };
    let b = a;
    let c = a.clone();
    assert_eq!(a, b);
    assert_eq!(a, c);
}

#[test]
fn test_color_attachment_slot_hashable() {
    let mut set = HashSet::new();
    set.insert(ColorAttachmentSlot { color: GraphResourceKey::default(), resolve: None });
    set.insert(ColorAttachmentSlot { color: GraphResourceKey::default(), resolve: None });
    assert_eq!(set.len(), 1);
}

#[test]
fn test_framebuffer_lookup_key_equality() {
    let slot = ColorAttachmentSlot { color: GraphResourceKey::default(), resolve: None };
    let a = FramebufferLookupKey { color_attachments: vec![slot], depth_stencil_attachment: None };
    let b = FramebufferLookupKey { color_attachments: vec![slot], depth_stencil_attachment: None };
    assert_eq!(a, b);
    assert!(a.same_as(&b));
}

#[test]
fn test_framebuffer_lookup_key_inequality_different_depth() {
    let slot = ColorAttachmentSlot { color: GraphResourceKey::default(), resolve: None };
    let a = FramebufferLookupKey { color_attachments: vec![slot], depth_stencil_attachment: None };
    let b = FramebufferLookupKey {
        color_attachments: vec![slot],
        depth_stencil_attachment: Some(GraphResourceKey::default()),
    };
    assert_ne!(a, b);
    assert!(!a.same_as(&b));
}

#[test]
fn test_framebuffer_lookup_key_hashable() {
    let slot = ColorAttachmentSlot { color: GraphResourceKey::default(), resolve: None };
    let key1 = FramebufferLookupKey { color_attachments: vec![slot], depth_stencil_attachment: None };
    let key2 = FramebufferLookupKey { color_attachments: vec![slot], depth_stencil_attachment: None };
    let key3 = FramebufferLookupKey { color_attachments: vec![], depth_stencil_attachment: None };
    let mut set = HashSet::new();
    set.insert(key1);
    set.insert(key2);
    set.insert(key3);
    assert_eq!(set.len(), 2);
}

#[test]
fn lookup_keys_differ_by_slot_order() {
    let a = ColorAttachmentSlot { color: GraphResourceKey { bits: 0x1_0000_0001 }, resolve: None };
    let b = ColorAttachmentSlot { color: GraphResourceKey { bits: 0x1_0000_0002 }, resolve: None };
    let k1 = FramebufferLookupKey { color_attachments: vec![a, b], depth_stencil_attachment: None };
    let k2 = FramebufferLookupKey { color_attachments: vec![b, a], depth_stencil_attachment: None };
    assert!(!k1.same_as(&k2));
    assert!(k1.same_as(&k1.clone()));
}

#[test]
fn texture_table_insert_replaces_and_keeps_others() {
    let mut t = TextureTable::new();
    let k1 = TextureKey { bits: 0x1_0000_0001 };
    let k2 = TextureKey { bits: 0x1_0000_0002 };
    assert!(t.get(k1).is_none());
    t.insert(k1, TextureInfo { width: 8, height: 8, format: 1, sample_count: 1 });
    t.insert(k2, TextureInfo { width: 16, height: 4, format: 2, sample_count: 4 });
    t.insert(k1, TextureInfo { width: 32, height: 32, format: 1, sample_count: 1 });
    assert_eq!(t.get(k1).unwrap().width, 32);
    assert_eq!(t.get(k2).unwrap(), TextureInfo { width: 16, height: 4, format: 2, sample_count: 4 });
}
