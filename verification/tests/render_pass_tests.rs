use galaxy_3d_engine::access_type::AccessType;
use galaxy_3d_engine::keys::{FramebufferKey, GraphResourceKey};
use galaxy_3d_engine::render_pass::{
    AttachmentDesc, ClearColor, ClearValue, LoadOp, PassCache, PassInfo, RenderPass, RenderPassDesc,
    ResourceAccess, StoreOp,
};

const R8G8B8A8_UNORM: u32 = 37;
const D32_FLOAT: u32 = 126;

fn make_pass_info() -> PassInfo {
    PassInfo { color_formats: vec![R8G8B8A8_UNORM], depth_format: Some(D32_FLOAT), sample_count: 1, generation: 1 }
}

fn empty_cache() -> PassCache {
    PassCache { framebuffer_key: None, pass_info: None, render_pass_desc: None, clear_values: Vec::new() }
}

fn make_render_pass_desc() -> RenderPassDesc {
    RenderPassDesc {
        color_attachments: vec![AttachmentDesc {
            format: R8G8B8A8_UNORM,
            samples: 1,
            load_op: LoadOp::Clear,
            store_op: StoreOp::Store,
            stencil_load_op: LoadOp::DontCare,
            stencil_store_op: StoreOp::DontCare,
        }],
        depth_stencil_attachment: None,
        color_resolve_attachments: vec![],
    }
}

fn color(r: f32, g: f32, b: f32, a: f32) -> ClearColor {
    ClearColor { r: r.to_bits(), g: g.to_bits(), b: b.to_bits(), a: a.to_bits() }
}

fn make_pass(name: &str, accesses: Vec<ResourceAccess>) -> RenderPass {
    RenderPass::new(name.to_string(), accesses, empty_cache())
}

#[test]
fn test_render_pass_new_minimal() {
    let pass = make_pass("test", vec![]);
    assert_eq!(pass.name(), "test");
    assert_eq!(pass.accesses().len(), 0);
    assert!(pass.framebuffer_key().is_none());
    assert!(pass.pass_info().is_none());
    assert!(pass.render_pass_desc().is_none());
    assert_eq!(pass.clear_values().len(), 0);
}

#[test]
fn test_render_pass_with_accesses() {
    let access = ResourceAccess {
        graph_resource_key: GraphResourceKey::default(),
        access_type: AccessType::ColorAttachmentWrite,
        target_ops: None,
    };
    let pass = make_pass("with_accesses", vec![access]);
    assert_eq!(pass.accesses().len(), 1);
    assert_eq!(pass.accesses()[0].access_type, AccessType::ColorAttachmentWrite);
}

#[test]
fn test_render_pass_full_construction() {
    let pass = RenderPass::new(
        "full".to_string(),
        vec![],
        PassCache {
            framebuffer_key: Some(FramebufferKey::default()),
            pass_info: Some(make_pass_info()),
            render_pass_desc: Some(make_render_pass_desc()),
            clear_values: vec![ClearValue::Color(color(1.0, 0.0, 0.0, 1.0))],
        },
    );
    assert_eq!(pass.name(), "full");
    assert!(pass.framebuffer_key().is_some());
    assert!(pass.pass_info().is_some());
    assert!(pass.render_pass_desc().is_some());
    assert_eq!(pass.clear_values().len(), 1);
}

#[test]
fn test_render_pass_pass_info_format_matches() {
    let pass = RenderPass::new(
        "fmt".to_string(),
        vec![],
        PassCache { pass_info: Some(make_pass_info()), ..empty_cache() },
    );
    let info = pass.pass_info().unwrap();
    assert_eq!(info.color_formats.len(), 1);
    assert_eq!(info.depth_format, Some(D32_FLOAT));
}

#[test]
fn test_render_pass_replace_accesses() {
    let initial = vec![ResourceAccess {
        graph_resource_key: GraphResourceKey::default(),
        access_type: AccessType::FragmentShaderRead,
        target_ops: None,
    }];
    let mut pass = make_pass("replace", initial);
    let replaced = vec![
        ResourceAccess {
            graph_resource_key: GraphResourceKey::default(),
            access_type: AccessType::ComputeWrite,
            target_ops: None,
        },
        ResourceAccess {
            graph_resource_key: GraphResourceKey::default(),
            access_type: AccessType::ComputeRead,
            target_ops: None,
        },
    ];
    pass.replace_accesses(replaced);
    assert_eq!(pass.accesses().len(), 2);
    assert_eq!(pass.accesses()[0].access_type, AccessType::ComputeWrite);
    assert_eq!(pass.accesses()[1].access_type, AccessType::ComputeRead);
}

#[test]
fn test_render_pass_set_cache_replaces_all_cache_fields() {
    let mut pass = make_pass("cache", vec![]);
    let clear_values = vec![
        ClearValue::Color(color(0.0, 0.0, 0.0, 1.0)),
        ClearValue::DepthStencil { depth: 1.0f32.to_bits(), stencil: 0 },
    ];
    pass.set_cache(PassCache {
        framebuffer_key: Some(FramebufferKey::default()),
        pass_info: Some(make_pass_info()),
        render_pass_desc: Some(make_render_pass_desc()),
        clear_values,
    });
    assert!(pass.framebuffer_key().is_some());
    assert!(pass.pass_info().is_some());
    assert!(pass.render_pass_desc().is_some());
    assert_eq!(pass.clear_values().len(), 2);
    assert_eq!(pass.name(), "cache");
}

#[test]
fn test_render_pass_set_cache_clears_to_none() {
    let mut pass = RenderPass::new(
        "clear_cache".to_string(),
        vec![],
        PassCache {
            framebuffer_key: Some(FramebufferKey::default()),
            pass_info: Some(make_pass_info()),
            render_pass_desc: Some(make_render_pass_desc()),
            clear_values: vec![ClearValue::Color(color(0.5, 0.5, 0.5, 1.0))],
        },
    );
    pass.set_cache(empty_cache());
    assert!(pass.framebuffer_key().is_none());
    assert!(pass.pass_info().is_none());
    assert!(pass.render_pass_desc().is_none());
    assert_eq!(pass.clear_values().len(), 0);
}

#[test]
fn test_render_pass_clear_values_color_and_depth() {
    let pass = RenderPass::new(
        "clear".to_string(),
        vec![],
        PassCache {
            clear_values: vec![
                ClearValue::Color(color(0.1, 0.2, 0.3, 1.0)),
                ClearValue::DepthStencil { depth: 0.0f32.to_bits(), stencil: 42 },
            ],
            ..empty_cache()
        },
    );
    let cvs = pass.clear_values();
    assert_eq!(cvs.len(), 2);
    match cvs[0] {
        ClearValue::Color(c) => {
            assert_eq!(
                [f32::from_bits(c.r), f32::from_bits(c.g), f32::from_bits(c.b), f32::from_bits(c.a)],
                [0.1, 0.2, 0.3, 1.0]
            )
        }
        _ => panic!("expected Color"),
    }
    match cvs[1] {
        ClearValue::DepthStencil { depth, stencil } => {
            assert_eq!(f32::from_bits(depth), 0.0);
            assert_eq!(stencil, 42);
        }
        _ => panic!("expected DepthStencil"),
    }
}
