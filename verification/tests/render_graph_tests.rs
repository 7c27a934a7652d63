use galaxy_3d_engine::render_graph::AccessBarrier;
use galaxy_3d_engine::pass_order::AccessTarget;
use galaxy_3d_engine::graph_resource::{BufferSubRange, ImageSubRange};
use galaxy_3d_engine::frame_commands::{pass_buffer_accesses, pass_image_accesses};
use galaxy_3d_engine::access_type::AccessType;
use galaxy_3d_engine::error::Error;
use galaxy_3d_engine::frame_buffer::{TextureInfo, TextureTable};
use galaxy_3d_engine::graph_resource::{GraphResource, REMAINING_ARRAY_LAYERS};
use galaxy_3d_engine::keys::{BufferKey, GraphResourceKey, RenderGraphKey, TextureKey};
use galaxy_3d_engine::frame_commands::{after_failure, frame_step, pass_commands, PassCommand};
use galaxy_3d_engine::keys::RenderPassKey;
use galaxy_3d_engine::command_lists::{CommandListSource, CreationLog};
use galaxy_3d_engine::render_graph::{create_command_lists, RenderGraph};
use galaxy_3d_engine::render_graph_manager::RenderGraphManager;
use galaxy_3d_engine::render_pass::{ClearColor, LoadOp, ResourceAccess, StoreOp, TargetOps};

struct GraphTestEnv {
    textures: TextureTable,
    color_texture: TextureKey,
    depth_texture: TextureKey,
}

fn setup_engine_for_render_graph() -> GraphTestEnv {
    let color_texture = TextureKey { bits: 0x1_0000_0000 };
    let depth_texture = TextureKey { bits: 0x1_0000_0001 };
    let mut textures = TextureTable::new();
    textures.insert(color_texture, TextureInfo { width: 64, height: 64, format: 37, sample_count: 1 });
    textures.insert(depth_texture, TextureInfo { width: 64, height: 64, format: 126, sample_count: 1 });
    GraphTestEnv { textures, color_texture, depth_texture }
}

fn default_color_ops() -> TargetOps {
    TargetOps::Color {
        clear_color: ClearColor { r: 0, g: 0, b: 0, a: 1.0f32.to_bits() },
        load_op: LoadOp::Clear,
        store_op: StoreOp::Store,
        resolve_target: None,
    }
}

fn default_depth_ops() -> TargetOps {
    TargetOps::DepthStencil {
        depth_clear: 1.0f32.to_bits(),
        stencil_clear: 0,
        depth_load_op: LoadOp::Clear,
        depth_store_op: StoreOp::Store,
        stencil_load_op: LoadOp::DontCare,
        stencil_store_op: StoreOp::DontCare,
    }
}

fn tex(k: TextureKey, layer: u32, count: u32) -> GraphResource {
    GraphResource::Texture { texture_key: k, base_mip_level: 0, mip_count: 1, base_array_layer: layer, layer_count: count }
}

fn access(key: GraphResourceKey, access_type: AccessType) -> ResourceAccess {
    let target_ops = match access_type {
        AccessType::ColorAttachmentWrite => Some(default_color_ops()),
        AccessType::DepthStencilWrite => Some(default_depth_ops()),
        _ => None,
    };
    ResourceAccess { graph_resource_key: key, access_type, target_ops }
}

fn targets(rgm: &RenderGraphManager, passes: &[RenderPassKey]) -> Vec<bool> {
    passes
        .iter()
        .map(|k| {
            let p = rgm.render_pass(*k).unwrap();
            p.render_pass_desc().is_some() && p.framebuffer_key().is_some()
        })
        .collect()
}

fn position(order: &[usize], pass: usize) -> usize {
    order.iter().position(|&p| p == pass).unwrap()
}

#[test]
fn test_render_graph_new_with_one_frame() {
    let graph = RenderGraph::new("test".to_string(), 1).unwrap();
    assert_eq!(graph.name(), "test");
}

#[test]
fn test_render_graph_new_with_multiple_frames() {
    let graph = RenderGraph::new("test".to_string(), 3).unwrap();
    assert_eq!(graph.name(), "test");
    assert_eq!(graph.frames_in_flight(), 3);
    assert_eq!(graph.current_frame(), 2);
}

#[test]
fn test_render_graph_new_with_zero_frames_fails() {
    let result = RenderGraph::new("test".to_string(), 0);
    assert!(result.is_err());
}

#[test]
fn test_render_graph_key_default() {
    let k = RenderGraphKey::default();
    assert_eq!(k, RenderGraphKey::default());
}

#[test]
fn test_render_graph_execute_with_no_passes_runs_post_only() {
    let mut rgm = RenderGraphManager::new();
    let graph_key = rgm.create_render_graph("main", 1).unwrap();
    let plan = rgm.execute_render_graph(graph_key, &[]).unwrap();
    assert!(plan.order.is_empty());
    assert_eq!(plan.frame, 0);
    let cmds = pass_commands(&plan, &[]);
    assert_eq!(cmds, vec![PassCommand::Begin, PassCommand::PostPasses, PassCommand::End]);
    let post_called = cmds.iter().filter(|c| **c == PassCommand::PostPasses).count();
    assert_eq!(post_called, 1);
}

#[test]
fn test_render_graph_execute_via_manager_runs_post_passes() {
    let env = setup_engine_for_render_graph();
    let mut rgm = RenderGraphManager::new();
    let graph_key = rgm.create_render_graph("main", 1).unwrap();
    let color = rgm.create_graph_resource("color", tex(env.color_texture, 0, 1)).unwrap();
    let pass_key = rgm.create_render_pass("opaque", vec![access(color, AccessType::ColorAttachmentWrite)], &env.textures).unwrap();
    let plan = rgm.execute_render_graph(graph_key, &[pass_key]).unwrap();
    let has_target = targets(&rgm, &[pass_key]);
    assert_eq!(has_target, vec![true]);
    let cmds = pass_commands(&plan, &has_target);
    assert_eq!(
        cmds,
        vec![
            PassCommand::Begin,
            PassCommand::BeginRenderPass(0),
            PassCommand::RunAction(0),
            PassCommand::EndRenderPass(0),
            PassCommand::PostPasses,
            PassCommand::End,
        ]
    );
    let post_called = cmds.iter().filter(|c| **c == PassCommand::PostPasses).count();
    assert_eq!(post_called, 1);
}

#[test]
fn passes_without_attachments_record_no_action() {
    let env = setup_engine_for_render_graph();
    let mut rgm = RenderGraphManager::new();
    let graph_key = rgm.create_render_graph("main", 2).unwrap();
    let color = rgm.create_graph_resource("color", tex(env.color_texture, 0, 1)).unwrap();
    let writer = rgm.create_render_pass("w", vec![access(color, AccessType::ColorAttachmentWrite)], &env.textures).unwrap();
    let reader = rgm.create_render_pass("r", vec![access(color, AccessType::FragmentShaderRead)], &env.textures).unwrap();
    let passes = [reader, writer];
    let plan = rgm.execute_render_graph(graph_key, &passes).unwrap();
    let has_target = targets(&rgm, &passes);
    assert_eq!(has_target, vec![false, true]);
    let cmds = pass_commands(&plan, &has_target);
    assert_eq!(
        cmds,
        vec![
            PassCommand::Begin,
            PassCommand::BeginRenderPass(1),
            PassCommand::RunAction(1),
            PassCommand::EndRenderPass(1),
            PassCommand::PostPasses,
            PassCommand::End,
        ]
    );
}

#[test]
fn failed_commands_still_end_the_command_list() {
    let cmds = vec![
        PassCommand::Begin,
        PassCommand::BeginRenderPass(0),
        PassCommand::RunAction(0),
        PassCommand::EndRenderPass(0),
        PassCommand::PostPasses,
        PassCommand::End,
    ];
    assert_eq!(frame_step(&cmds, 0), Some(PassCommand::Begin));
    assert_eq!(frame_step(&cmds, 2), Some(PassCommand::RunAction(0)));
    assert_eq!(frame_step(&cmds, 6), None);
    assert_eq!(after_failure(&cmds, 0), None);
    for failed in 1..5 {
        assert_eq!(after_failure(&cmds, failed), Some(PassCommand::End));
    }
    assert_eq!(after_failure(&cmds, 5), None);
}

struct CountingDevice {
    calls: usize,
    fail_at: Option<usize>,
}

impl CommandListSource<usize> for CountingDevice {
    fn create_command_list(&mut self) -> Result<usize, Error> {
        self.calls += 1;
        if Some(self.calls) == self.fail_at {
            return Err(Error::BackendError(format!("command list {} failed", self.calls)));
        }
        Ok(self.calls)
    }
}

#[test]
fn ring_creation_makes_one_command_list_per_frame() {
    let mut device = CreationLog::new(CountingDevice { calls: 0, fail_at: None });
    let lists = create_command_lists(&mut device, 3).unwrap();
    assert_eq!(lists, vec![1, 2, 3]);
    assert_eq!(device.device().calls, 3);

    let mut failing = CreationLog::new(CountingDevice { calls: 0, fail_at: Some(2) });
    match create_command_lists(&mut failing, 3) {
        Err(Error::BackendError(m)) => assert_eq!(m, "command list 2 failed"),
        _ => panic!("expected the device's error"),
    }
    assert_eq!(failing.device().calls, 2);

    let mut none = CreationLog::new(CountingDevice { calls: 0, fail_at: Some(1) });
    assert!(create_command_lists(&mut none, 0).unwrap().is_empty());
    assert_eq!(none.into_device().calls, 0);
}

#[test]
fn test_render_graph_topological_sort_with_writer_reader() {
    let env = setup_engine_for_render_graph();
    let mut rgm = RenderGraphManager::new();
    let graph_key = rgm.create_render_graph("main", 1).unwrap();
    let color = rgm.create_graph_resource("color", tex(env.color_texture, 0, 1)).unwrap();
    let writer = rgm.create_render_pass("writer", vec![access(color, AccessType::ColorAttachmentWrite)], &env.textures).unwrap();
    let reader = rgm.create_render_pass("reader", vec![access(color, AccessType::FragmentShaderRead)], &env.textures).unwrap();
    // Reader listed first: still runs after the writer.
    let result = rgm.execute_render_graph(graph_key, &[reader, writer]);
    assert!(result.is_ok(), "expected success, got {:?}", result.as_ref().err());
    let plan = result.unwrap();
    assert_eq!(plan.order, vec![1, 0]);
    assert_eq!(plan.barriers[1][0].previous_access_type, Some(AccessType::ColorAttachmentWrite));
}

#[test]
fn test_render_graph_execute_detects_cycle() {
    let env = setup_engine_for_render_graph();
    let mut rgm = RenderGraphManager::new();
    let graph_key = rgm.create_render_graph("main", 1).unwrap();
    let color_a = rgm.create_graph_resource("color_a", tex(env.color_texture, 0, 1)).unwrap();
    let color_b = rgm.create_graph_resource("color_b", tex(env.color_texture, 0, 1)).unwrap();
    let pass_a = rgm
        .create_render_pass(
            "a",
            vec![access(color_a, AccessType::ColorAttachmentWrite), access(color_b, AccessType::FragmentShaderRead)],
            &env.textures,
        )
        .unwrap();
    let pass_b = rgm
        .create_render_pass(
            "b",
            vec![access(color_b, AccessType::ColorAttachmentWrite), access(color_a, AccessType::FragmentShaderRead)],
            &env.textures,
        )
        .unwrap();
    let result = rgm.execute_render_graph(graph_key, &[pass_a, pass_b]);
    assert!(result.is_err(), "expected cycle detection to fail");
    match result.err().unwrap() {
        Error::BackendError(m) => assert_eq!(m, "RenderGraph 'main': cycle detected (0 of 2 passes ordered)"),
        other => panic!("unexpected {:?}", other),
    }
    // The ring did not move.
    assert_eq!(rgm.render_graph(graph_key).unwrap().current_frame(), 0);
}

#[test]
fn test_render_graph_execute_advances_through_frames() {
    let mut rgm = RenderGraphManager::new();
    let graph_key = rgm.create_render_graph("main", 3).unwrap();
    let frames: Vec<usize> = (0..5).map(|_| rgm.execute_render_graph(graph_key, &[]).unwrap().frame).collect();
    assert_eq!(frames, vec![0, 1, 2, 0, 1]);
    assert_eq!(rgm.render_graph(graph_key).unwrap().current_frame(), 1);
}

#[test]
fn test_render_graph_execute_with_buffer_resource_access() {
    let env = setup_engine_for_render_graph();
    let mut rgm = RenderGraphManager::new();
    let graph_key = rgm.create_render_graph("main", 1).unwrap();
    let buf = rgm.create_graph_resource("buf", GraphResource::buffer_full(BufferKey { bits: 0x1_0000_0005 })).unwrap();
    let write = rgm.create_render_pass("w", vec![access(buf, AccessType::ComputeWrite)], &env.textures).unwrap();
    let read = rgm.create_render_pass("r", vec![access(buf, AccessType::VertexShaderRead)], &env.textures).unwrap();
    let plan = rgm.execute_render_graph(graph_key, &[read, write]).unwrap();
    assert_eq!(plan.order, vec![1, 0]);
    assert_eq!(plan.barriers[0][0].previous_access_type, None);
    assert_eq!(plan.barriers[1][0].previous_access_type, Some(AccessType::ComputeWrite));
}

#[test]
fn test_render_graph_execute_writer_equals_reader_self_loop() {
    let env = setup_engine_for_render_graph();
    let mut rgm = RenderGraphManager::new();
    let graph_key = rgm.create_render_graph("main", 1).unwrap();
    let color = rgm.create_graph_resource("color", tex(env.color_texture, 0, 1)).unwrap();
    let p = rgm
        .create_render_pass(
            "rw",
            vec![access(color, AccessType::ColorAttachmentWrite), access(color, AccessType::FragmentShaderRead)],
            &env.textures,
        )
        .unwrap();
    let result = rgm.execute_render_graph(graph_key, &[p]);
    assert!(result.is_ok(), "self read+write should sort cleanly");
}

#[test]
fn test_two_grs_same_texture_same_subrange_share_history() {
    let env = setup_engine_for_render_graph();
    let mut rgm = RenderGraphManager::new();
    let graph_key = rgm.create_render_graph("main", 1).unwrap();
    let gr_a = rgm.create_graph_resource("color_a", tex(env.color_texture, 0, 1)).unwrap();
    let gr_b = rgm.create_graph_resource("color_b", tex(env.color_texture, 0, 1)).unwrap();
    let pass_a = rgm.create_render_pass("pass_a", vec![access(gr_a, AccessType::ColorAttachmentWrite)], &env.textures).unwrap();
    let pass_b = rgm.create_render_pass("pass_b", vec![access(gr_b, AccessType::ColorAttachmentWrite)], &env.textures).unwrap();
    let result = rgm.execute_render_graph(graph_key, &[pass_a, pass_b]);
    assert!(result.is_ok());
    let plan = result.unwrap();
    assert_eq!(plan.order, vec![0, 1]);
    assert_eq!(plan.barriers[1][0].previous_access_type, Some(AccessType::ColorAttachmentWrite));
}

#[test]
fn test_two_grs_same_texture_disjoint_subranges_independent_history() {
    let env = setup_engine_for_render_graph();
    let mut rgm = RenderGraphManager::new();
    let graph_key = rgm.create_render_graph("main", 1).unwrap();
    let gr_a = rgm.create_graph_resource("color_a", tex(env.color_texture, 0, 1)).unwrap();
    let gr_b = rgm.create_graph_resource("color_b", tex(env.color_texture, 1, 1)).unwrap();
    let pass_a = rgm.create_render_pass("pass_a", vec![access(gr_a, AccessType::ColorAttachmentWrite)], &env.textures).unwrap();
    let pass_b = rgm.create_render_pass("pass_b", vec![access(gr_b, AccessType::ColorAttachmentWrite)], &env.textures).unwrap();
    let result = rgm.execute_render_graph(graph_key, &[pass_a, pass_b]);
    assert!(result.is_ok());
    let plan = result.unwrap();
    assert_eq!(plan.barriers[0][0].previous_access_type, None);
    assert_eq!(plan.barriers[1][0].previous_access_type, None);
}

#[test]
fn test_topo_overlap_creates_dependency_same_subrange() {
    let env = setup_engine_for_render_graph();
    let mut rgm = RenderGraphManager::new();
    let graph_key = rgm.create_render_graph("main", 1).unwrap();
    let gr_a = rgm.create_graph_resource("a", tex(env.color_texture, 0, 1)).unwrap();
    let gr_b = rgm.create_graph_resource("b", tex(env.color_texture, 0, 1)).unwrap();
    let pass_a = rgm.create_render_pass("pass_a", vec![access(gr_a, AccessType::ColorAttachmentWrite)], &env.textures).unwrap();
    let pass_b = rgm.create_render_pass("pass_b", vec![access(gr_b, AccessType::FragmentShaderRead)], &env.textures).unwrap();
    let plan = rgm.execute_render_graph(graph_key, &[pass_b, pass_a]).unwrap();
    assert!(position(&plan.order, 1) < position(&plan.order, 0), "pass_a must come before pass_b");
}

#[test]
fn test_topo_no_dependency_when_subranges_disjoint() {
    let env = setup_engine_for_render_graph();
    let mut rgm = RenderGraphManager::new();
    let graph_key = rgm.create_render_graph("main", 1).unwrap();
    let gr_a = rgm.create_graph_resource("a", tex(env.color_texture, 0, 1)).unwrap();
    let gr_b = rgm.create_graph_resource("b", tex(env.color_texture, 1, 1)).unwrap();
    let pass_a = rgm.create_render_pass("pass_a", vec![access(gr_a, AccessType::ColorAttachmentWrite)], &env.textures).unwrap();
    let pass_b = rgm.create_render_pass("pass_b", vec![access(gr_b, AccessType::FragmentShaderRead)], &env.textures).unwrap();
    // No dependency: the listed order is kept.
    let plan = rgm.execute_render_graph(graph_key, &[pass_b, pass_a]).unwrap();
    assert_eq!(plan.order, vec![0, 1]);
}

#[test]
fn test_topo_raw_dep_fans_in_from_multiple_overlapping_writers() {
    let env = setup_engine_for_render_graph();
    let mut rgm = RenderGraphManager::new();
    let graph_key = rgm.create_render_graph("main", 1).unwrap();
    let gr_a = rgm.create_graph_resource("write_a", tex(env.color_texture, 0, 1)).unwrap();
    let gr_b = rgm.create_graph_resource("write_b", tex(env.color_texture, 1, 1)).unwrap();
    let gr_c = rgm.create_graph_resource("read_c", tex(env.color_texture, 0, REMAINING_ARRAY_LAYERS)).unwrap();
    let write_a = rgm.create_render_pass("write_a", vec![access(gr_a, AccessType::ColorAttachmentWrite)], &env.textures).unwrap();
    let write_b = rgm.create_render_pass("write_b", vec![access(gr_b, AccessType::ColorAttachmentWrite)], &env.textures).unwrap();
    let read_c = rgm.create_render_pass("read_c", vec![access(gr_c, AccessType::FragmentShaderRead)], &env.textures).unwrap();
    let plan = rgm.execute_render_graph(graph_key, &[read_c, write_a, write_b]).unwrap();
    let pos_c = position(&plan.order, 0);
    assert!(position(&plan.order, 1) < pos_c && position(&plan.order, 2) < pos_c, "read_c must come after both writers");
}

#[test]
fn test_topo_same_gr_preserves_user_order() {
    let env = setup_engine_for_render_graph();
    let mut rgm = RenderGraphManager::new();
    let graph_key = rgm.create_render_graph("main", 1).unwrap();
    let gr = rgm.create_graph_resource("color", tex(env.color_texture, 0, 1)).unwrap();
    let p_a = rgm.create_render_pass("p_a", vec![access(gr, AccessType::ColorAttachmentWrite)], &env.textures).unwrap();
    let p_b = rgm.create_render_pass("p_b", vec![access(gr, AccessType::ColorAttachmentWrite)], &env.textures).unwrap();
    let p_c = rgm.create_render_pass("p_c", vec![access(gr, AccessType::ColorAttachmentWrite)], &env.textures).unwrap();
    let plan = rgm.execute_render_graph(graph_key, &[p_a, p_b, p_c]).unwrap();
    assert_eq!(plan.order, vec![0, 1, 2]);
    let plan = rgm.execute_render_graph(graph_key, &[p_c, p_a, p_b]).unwrap();
    assert_eq!(plan.order, vec![0, 1, 2]);
}

#[test]
fn test_topo_buffer_overlap_creates_dependency() {
    let env = setup_engine_for_render_graph();
    let mut rgm = RenderGraphManager::new();
    let graph_key = rgm.create_render_graph("main", 1).unwrap();
    let bk = BufferKey { bits: 0x1_0000_0009 };
    let a = rgm.create_graph_resource("a", GraphResource::buffer_range(bk, 0, 128)).unwrap();
    let b = rgm.create_graph_resource("b", GraphResource::buffer_range(bk, 64, 128)).unwrap();
    let pass_a = rgm.create_render_pass("pass_a", vec![access(a, AccessType::ComputeWrite)], &env.textures).unwrap();
    let pass_b = rgm.create_render_pass("pass_b", vec![access(b, AccessType::ComputeRead)], &env.textures).unwrap();
    let plan = rgm.execute_render_graph(graph_key, &[pass_b, pass_a]).unwrap();
    assert_eq!(plan.order, vec![1, 0]);
}

#[test]
fn test_topo_buffer_disjoint_no_dependency() {
    let env = setup_engine_for_render_graph();
    let mut rgm = RenderGraphManager::new();
    let graph_key = rgm.create_render_graph("main", 1).unwrap();
    let bk = BufferKey { bits: 0x1_0000_0009 };
    let a = rgm.create_graph_resource("a", GraphResource::buffer_range(bk, 0, 64)).unwrap();
    let b = rgm.create_graph_resource("b", GraphResource::buffer_range(bk, 64, 64)).unwrap();
    let pass_a = rgm.create_render_pass("pass_a", vec![access(a, AccessType::ComputeWrite)], &env.textures).unwrap();
    let pass_b = rgm.create_render_pass("pass_b", vec![access(b, AccessType::ComputeRead)], &env.textures).unwrap();
    let plan = rgm.execute_render_graph(graph_key, &[pass_b, pass_a]).unwrap();
    assert_eq!(plan.order, vec![0, 1]);
}

#[test]
fn test_topo_cycle_detected_via_overlap() {
    let env = setup_engine_for_render_graph();
    let mut rgm = RenderGraphManager::new();
    let graph_key = rgm.create_render_graph("main", 1).unwrap();
    let gr_a_w = rgm.create_graph_resource("a_write_color", tex(env.color_texture, 0, 1)).unwrap();
    let gr_a_r = rgm.create_graph_resource("a_read_depth", tex(env.depth_texture, 0, 1)).unwrap();
    let gr_b_w = rgm.create_graph_resource("b_write_depth", tex(env.depth_texture, 0, 1)).unwrap();
    let gr_b_r = rgm.create_graph_resource("b_read_color", tex(env.color_texture, 0, 1)).unwrap();
    let p_a = rgm
        .create_render_pass(
            "pass_a",
            vec![access(gr_a_w, AccessType::ColorAttachmentWrite), access(gr_a_r, AccessType::FragmentShaderRead)],
            &env.textures,
        )
        .unwrap();
    let p_b = rgm
        .create_render_pass(
            "pass_b",
            vec![access(gr_b_w, AccessType::DepthStencilWrite), access(gr_b_r, AccessType::FragmentShaderRead)],
            &env.textures,
        )
        .unwrap();
    let result = rgm.execute_render_graph(graph_key, &[p_a, p_b]);
    assert!(result.is_err(), "mutual read-then-write must trigger cycle detection");
}

#[test]
fn resolve_target_write_is_seen_by_the_next_reader() {
    let mut env = setup_engine_for_render_graph();
    let msaa = TextureKey { bits: 0x1_0000_0002 };
    env.textures.insert(msaa, TextureInfo { width: 64, height: 64, format: 37, sample_count: 4 });
    let mut rgm = RenderGraphManager::new();
    let graph_key = rgm.create_render_graph("main", 2).unwrap();
    let msaa_gr = rgm.create_graph_resource("msaa", tex(msaa, 0, 1)).unwrap();
    let resolved = rgm.create_graph_resource("resolved", tex(env.color_texture, 0, 1)).unwrap();
    let ops = TargetOps::Color {
        clear_color: ClearColor { r: 0, g: 0, b: 0, a: 0 },
        load_op: LoadOp::Clear,
        store_op: StoreOp::DontCare,
        resolve_target: Some(resolved),
    };
    let draw = rgm
        .create_render_pass(
            "draw",
            vec![ResourceAccess { graph_resource_key: msaa_gr, access_type: AccessType::ColorAttachmentWrite, target_ops: Some(ops) }],
            &env.textures,
        )
        .unwrap();
    let post = rgm.create_render_pass("post", vec![access(resolved, AccessType::FragmentShaderRead)], &env.textures).unwrap();
    let plan = rgm.execute_render_graph(graph_key, &[draw, post]).unwrap();
    assert_eq!(plan.order, vec![0, 1]);
    assert_eq!(plan.barriers[1][0].previous_access_type, Some(AccessType::ColorAttachmentWrite));
}

#[test]
fn graph_creation_makes_its_ring_on_the_device() {
    let mut rgm = RenderGraphManager::new();
    let mut device = CreationLog::new(CountingDevice { calls: 0, fail_at: None });
    let (key, lists) = rgm.create_render_graph_with_command_lists("main", 2, &mut device).unwrap();
    assert_eq!(lists, vec![1, 2]);
    assert_eq!(rgm.render_graph_id("main"), Some(key));
    // A taken name and an empty ring make no command list.
    assert!(rgm.create_render_graph_with_command_lists("main", 2, &mut device).is_err());
    assert!(rgm.create_render_graph_with_command_lists("other", 0, &mut device).is_err());
    assert_eq!(device.device().calls, 2);
    // A failing creation creates no graph.
    let mut failing = CreationLog::new(CountingDevice { calls: 0, fail_at: Some(1) });
    match rgm.create_render_graph_with_command_lists("shadow", 3, &mut failing) {
        Err(Error::BackendError(m)) => assert_eq!(m, "command list 1 failed"),
        _ => panic!("expected the device's error"),
    }
    assert!(rgm.render_graph_id("shadow").is_none());
    assert_eq!(rgm.render_graph_count(), 1);
    assert_eq!(failing.device().calls, 1);
}

#[test]
fn backend_accesses_skip_missing_textures() {
    let env = setup_engine_for_render_graph();
    let range = ImageSubRange { base_mip_level: 0, mip_count: 1, base_array_layer: 0, layer_count: 1 };
    let barriers = vec![
        AccessBarrier {
            target: AccessTarget::Image { texture_key: env.color_texture, range },
            access_type: AccessType::ColorAttachmentWrite,
            previous_access_type: None,
        },
        AccessBarrier {
            target: AccessTarget::Image { texture_key: TextureKey { bits: 0x1_0000_0042 }, range },
            access_type: AccessType::FragmentShaderRead,
            previous_access_type: None,
        },
        AccessBarrier {
            target: AccessTarget::Buffer { buffer_key: BufferKey { bits: 9 }, range: BufferSubRange { offset: 0, size: 4 } },
            access_type: AccessType::ComputeRead,
            previous_access_type: Some(AccessType::ComputeWrite),
        },
        AccessBarrier { target: AccessTarget::Unresolved, access_type: AccessType::ComputeRead, previous_access_type: None },
    ];
    let images = pass_image_accesses(&barriers, &env.textures);
    assert_eq!(images.len(), 1);
    assert_eq!(images[0].texture, env.color_texture);
    let buffers = pass_buffer_accesses(&barriers);
    assert_eq!(buffers.len(), 1);
    assert_eq!(buffers[0].previous_access_type, Some(AccessType::ComputeWrite));
}

#[test]
fn null_keys_name_nothing() {
    let env = setup_engine_for_render_graph();
    let mut rgm = RenderGraphManager::new();
    rgm.create_render_graph("main", 1).unwrap();
    let color = rgm.create_graph_resource("color", tex(env.color_texture, 0, 1)).unwrap();
    rgm.create_render_pass("p", vec![access(color, AccessType::ColorAttachmentWrite)], &env.textures).unwrap();
    assert!(rgm.execute_render_graph(RenderGraphKey::default(), &[]).is_err());
    assert!(rgm.render_pass(RenderPassKey::default()).is_none());
    assert!(rgm.graph_resource(GraphResourceKey::default()).is_none());
}
