use galaxy_3d_engine::engine::Engine;
use galaxy_3d_engine::error::Error;
use galaxy_3d_engine::frame_buffer::TextureTable;
use galaxy_3d_engine::render_graph_manager::RenderGraphManager;
use std::sync::{Arc, Mutex};

/// A graphics device as the engine holds it: a shared, lockable handle.
struct MockGraphicsDevice {
    frames: u32,
}

/// A scene manager as the engine holds it: scenes by name.
struct SceneManager {
    scenes: Vec<String>,
}

impl SceneManager {
    fn create_scene(&mut self, name: &str) -> Result<usize, Error> {
        if self.scenes.iter().any(|s| s == name) {
            return Err(Error::BackendError(format!("Scene '{}' already exists", name)));
        }
        self.scenes.push(name.to_string());
        Ok(self.scenes.len() - 1)
    }

    fn scene_count(&self) -> usize {
        self.scenes.len()
    }
}

type Device = Arc<Mutex<MockGraphicsDevice>>;
type ResourceManager = Arc<Mutex<TextureTable>>;
type Scenes = Arc<Mutex<SceneManager>>;
type Graphs = Arc<Mutex<RenderGraphManager>>;
type TestEngine = Engine<Device, ResourceManager, Scenes, Graphs>;

fn device() -> Device {
    Arc::new(Mutex::new(MockGraphicsDevice { frames: 0 }))
}

fn resource_manager() -> ResourceManager {
    Arc::new(Mutex::new(TextureTable::new()))
}

fn scene_manager() -> Scenes {
    Arc::new(Mutex::new(SceneManager { scenes: Vec::new() }))
}

fn render_graph_manager() -> Graphs {
    Arc::new(Mutex::new(RenderGraphManager::new()))
}

/// A fresh, initialized engine with nothing registered.
fn setup() -> TestEngine {
    let mut engine = TestEngine::new();
    engine.reset_for_testing();
    let _ = engine.initialize();
    engine
}

#[test]
fn test_engine_initialize() {
    let mut engine = setup();
    // Initialize is idempotent, so calling it again should succeed
    let result = engine.initialize();
    assert!(result.is_ok());
}

#[test]
fn test_engine_shutdown_clears_state() {
    let mut engine = setup();

    // Get current counts before test
    let initial_graphics_device_count = engine.graphics_device_count();

    // Create graphics_device (unique name for this test)
    let _renderer = engine.create_graphics_device("test_shutdown_clears", device()).unwrap();

    // Verify graphics_device was added
    assert_eq!(engine.graphics_device_count(), initial_graphics_device_count + 1);
    assert!(engine.graphics_device("test_shutdown_clears").is_ok());

    // Destroy the graphics_device we created
    engine.destroy_graphics_device("test_shutdown_clears").unwrap();

    // Verify it was removed
    assert_eq!(engine.graphics_device_count(), initial_graphics_device_count);
}

#[test]
fn test_multiple_initialize_calls_idempotent() {
    let mut engine = setup();

    // Multiple initialize calls should be safe
    engine.initialize().unwrap();
    engine.initialize().unwrap();
    engine.initialize().unwrap();

    // Engine should still work normally
    let result = engine.create_graphics_device("test_multiple_init", device());
    assert!(result.is_ok());
}

#[test]
fn test_shutdown_clears_renderers() {
    let mut engine = setup();

    // Create multiple graphics_devices
    let _r1 = engine.create_graphics_device("test_shutdown_r1", device()).unwrap();
    let _r2 = engine.create_graphics_device("test_shutdown_r2", device()).unwrap();

    assert!(engine.graphics_device_count() >= 2);

    // Shutdown should clear all graphics_devices
    engine.shutdown();

    assert_eq!(engine.graphics_device_count(), 0);
    assert_eq!(engine.graphics_device_names().len(), 0);

    // Re-initialize for next tests
    engine.initialize().unwrap();
}

#[test]
fn test_shutdown_clears_resource_manager() {
    let mut engine = setup();

    // Create resource manager
    engine.create_resource_manager(resource_manager()).unwrap();
    assert!(engine.resource_manager().is_ok());

    // Shutdown should clear it
    engine.shutdown();

    // Re-initialize
    engine.initialize().unwrap();

    // ResourceManager should not exist after shutdown
    assert!(engine.resource_manager().is_err());
}

#[test]
fn test_shutdown_idempotent() {
    let mut engine = setup();

    // Multiple shutdown calls should be safe
    engine.shutdown();
    engine.shutdown();
    engine.shutdown();

    // Re-initialize for next tests
    engine.initialize().unwrap();
}

#[test]
fn test_shutdown_with_multiple_resources() {
    let mut engine = setup();

    // Create multiple graphics_devices and resource manager
    let _r1 = engine.create_graphics_device("test_shutdown_multi_r1", device()).unwrap();
    let _r2 = engine.create_graphics_device("test_shutdown_multi_r2", device()).unwrap();
    engine.create_resource_manager(resource_manager()).unwrap();

    // Verify they exist
    assert!(engine.graphics_device_count() >= 2);
    assert!(engine.resource_manager().is_ok());

    // Shutdown should clear everything
    engine.shutdown();

    assert_eq!(engine.graphics_device_count(), 0);

    // Re-initialize
    engine.initialize().unwrap();
}

#[test]
fn test_reset_for_testing() {
    let mut engine = setup();

    let _renderer = engine.create_graphics_device("test_reset", device()).unwrap();

    // Reset should clear everything
    engine.reset_for_testing();

    assert_eq!(engine.graphics_device_count(), 0);
}

#[test]
fn test_create_graphics_device_success() {
    let mut engine = setup();

    let result = engine.create_graphics_device("test_create_success", device());
    assert!(result.is_ok());

    let graphics_device = result.unwrap();
    assert!(Arc::strong_count(&graphics_device) >= 1);
}

#[test]
fn test_create_graphics_device_duplicate_name_fails() {
    let mut engine = setup();

    // Create first graphics_device
    let _graphics_device1 = engine.create_graphics_device("test_duplicate", device()).unwrap();

    // Creating second with same name should fail
    let result = engine.create_graphics_device("test_duplicate", device());
    assert!(result.is_err());
    match result {
        Err(Error::InitializationFailed(msg)) => {
            assert!(msg.contains("already exists"));
        }
        _ => panic!("Expected InitializationFailed error"),
    }
}

#[test]
fn test_renderer_retrieval_success() {
    let mut engine = setup();

    let created = engine.create_graphics_device("test_retrieval", device()).unwrap();
    let retrieved = engine.graphics_device("test_retrieval").unwrap();

    // Should be the same Arc (same pointer)
    assert!(Arc::ptr_eq(&created, &retrieved));
}

#[test]
fn test_renderer_not_found_fails() {
    let mut engine = setup();

    let result = engine.graphics_device("nonexistent_renderer_12345");
    assert!(result.is_err());
    match result {
        Err(Error::InitializationFailed(msg)) => {
            assert!(msg.contains("not found"));
        }
        _ => panic!("Expected InitializationFailed error"),
    }
}

#[test]
fn test_destroy_graphics_device_success() {
    let mut engine = setup();

    let count_before = engine.graphics_device_count();
    let _renderer = engine.create_graphics_device("test_destroy_success", device()).unwrap();

    // Verify it was added
    assert_eq!(engine.graphics_device_count(), count_before + 1);

    // Destroy it
    let result = engine.destroy_graphics_device("test_destroy_success");
    assert!(result.is_ok());

    // Verify it was removed
    assert_eq!(engine.graphics_device_count(), count_before);
}

#[test]
fn test_destroy_graphics_device_nonexistent_is_ok() {
    let mut engine = setup();

    // Destroying non-existent graphics_device should succeed (idempotent)
    let result = engine.destroy_graphics_device("nonexistent_renderer_99999");
    assert!(result.is_ok());
}

#[test]
fn test_graphics_device_names_multiple() {
    let mut engine = setup();

    let _r1 = engine.create_graphics_device("test_names_r1", device()).unwrap();
    let _r2 = engine.create_graphics_device("test_names_r2", device()).unwrap();
    let _r3 = engine.create_graphics_device("test_names_r3", device()).unwrap();

    let names = engine.graphics_device_names();
    assert!(names.contains(&"test_names_r1".to_string()));
    assert!(names.contains(&"test_names_r2".to_string()));
    assert!(names.contains(&"test_names_r3".to_string()));
}

#[test]
fn test_graphics_device_count() {
    let mut engine = setup();

    let initial_count = engine.graphics_device_count();

    let _r1 = engine.create_graphics_device("test_count_r1", device()).unwrap();
    assert_eq!(engine.graphics_device_count(), initial_count + 1);

    let _r2 = engine.create_graphics_device("test_count_r2", device()).unwrap();
    assert_eq!(engine.graphics_device_count(), initial_count + 2);

    engine.destroy_graphics_device("test_count_r1").unwrap();
    assert_eq!(engine.graphics_device_count(), initial_count + 1);
}

#[test]
fn test_multiple_named_renderers() {
    let mut engine = setup();

    let r1 = engine.create_graphics_device("test_multi_main", device()).unwrap();
    let r2 = engine.create_graphics_device("test_multi_shadow", device()).unwrap();
    let r3 = engine.create_graphics_device("test_multi_ui", device()).unwrap();

    // All should be different instances
    assert!(!Arc::ptr_eq(&r1, &r2));
    assert!(!Arc::ptr_eq(&r2, &r3));
    assert!(!Arc::ptr_eq(&r1, &r3));

    // All should be retrievable
    assert!(engine.graphics_device("test_multi_main").is_ok());
    assert!(engine.graphics_device("test_multi_shadow").is_ok());
    assert!(engine.graphics_device("test_multi_ui").is_ok());
}

#[test]
fn test_renderer_returned_is_usable() {
    let mut engine = setup();

    let graphics_device = engine.create_graphics_device("test_usable", device()).unwrap();

    // Lock the graphics_device (simulates actual usage)
    let _guard = graphics_device.lock().unwrap();
    // If we get here without panic, the graphics_device is usable
}

#[test]
fn test_create_resource_manager_success() {
    let mut engine = setup();

    let result = engine.create_resource_manager(resource_manager());
    assert!(result.is_ok());
}

#[test]
fn test_create_resource_manager_duplicate_fails() {
    let mut engine = setup();

    // Create first resource manager
    engine.create_resource_manager(resource_manager()).unwrap();

    // Creating second should fail
    let result = engine.create_resource_manager(resource_manager());
    assert!(result.is_err());
    match result {
        Err(Error::InitializationFailed(msg)) => {
            assert!(msg.contains("already exists"));
        }
        _ => panic!("Expected InitializationFailed error"),
    }
}

#[test]
fn test_resource_manager_retrieval_success() {
    let mut engine = setup();

    engine.create_resource_manager(resource_manager()).unwrap();

    let result = engine.resource_manager();
    assert!(result.is_ok());

    let rm = result.unwrap();
    assert!(Arc::strong_count(&rm) >= 1);
}

#[test]
fn test_resource_manager_not_created_fails() {
    let mut engine = setup();
    // Don't create resource manager

    let result = engine.resource_manager();
    assert!(result.is_err());
    match result {
        Err(Error::InitializationFailed(msg)) => {
            assert!(msg.contains("not created"));
        }
        _ => panic!("Expected InitializationFailed error"),
    }
}

#[test]
fn test_destroy_resource_manager_success() {
    let mut engine = setup();

    engine.create_resource_manager(resource_manager()).unwrap();

    // Should exist
    assert!(engine.resource_manager().is_ok());

    // Destroy it
    let result = engine.destroy_resource_manager();
    assert!(result.is_ok());

    // Should no longer exist
    assert!(engine.resource_manager().is_err());
}

#[test]
fn test_resource_manager_lifecycle() {
    let mut engine = setup();

    // Create, destroy, create again cycle
    engine.create_resource_manager(resource_manager()).unwrap();
    engine.destroy_resource_manager().unwrap();

    // Should be able to create again
    let result = engine.create_resource_manager(resource_manager());
    assert!(result.is_ok());
}

#[test]
fn test_resource_manager_returned_is_usable() {
    let mut engine = setup();

    engine.create_resource_manager(resource_manager()).unwrap();

    let rm = engine.resource_manager().unwrap();

    // Lock the resource manager (simulates actual usage)
    let _guard = rm.lock().unwrap();
    // If we get here without panic, the resource manager is usable
}

#[test]
fn test_full_engine_lifecycle() {
    let mut engine = setup();

    // Create graphics_device
    let graphics_device = engine.create_graphics_device("test_lifecycle_main", device()).unwrap();
    assert!(engine.graphics_device("test_lifecycle_main").is_ok());

    // Create resource manager
    engine.create_resource_manager(resource_manager()).unwrap();
    assert!(engine.resource_manager().is_ok());

    // Use graphics_device
    let _guard = graphics_device.lock().unwrap();
    drop(_guard);

    // Cleanup
    engine.destroy_graphics_device("test_lifecycle_main").unwrap();
    engine.destroy_resource_manager().unwrap();
}

#[test]
fn test_shutdown_clears_rm_before_renderers() {
    let mut engine = setup();

    // Create graphics_device and resource manager
    let _renderer = engine.create_graphics_device("test_shutdown_order", device()).unwrap();
    engine.create_resource_manager(resource_manager()).unwrap();

    // Both should exist
    assert!(engine.graphics_device("test_shutdown_order").is_ok());
    assert!(engine.resource_manager().is_ok());

    // Shutdown clears RM before graphics_devices (as per comment in code)
    engine.shutdown();

    // Both should be cleared
    assert_eq!(engine.graphics_device_count(), 0);

    // Re-initialize
    engine.initialize().unwrap();
}

#[test]
fn test_create_scene_manager_success() {
    let mut engine = setup();

    let result = engine.create_scene_manager(scene_manager());
    assert!(result.is_ok());
}

#[test]
fn test_create_scene_manager_duplicate_fails() {
    let mut engine = setup();

    engine.create_scene_manager(scene_manager()).unwrap();

    let result = engine.create_scene_manager(scene_manager());
    assert!(result.is_err());
}

#[test]
fn test_scene_manager_not_created_fails() {
    let mut engine = setup();

    let result = engine.scene_manager();
    assert!(result.is_err());
}

#[test]
fn test_scene_manager_retrieval_success() {
    let mut engine = setup();

    engine.create_scene_manager(scene_manager()).unwrap();

    let result = engine.scene_manager();
    assert!(result.is_ok());
}

#[test]
fn test_scene_manager_returned_is_usable() {
    let mut engine = setup();

    let _graphics_device = engine.create_graphics_device("test_sm_usable", device()).unwrap();
    engine.create_scene_manager(scene_manager()).unwrap();

    let sm = engine.scene_manager().unwrap();

    // Lock and use the scene manager
    let mut guard = sm.lock().unwrap();
    let scene = guard.create_scene("test_scene");
    assert!(scene.is_ok());
}

#[test]
fn test_destroy_scene_manager_success() {
    let mut engine = setup();

    engine.create_scene_manager(scene_manager()).unwrap();

    // Should exist
    assert!(engine.scene_manager().is_ok());

    // Destroy it
    let result = engine.destroy_scene_manager();
    assert!(result.is_ok());

    // Should no longer exist
    assert!(engine.scene_manager().is_err());
}

#[test]
fn test_scene_manager_lifecycle() {
    let mut engine = setup();

    // Create, destroy, create again cycle
    engine.create_scene_manager(scene_manager()).unwrap();
    engine.destroy_scene_manager().unwrap();

    // Should be able to create again
    let result = engine.create_scene_manager(scene_manager());
    assert!(result.is_ok());
}

#[test]
fn test_shutdown_clears_scene_manager() {
    let mut engine = setup();

    engine.create_scene_manager(scene_manager()).unwrap();
    assert!(engine.scene_manager().is_ok());

    engine.shutdown();

    // Re-initialize to avoid affecting other tests
    engine.initialize().unwrap();

    // Scene manager should be cleared
    assert!(engine.scene_manager().is_err());
}

#[test]
fn test_shutdown_clears_sm_before_rm() {
    let mut engine = setup();

    // Create all subsystems
    let _renderer = engine.create_graphics_device("test_shutdown_sm_rm", device()).unwrap();
    engine.create_resource_manager(resource_manager()).unwrap();
    engine.create_scene_manager(scene_manager()).unwrap();

    // All should exist
    assert!(engine.graphics_device("test_shutdown_sm_rm").is_ok());
    assert!(engine.resource_manager().is_ok());
    assert!(engine.scene_manager().is_ok());

    // Shutdown (order: SM → RM → graphics_devices)
    engine.shutdown();

    assert_eq!(engine.graphics_device_count(), 0);

    // Re-initialize
    engine.initialize().unwrap();
}

#[test]
fn test_full_engine_lifecycle_with_scene_manager() {
    let mut engine = setup();

    // Create all subsystems
    let _renderer = engine.create_graphics_device("test_full_sm", device()).unwrap();
    engine.create_resource_manager(resource_manager()).unwrap();
    engine.create_scene_manager(scene_manager()).unwrap();

    // Use scene manager
    {
        let _graphics_device = engine.graphics_device("test_full_sm").unwrap();
        let sm = engine.scene_manager().unwrap();
        let mut guard = sm.lock().unwrap();
        guard.create_scene("main").unwrap();
        guard.create_scene("ui").unwrap();
        assert_eq!(guard.scene_count(), 2);
    }

    // Cleanup
    engine.destroy_scene_manager().unwrap();
    engine.destroy_resource_manager().unwrap();
    engine.destroy_graphics_device("test_full_sm").unwrap();
}

#[test]
fn test_create_render_graph_manager_success() {
    let mut engine = setup();

    let result = engine.create_render_graph_manager(render_graph_manager());
    assert!(result.is_ok());
}

#[test]
fn test_create_render_graph_manager_duplicate_fails() {
    let mut engine = setup();

    engine.create_render_graph_manager(render_graph_manager()).unwrap();

    let result = engine.create_render_graph_manager(render_graph_manager());
    assert!(result.is_err());
    match result {
        Err(Error::InitializationFailed(msg)) => {
            assert!(msg.contains("already exists"));
        }
        _ => panic!("Expected InitializationFailed error"),
    }
}

#[test]
fn test_render_graph_manager_not_created_fails() {
    let mut engine = setup();

    let result = engine.render_graph_manager();
    assert!(result.is_err());
    match result {
        Err(Error::InitializationFailed(msg)) => {
            assert!(msg.contains("not created"));
        }
        _ => panic!("Expected InitializationFailed error"),
    }
}

#[test]
fn test_render_graph_manager_retrieval_success() {
    let mut engine = setup();

    engine.create_render_graph_manager(render_graph_manager()).unwrap();

    let result = engine.render_graph_manager();
    assert!(result.is_ok());

    let rgm = result.unwrap();
    assert!(Arc::strong_count(&rgm) >= 1);
}

#[test]
fn test_render_graph_manager_returned_is_usable() {
    let mut engine = setup();

    engine.create_graphics_device("main", device()).unwrap();
    engine.create_render_graph_manager(render_graph_manager()).unwrap();

    let rgm = engine.render_graph_manager().unwrap();

    // Lock and use the render graph manager (the manager looks up the
    // graphics_device "main" internally — no need to lock it manually).
    let mut guard = rgm.lock().unwrap();
    let graph = guard.create_render_graph("main", 2);
    assert!(graph.is_ok());

    drop(guard);
    engine.destroy_render_graph_manager().unwrap();
    engine.destroy_graphics_device("main").unwrap();
}

#[test]
fn test_destroy_render_graph_manager_success() {
    let mut engine = setup();

    engine.create_render_graph_manager(render_graph_manager()).unwrap();

    // Should exist
    assert!(engine.render_graph_manager().is_ok());

    // Destroy it
    let result = engine.destroy_render_graph_manager();
    assert!(result.is_ok());

    // Should no longer exist
    assert!(engine.render_graph_manager().is_err());
}

#[test]
fn test_render_graph_manager_lifecycle() {
    let mut engine = setup();

    // Create, destroy, create again cycle
    engine.create_render_graph_manager(render_graph_manager()).unwrap();
    engine.destroy_render_graph_manager().unwrap();

    // Should be able to create again
    let result = engine.create_render_graph_manager(render_graph_manager());
    assert!(result.is_ok());
}

#[test]
fn test_shutdown_clears_render_graph_manager() {
    let mut engine = setup();

    engine.create_render_graph_manager(render_graph_manager()).unwrap();
    assert!(engine.render_graph_manager().is_ok());

    engine.shutdown();

    // Re-initialize to avoid affecting other tests
    engine.initialize().unwrap();

    // Render graph manager should be cleared
    assert!(engine.render_graph_manager().is_err());
}

#[test]
fn test_shutdown_clears_rgm_before_sm() {
    let mut engine = setup();

    // Create all subsystems
    let _renderer = engine.create_graphics_device("test_shutdown_rgm_sm", device()).unwrap();
    engine.create_resource_manager(resource_manager()).unwrap();
    engine.create_scene_manager(scene_manager()).unwrap();
    engine.create_render_graph_manager(render_graph_manager()).unwrap();

    // All should exist
    assert!(engine.graphics_device("test_shutdown_rgm_sm").is_ok());
    assert!(engine.resource_manager().is_ok());
    assert!(engine.scene_manager().is_ok());
    assert!(engine.render_graph_manager().is_ok());

    // Shutdown (order: RGM → SM → RM → graphics_devices)
    engine.shutdown();

    assert_eq!(engine.graphics_device_count(), 0);

    // Re-initialize
    engine.initialize().unwrap();
}

#[test]
fn test_full_engine_lifecycle_with_render_graph_manager() {
    let mut engine = setup();

    // Create all subsystems
    let _renderer = engine.create_graphics_device("main", device()).unwrap();
    engine.create_resource_manager(resource_manager()).unwrap();
    engine.create_scene_manager(scene_manager()).unwrap();
    engine.create_render_graph_manager(render_graph_manager()).unwrap();

    // Use render graph manager
    {
        let rgm = engine.render_graph_manager().unwrap();
        let mut guard = rgm.lock().unwrap();
        guard.create_render_graph("main", 2).unwrap();
        guard.create_render_graph("shadow", 2).unwrap();
        assert_eq!(guard.render_graph_count(), 2);
    }

    // Cleanup (order: RGM → SM → RM → graphics_devices)
    engine.destroy_render_graph_manager().unwrap();
    engine.destroy_scene_manager().unwrap();
    engine.destroy_resource_manager().unwrap();
    engine.destroy_graphics_device("main").unwrap();
}

#[test]
fn test_destroy_resource_manager_idempotent() {
    let mut engine = setup();
    engine.create_resource_manager(resource_manager()).unwrap();
    engine.destroy_resource_manager().unwrap();
    // Second destroy is OK (no-op).
    assert!(engine.destroy_resource_manager().is_ok());
}

#[test]
fn test_destroy_scene_manager_idempotent() {
    let mut engine = setup();
    engine.create_scene_manager(scene_manager()).unwrap();
    engine.destroy_scene_manager().unwrap();
    assert!(engine.destroy_scene_manager().is_ok());
}

#[test]
fn test_destroy_render_graph_manager_idempotent() {
    let mut engine = setup();
    engine.create_render_graph_manager(render_graph_manager()).unwrap();
    engine.destroy_render_graph_manager().unwrap();
    assert!(engine.destroy_render_graph_manager().is_ok());
}

#[test]
fn test_destroy_graphics_device_for_unknown_name_is_ok() {
    let mut engine = setup();
    // Engine API is forgiving: removing an unknown device returns Ok.
    assert!(engine.destroy_graphics_device("never_registered").is_ok());
}

#[test]
fn test_create_resource_manager_after_destroy_succeeds() {
    let mut engine = setup();
    engine.create_resource_manager(resource_manager()).unwrap();
    engine.destroy_resource_manager().unwrap();
    assert!(engine.create_resource_manager(resource_manager()).is_ok());
}

#[test]
fn test_create_scene_manager_after_destroy_succeeds() {
    let mut engine = setup();
    engine.create_scene_manager(scene_manager()).unwrap();
    engine.destroy_scene_manager().unwrap();
    assert!(engine.create_scene_manager(scene_manager()).is_ok());
}

#[test]
fn test_create_render_graph_manager_after_destroy_succeeds() {
    let mut engine = setup();
    engine.create_render_graph_manager(render_graph_manager()).unwrap();
    engine.destroy_render_graph_manager().unwrap();
    assert!(engine.create_render_graph_manager(render_graph_manager()).is_ok());
}

#[test]
fn test_shutdown_clears_resource_scene_render_graph_managers() {
    let mut engine = setup();
    engine.create_resource_manager(resource_manager()).unwrap();
    engine.create_scene_manager(scene_manager()).unwrap();
    engine.create_render_graph_manager(render_graph_manager()).unwrap();
    engine.shutdown();
    // After shutdown, all retrievals fail.
    assert!(engine.resource_manager().is_err());
    assert!(engine.scene_manager().is_err());
    assert!(engine.render_graph_manager().is_err());
}

#[test]
fn test_graphics_device_count_with_zero_devices() {
    let mut engine = setup();
    // After reset_for_testing, no devices remain.
    assert_eq!(engine.graphics_device_count(), 0);
    assert!(engine.graphics_device_names().is_empty());
}

#[test]
fn test_create_then_count_then_destroy_full_cycle() {
    let mut engine = setup();
    engine.create_graphics_device("cycle_a", device()).unwrap();
    engine.create_graphics_device("cycle_b", device()).unwrap();
    engine.create_graphics_device("cycle_c", device()).unwrap();
    assert_eq!(engine.graphics_device_count(), 3);
    let names = engine.graphics_device_names();
    assert!(names.contains(&"cycle_a".to_string()));
    assert!(names.contains(&"cycle_b".to_string()));
    assert!(names.contains(&"cycle_c".to_string()));
    engine.destroy_graphics_device("cycle_a").unwrap();
    engine.destroy_graphics_device("cycle_b").unwrap();
    engine.destroy_graphics_device("cycle_c").unwrap();
    assert_eq!(engine.graphics_device_count(), 0);
}

#[test]
fn test_engine_initialize_then_all_managers_creatable() {
    let mut engine = setup();
    engine.create_graphics_device("main", device()).unwrap();
    engine.create_resource_manager(resource_manager()).unwrap();
    engine.create_scene_manager(scene_manager()).unwrap();
    engine.create_render_graph_manager(render_graph_manager()).unwrap();

    assert!(engine.resource_manager().is_ok());
    assert!(engine.scene_manager().is_ok());
    assert!(engine.render_graph_manager().is_ok());

    engine.destroy_render_graph_manager().unwrap();
    engine.destroy_scene_manager().unwrap();
    engine.destroy_resource_manager().unwrap();
    engine.destroy_graphics_device("main").unwrap();
}
