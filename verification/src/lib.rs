//! Galaxy 3D engine core: the engine's subsystem registry, the render
//! graph's resource model, the manager of graphs, passes, graph resources
//! and framebuffers, pass ordering and barrier planning, and attachment
//! validation, all stated with Verus contracts.

// Errors, keys and plain resource descriptions.
pub mod error;
pub mod keys;
pub mod access_type;
pub mod graph_resource;
pub mod shader;
pub mod binding_group;
pub mod graphics_device;
pub mod frame_buffer;
pub mod render_pass;
pub mod render_target;
pub mod pass_action;
pub mod debug_pass;
pub mod frustum;

// The engine's subsystem registry.
pub mod name_table;
pub mod engine;

// Render graphs: ordering, barriers, frames in flight.
pub mod pass_order;
pub mod command_lists;
pub mod render_graph;

// The render graph manager and its storage.
pub mod slots;
pub mod name_maps;
pub mod attachments;
pub mod render_graph_manager;
pub mod framebuffer_cache;
pub mod pass_cache;
pub mod frame_execution;
pub mod frame_commands;
pub mod manager_laws;
