//! The engine's subsystem registry.
//!
//! The engine holds the named graphics devices and the resource, scene and
//! render graph manager singletons, and enforces their lifecycle: the
//! engine must be initialized before anything is created, a name or a
//! singleton cannot be created twice, and shutdown releases everything
//! while the engine stays initialized.
//!
//! Each subsystem is held as the shared handle the caller created, so the
//! registry is generic over the device handle `D` and the three manager
//! handles `RM`, `SM` and `RGM`.

use vstd::prelude::*;
use vstd::string::*;
use crate::error::{Error, ErrorView};
use crate::name_table::{
    entries_distinct, has_name, lemma_push_lookup, lemma_without_lookup, lookup, names_of, without_name,
    NameTable,
};

verus! {

/// Message: the engine has not been initialized (creation and lookup).
pub open spec fn msg_not_initialized() -> Seq<char> {
    "Engine not initialized. Call Engine::initialize() first."@
}

/// Message: the engine has not been initialized (destruction).
pub open spec fn msg_not_initialized_short() -> Seq<char> {
    "Engine not initialized"@
}

/// Message: a device of that name already exists.
pub open spec fn msg_device_exists(name: Seq<char>) -> Seq<char> {
    "GraphicsDevice '"@ + name + "' already exists. Call Engine::destroy_graphics_device() first."@
}

/// Message: no device of that name.
pub open spec fn msg_device_not_found(name: Seq<char>) -> Seq<char> {
    "GraphicsDevice '"@ + name + "' not found. Call Engine::create_graphics_device() first."@
}

/// The three manager singletons.
#[derive(Debug, Clone, Copy, PartialEq, Eq, Structural)]
pub enum ManagerKind {
    Resource,
    Scene,
    RenderGraph,
}

/// Name of a manager singleton, as its messages print it.
pub open spec fn manager_name(k: ManagerKind) -> Seq<char> {
    match k {
        ManagerKind::Resource => "ResourceManager"@,
        ManagerKind::Scene => "SceneManager"@,
        ManagerKind::RenderGraph => "RenderGraphManager"@,
    }
}

/// Suffix that names the destroy or create call of a manager.
pub open spec fn manager_call(k: ManagerKind) -> Seq<char> {
    match k {
        ManagerKind::Resource => "resource_manager"@,
        ManagerKind::Scene => "scene_manager"@,
        ManagerKind::RenderGraph => "render_graph_manager"@,
    }
}

/// Message: a manager singleton already exists.
pub open spec fn msg_manager_exists(k: ManagerKind) -> Seq<char> {
    manager_name(k) + " already exists. Call Engine::destroy_"@ + manager_call(k)
        + "() first."@
}

/// Message: a manager singleton has not been created.
pub open spec fn msg_manager_not_created(k: ManagerKind) -> Seq<char> {
    manager_name(k) + " not created. Call Engine::create_"@ + manager_call(k) + "() first."@
}

/// Abstract state of the engine.
pub struct EngineModel<D, RM, SM, RGM> {
    pub initialized: bool,
    pub devices: Seq<(Seq<char>, D)>,
    pub resource_manager: Option<RM>,
    pub scene_manager: Option<SM>,
    pub render_graph_manager: Option<RGM>,
}

impl<D, RM, SM, RGM> EngineModel<D, RM, SM, RGM> {
    /// Every subsystem released; initialization kept.
    pub open spec fn cleared(self) -> Self {
        EngineModel {
            initialized: self.initialized,
            devices: Seq::empty(),
            resource_manager: None,
            scene_manager: None,
            render_graph_manager: None,
        }
    }

    /// Whether the given manager singleton exists.
    pub open spec fn has_manager(self, k: ManagerKind) -> bool {
        match k {
            ManagerKind::Resource => self.resource_manager is Some,
            ManagerKind::Scene => self.scene_manager is Some,
            ManagerKind::RenderGraph => self.render_graph_manager is Some,
        }
    }
}

/// Engine singleton manager: named graphics devices plus the resource,
/// scene and render graph managers.
pub struct Engine<D, RM, SM, RGM> {
    initialized: bool,
    graphics_devices: NameTable<D>,
    resource_manager: Option<RM>,
    scene_manager: Option<SM>,
    render_graph_manager: Option<RGM>,
}

impl<D, RM, SM, RGM> View for Engine<D, RM, SM, RGM> {
    type V = EngineModel<D, RM, SM, RGM>;

    closed spec fn view(&self) -> EngineModel<D, RM, SM, RGM> {
        EngineModel {
            initialized: self.initialized,
            devices: self.graphics_devices@,
            resource_manager: self.resource_manager,
            scene_manager: self.scene_manager,
            render_graph_manager: self.render_graph_manager,
        }
    }
}

fn message_with_name(prefix: &str, name: &str, suffix: &str) -> (s: String)
    ensures
        s@ == prefix@ + name@ + suffix@,
{
    let mut s = String::from_str(prefix);
    s.append(name);
    s.append(suffix);
    s
}

fn not_initialized_error() -> (e: Error)
    ensures
        e@ == ErrorView::InitializationFailed(msg_not_initialized()),
{
    let s = String::from_str("Engine not initialized. Call Engine::initialize() first.");
    proof {
        reveal_strlit("Engine not initialized. Call Engine::initialize() first.");
    }
    Error::InitializationFailed(s)
}

fn not_initialized_short_error() -> (e: Error)
    ensures
        e@ == ErrorView::InitializationFailed(msg_not_initialized_short()),
{
    let s = String::from_str("Engine not initialized");
    proof {
        reveal_strlit("Engine not initialized");
    }
    Error::InitializationFailed(s)
}

fn manager_exists_error(k: ManagerKind) -> (e: Error)
    ensures
        e@ == ErrorView::InitializationFailed(msg_manager_exists(k)),
{
    let s = match k {
        ManagerKind::Resource => message_with_name(
            "ResourceManager",
            " already exists. Call Engine::destroy_",
            "resource_manager() first.",
        ),
        ManagerKind::Scene => message_with_name(
            "SceneManager",
            " already exists. Call Engine::destroy_",
            "scene_manager() first.",
        ),
        ManagerKind::RenderGraph => message_with_name(
            "RenderGraphManager",
            " already exists. Call Engine::destroy_",
            "render_graph_manager() first.",
        ),
    };
    proof {
        reveal_strlit("ResourceManager");
        reveal_strlit("SceneManager");
        reveal_strlit("RenderGraphManager");
        reveal_strlit(" already exists. Call Engine::destroy_");
        reveal_strlit("resource_manager() first.");
        reveal_strlit("scene_manager() first.");
        reveal_strlit("render_graph_manager() first.");
        reveal_strlit("resource_manager");
        reveal_strlit("scene_manager");
        reveal_strlit("render_graph_manager");
        reveal_strlit("() first.");
        assert(s@ =~= msg_manager_exists(k));
    }
    Error::InitializationFailed(s)
}

fn manager_not_created_error(k: ManagerKind) -> (e: Error)
    ensures
        e@ == ErrorView::InitializationFailed(msg_manager_not_created(k)),
{
    let s = match k {
        ManagerKind::Resource => message_with_name(
            "ResourceManager",
            " not created. Call Engine::create_",
            "resource_manager() first.",
        ),
        ManagerKind::Scene => message_with_name(
            "SceneManager",
            " not created. Call Engine::create_",
            "scene_manager() first.",
        ),
        ManagerKind::RenderGraph => message_with_name(
            "RenderGraphManager",
            " not created. Call Engine::create_",
            "render_graph_manager() first.",
        ),
    };
    proof {
        reveal_strlit("ResourceManager");
        reveal_strlit("SceneManager");
        reveal_strlit("RenderGraphManager");
        reveal_strlit(" not created. Call Engine::create_");
        reveal_strlit("resource_manager() first.");
        reveal_strlit("scene_manager() first.");
        reveal_strlit("render_graph_manager() first.");
        reveal_strlit("resource_manager");
        reveal_strlit("scene_manager");
        reveal_strlit("render_graph_manager");
        reveal_strlit("() first.");
        assert(s@ =~= msg_manager_not_created(k));
    }
    Error::InitializationFailed(s)
}

impl<D, RM, SM, RGM> Engine<D, RM, SM, RGM> {
    /// The registry's invariant: device names are distinct.
    pub open spec fn wf(&self) -> bool {
        entries_distinct(self@.devices)
    }

    /// A fresh, uninitialized engine with nothing registered.
    pub fn new() -> (e: Self)
        ensures
            e.wf(),
            !e@.initialized,
            e@.devices == Seq::<(Seq<char>, D)>::empty(),
            e@.resource_manager is None,
            e@.scene_manager is None,
            e@.render_graph_manager is None,
    {
        Engine {
            initialized: false,
            graphics_devices: NameTable::new(),
            resource_manager: None,
            scene_manager: None,
            render_graph_manager: None,
        }
    }

    /// Initialize the engine. Idempotent: an initialized engine keeps
    /// everything it holds. Always succeeds.
    pub fn initialize(&mut self) -> (r: Result<(), Error>)
        requires
            old(self).wf(),
        ensures
            final(self).wf(),
            r is Ok,
            final(self)@ == (EngineModel { initialized: true, ..old(self)@ }),
    {
        self.initialized = true;
        Ok(())
    }

    /// Release every subsystem (render graph manager, then scene manager,
    /// then resource manager, then the graphics devices). The engine stays
    /// initialized; on an uninitialized engine this does nothing.
    pub fn shutdown(&mut self)
        requires
            old(self).wf(),
        ensures
            final(self).wf(),
            final(self)@ == (if old(self)@.initialized {
                old(self)@.cleared()
            } else {
                old(self)@
            }),
    {
        if self.initialized {
            self.render_graph_manager = None;
            self.scene_manager = None;
            self.resource_manager = None;
            self.graphics_devices.clear();
        }
    }

    /// Release every subsystem, as `shutdown` does.
    pub fn reset_for_testing(&mut self)
        requires
            old(self).wf(),
        ensures
            final(self).wf(),
            final(self)@ == (if old(self)@.initialized {
                old(self)@.cleared()
            } else {
                old(self)@
            }),
    {
        self.shutdown();
    }

    /// Register `graphics_device` under `name` and return a clone of its
    /// handle.
    ///
    /// Fails with `InitializationFailed` when the engine is not initialized
    /// or when the name is already registered; the engine is then unchanged.
    pub fn create_graphics_device(&mut self, name: &str, graphics_device: D) -> (r: Result<
        D,
        Error,
    >) where D: Clone
        requires
            old(self).wf(),
        ensures
            final(self).wf(),
            r is Ok <==> old(self)@.initialized && !has_name(old(self)@.devices, name@),
            r matches Ok(h) ==> cloned(graphics_device, h) && final(self)@ == (EngineModel {
                devices: old(self)@.devices.push((name@, graphics_device)),
                ..old(self)@
            }),
            r matches Err(e) ==> final(self)@ == old(self)@ && e@ == (if !old(self)@.initialized {
                ErrorView::InitializationFailed(msg_not_initialized())
            } else {
                ErrorView::InitializationFailed(msg_device_exists(name@))
            }),
    {
        if !self.initialized {
            return Err(not_initialized_error());
        }
        if self.graphics_devices.find(name).is_some() {
            let msg = message_with_name(
                "GraphicsDevice '",
                name,
                "' already exists. Call Engine::destroy_graphics_device() first.",
            );
            proof {
                reveal_strlit("GraphicsDevice '");
                reveal_strlit("' already exists. Call Engine::destroy_graphics_device() first.");
            }
            return Err(Error::InitializationFailed(msg));
        }
        let handle = graphics_device.clone();
        self.graphics_devices.push(name, graphics_device);
        Ok(handle)
    }

    /// A clone of the handle of the device registered under `name`.
    ///
    /// Fails with `InitializationFailed` when the engine is not initialized
    /// or no device has that name.
    pub fn graphics_device(&self, name: &str) -> (r: Result<D, Error>) where D: Clone
        requires
            self.wf(),
        ensures
            r is Ok <==> self@.initialized && has_name(self@.devices, name@),
            r matches Ok(h) ==> cloned(lookup(self@.devices, name@).unwrap(), h),
            r matches Err(e) ==> e@ == (if !self@.initialized {
                ErrorView::InitializationFailed(msg_not_initialized())
            } else {
                ErrorView::InitializationFailed(msg_device_not_found(name@))
            }),
    {
        if !self.initialized {
            return Err(not_initialized_error());
        }
        match self.graphics_devices.find(name) {
            Some(i) => {
                let (_, d) = self.graphics_devices.entry(i);
                Ok(d.clone())
            },
            None => {
                let msg = message_with_name(
                    "GraphicsDevice '",
                    name,
                    "' not found. Call Engine::create_graphics_device() first.",
                );
                proof {
                    reveal_strlit("GraphicsDevice '");
                    reveal_strlit("' not found. Call Engine::create_graphics_device() first.");
                }
                Err(Error::InitializationFailed(msg))
            },
        }
    }

    /// Unregister the device named `name`; an unknown name is not an error.
    ///
    /// Fails with `InitializationFailed` only when the engine is not
    /// initialized, leaving it unchanged.
    pub fn destroy_graphics_device(&mut self, name: &str) -> (r: Result<(), Error>)
        requires
            old(self).wf(),
        ensures
            final(self).wf(),
            r is Ok <==> old(self)@.initialized,
            r is Ok ==> final(self)@ == (EngineModel {
                devices: without_name(old(self)@.devices, name@),
                ..old(self)@
            }),
            r matches Err(e) ==> final(self)@ == old(self)@ && e@ == ErrorView::InitializationFailed(
                msg_not_initialized_short(),
            ),
    {
        if !self.initialized {
            return Err(not_initialized_short_error());
        }
        match self.graphics_devices.find(name) {
            Some(i) => {
                let _ = self.graphics_devices.remove_at(i);
            },
            None => {},
        }
        Ok(())
    }

    /// Names of the registered devices (empty when not initialized).
    pub fn graphics_device_names(&self) -> (names: Vec<String>)
        requires
            self.wf(),
        ensures
            names@.map_values(|s: String| s@) == (if self@.initialized {
                names_of(self@.devices)
            } else {
                Seq::<Seq<char>>::empty()
            }),
    {
        let mut names: Vec<String> = Vec::new();
        if !self.initialized {
            assert(names@.map_values(|s: String| s@) =~= Seq::<Seq<char>>::empty());
            return names;
        }
        let n = self.graphics_devices.len();
        let mut i: usize = 0;
        while i < n
            invariant
                n == self@.devices.len(),
                i <= n,
                names@.map_values(|s: String| s@) =~= names_of(self@.devices).take(i as int),
            decreases n - i,
        {
            let (name, _) = self.graphics_devices.entry(i);
            names.push(name.clone());
            assert(names_of(self@.devices).take(i as int + 1) =~= names_of(self@.devices).take(
                i as int,
            ).push(self@.devices[i as int].0));
            i += 1;
        }
        assert(names_of(self@.devices).take(n as int) =~= names_of(self@.devices));
        names
    }

    /// Number of registered devices (0 when not initialized).
    pub fn graphics_device_count(&self) -> (n: usize)
        requires
            self.wf(),
        ensures
            n == (if self@.initialized {
                self@.devices.len()
            } else {
                0
            }),
    {
        if self.initialized {
            self.graphics_devices.len()
        } else {
            0
        }
    }

    /// Register the resource manager singleton.
    ///
    /// Fails with `InitializationFailed` when the engine is not initialized
    /// or a resource manager already exists; the engine is then unchanged.
    pub fn create_resource_manager(&mut self, resource_manager: RM) -> (r: Result<(), Error>)
        requires
            old(self).wf(),
        ensures
            final(self).wf(),
            r is Ok <==> old(self)@.initialized && old(self)@.resource_manager is None,
            r is Ok ==> final(self)@ == (EngineModel { resource_manager: Some(resource_manager), ..old(self)@ }),
            r matches Err(e) ==> final(self)@ == old(self)@ && e@ == (if !old(self)@.initialized {
                ErrorView::InitializationFailed(msg_not_initialized())
            } else {
                ErrorView::InitializationFailed(msg_manager_exists(ManagerKind::Resource))
            }),
    {
        if !self.initialized {
            return Err(not_initialized_error());
        }
        if self.resource_manager.is_some() {
            return Err(manager_exists_error(ManagerKind::Resource));
        }
        self.resource_manager = Some(resource_manager);
        Ok(())
    }

    /// A clone of the resource manager singleton's handle.
    ///
    /// Fails with `InitializationFailed` when the engine is not initialized
    /// or the resource manager has not been created.
    pub fn resource_manager(&self) -> (r: Result<RM, Error>) where RM: Clone
        requires
            self.wf(),
        ensures
            r is Ok <==> self@.initialized && self@.resource_manager is Some,
            r matches Ok(h) ==> cloned(self@.resource_manager.unwrap(), h),
            r matches Err(e) ==> e@ == (if !self@.initialized {
                ErrorView::InitializationFailed(msg_not_initialized())
            } else {
                ErrorView::InitializationFailed(msg_manager_not_created(ManagerKind::Resource))
            }),
    {
        if !self.initialized {
            return Err(not_initialized_error());
        }
        match &self.resource_manager {
            Some(m) => Ok(m.clone()),
            None => Err(manager_not_created_error(ManagerKind::Resource)),
        }
    }

    /// Release the resource manager singleton; releasing an absent one is not an
    /// error. Fails with `InitializationFailed` only when the engine is not
    /// initialized, leaving it unchanged.
    pub fn destroy_resource_manager(&mut self) -> (r: Result<(), Error>)
        requires
            old(self).wf(),
        ensures
            final(self).wf(),
            r is Ok <==> old(self)@.initialized,
            r is Ok ==> final(self)@ == (EngineModel { resource_manager: None, ..old(self)@ }),
            r matches Err(e) ==> final(self)@ == old(self)@ && e@ == ErrorView::InitializationFailed(
                msg_not_initialized_short(),
            ),
    {
        if !self.initialized {
            return Err(not_initialized_short_error());
        }
        self.resource_manager = None;
        Ok(())
    }

    /// Register the scene manager singleton.
    ///
    /// Fails with `InitializationFailed` when the engine is not initialized
    /// or a scene manager already exists; the engine is then unchanged.
    pub fn create_scene_manager(&mut self, scene_manager: SM) -> (r: Result<(), Error>)
        requires
            old(self).wf(),
        ensures
            final(self).wf(),
            r is Ok <==> old(self)@.initialized && old(self)@.scene_manager is None,
            r is Ok ==> final(self)@ == (EngineModel { scene_manager: Some(scene_manager), ..old(self)@ }),
            r matches Err(e) ==> final(self)@ == old(self)@ && e@ == (if !old(self)@.initialized {
                ErrorView::InitializationFailed(msg_not_initialized())
            } else {
                ErrorView::InitializationFailed(msg_manager_exists(ManagerKind::Scene))
            }),
    {
        if !self.initialized {
            return Err(not_initialized_error());
        }
        if self.scene_manager.is_some() {
            return Err(manager_exists_error(ManagerKind::Scene));
        }
        self.scene_manager = Some(scene_manager);
        Ok(())
    }

    /// A clone of the scene manager singleton's handle.
    ///
    /// Fails with `InitializationFailed` when the engine is not initialized
    /// or the scene manager has not been created.
    pub fn scene_manager(&self) -> (r: Result<SM, Error>) where SM: Clone
        requires
            self.wf(),
        ensures
            r is Ok <==> self@.initialized && self@.scene_manager is Some,
            r matches Ok(h) ==> cloned(self@.scene_manager.unwrap(), h),
            r matches Err(e) ==> e@ == (if !self@.initialized {
                ErrorView::InitializationFailed(msg_not_initialized())
            } else {
                ErrorView::InitializationFailed(msg_manager_not_created(ManagerKind::Scene))
            }),
    {
        if !self.initialized {
            return Err(not_initialized_error());
        }
        match &self.scene_manager {
            Some(m) => Ok(m.clone()),
            None => Err(manager_not_created_error(ManagerKind::Scene)),
        }
    }

    /// Release the scene manager singleton; releasing an absent one is not an
    /// error. Fails with `InitializationFailed` only when the engine is not
    /// initialized, leaving it unchanged.
    pub fn destroy_scene_manager(&mut self) -> (r: Result<(), Error>)
        requires
            old(self).wf(),
        ensures
            final(self).wf(),
            r is Ok <==> old(self)@.initialized,
            r is Ok ==> final(self)@ == (EngineModel { scene_manager: None, ..old(self)@ }),
            r matches Err(e) ==> final(self)@ == old(self)@ && e@ == ErrorView::InitializationFailed(
                msg_not_initialized_short(),
            ),
    {
        if !self.initialized {
            return Err(not_initialized_short_error());
        }
        self.scene_manager = None;
        Ok(())
    }

    /// Register the render graph manager singleton.
    ///
    /// Fails with `InitializationFailed` when the engine is not initialized
    /// or a render graph manager already exists; the engine is then unchanged.
    pub fn create_render_graph_manager(&mut self, render_graph_manager: RGM) -> (r: Result<(), Error>)
        requires
            old(self).wf(),
        ensures
            final(self).wf(),
            r is Ok <==> old(self)@.initialized && old(self)@.render_graph_manager is None,
            r is Ok ==> final(self)@ == (EngineModel { render_graph_manager: Some(render_graph_manager), ..old(self)@ }),
            r matches Err(e) ==> final(self)@ == old(self)@ && e@ == (if !old(self)@.initialized {
                ErrorView::InitializationFailed(msg_not_initialized())
            } else {
                ErrorView::InitializationFailed(msg_manager_exists(ManagerKind::RenderGraph))
            }),
    {
        if !self.initialized {
            return Err(not_initialized_error());
        }
        if self.render_graph_manager.is_some() {
            return Err(manager_exists_error(ManagerKind::RenderGraph));
        }
        self.render_graph_manager = Some(render_graph_manager);
        Ok(())
    }

    /// A clone of the render graph manager singleton's handle.
    ///
    /// Fails with `InitializationFailed` when the engine is not initialized
    /// or the render graph manager has not been created.
    pub fn render_graph_manager(&self) -> (r: Result<RGM, Error>) where RGM: Clone
        requires
            self.wf(),
        ensures
            r is Ok <==> self@.initialized && self@.render_graph_manager is Some,
            r matches Ok(h) ==> cloned(self@.render_graph_manager.unwrap(), h),
            r matches Err(e) ==> e@ == (if !self@.initialized {
                ErrorView::InitializationFailed(msg_not_initialized())
            } else {
                ErrorView::InitializationFailed(msg_manager_not_created(ManagerKind::RenderGraph))
            }),
    {
        if !self.initialized {
            return Err(not_initialized_error());
        }
        match &self.render_graph_manager {
            Some(m) => Ok(m.clone()),
            None => Err(manager_not_created_error(ManagerKind::RenderGraph)),
        }
    }

    /// Release the render graph manager singleton; releasing an absent one is not an
    /// error. Fails with `InitializationFailed` only when the engine is not
    /// initialized, leaving it unchanged.
    pub fn destroy_render_graph_manager(&mut self) -> (r: Result<(), Error>)
        requires
            old(self).wf(),
        ensures
            final(self).wf(),
            r is Ok <==> old(self)@.initialized,
            r is Ok ==> final(self)@ == (EngineModel { render_graph_manager: None, ..old(self)@ }),
            r matches Err(e) ==> final(self)@ == old(self)@ && e@ == ErrorView::InitializationFailed(
                msg_not_initialized_short(),
            ),
    {
        if !self.initialized {
            return Err(not_initialized_short_error());
        }
        self.render_graph_manager = None;
        Ok(())
    }
}


// ===== Laws =====

/// A device registered under a new name is found under that name, the
/// name can no longer be registered, the count grows by one, and every
/// other name finds what it found before.
pub proof fn law_registered_device_is_found<D, RM, SM, RGM>(
    before: EngineModel<D, RM, SM, RGM>,
    name: Seq<char>,
    device: D,
    other: Seq<char>,
)
    requires
        entries_distinct(before.devices),
        !has_name(before.devices, name),
    ensures
        ({
            let after = EngineModel { devices: before.devices.push((name, device)), ..before };
            &&& has_name(after.devices, name)
            &&& lookup(after.devices, name) == Some(device)
            &&& after.devices.len() == before.devices.len() + 1
            &&& other != name ==> lookup(after.devices, other) == lookup(before.devices, other)
        }),
{
    lemma_push_lookup(before.devices, name, device, other);
}

/// A device unregistered is no longer found, the name can be registered
/// again, and every other name finds what it found before.
pub proof fn law_destroyed_device_is_not_found<D, RM, SM, RGM>(
    before: EngineModel<D, RM, SM, RGM>,
    name: Seq<char>,
    other: Seq<char>,
)
    requires
        entries_distinct(before.devices),
    ensures
        ({
            let after = EngineModel { devices: without_name(before.devices, name), ..before };
            &&& !has_name(after.devices, name)
            &&& other != name ==> lookup(after.devices, other) == lookup(before.devices, other)
        }),
{
    lemma_without_lookup(before.devices, name, other);
}

/// Shutdown releases every device and manager and keeps the engine
/// initialized, so every subsystem can be created again.
pub proof fn law_shutdown_releases_everything<D, RM, SM, RGM>(m: EngineModel<D, RM, SM, RGM>, name: Seq<char>, k: ManagerKind)
    requires
        m.initialized,
    ensures
        m.cleared().initialized,
        !has_name(m.cleared().devices, name),
        !m.cleared().has_manager(k),
{
}

/// A manager singleton just created is the one handed out, and a second
/// creation is refused until it is destroyed.
pub proof fn law_created_manager_is_found<D, RM, SM, RGM>(
    m: EngineModel<D, RM, SM, RGM>,
    rm: RM,
    sm: SM,
    rgm: RGM,
)
    ensures
        (EngineModel { resource_manager: Some(rm), ..m }).resource_manager == Some(rm),
        (EngineModel { resource_manager: Some(rm), ..m }).has_manager(ManagerKind::Resource),
        !(EngineModel { resource_manager: None::<RM>, ..m }).has_manager(ManagerKind::Resource),
        (EngineModel { scene_manager: Some(sm), ..m }).scene_manager == Some(sm),
        (EngineModel { scene_manager: Some(sm), ..m }).has_manager(ManagerKind::Scene),
        !(EngineModel { scene_manager: None::<SM>, ..m }).has_manager(ManagerKind::Scene),
        (EngineModel { render_graph_manager: Some(rgm), ..m }).render_graph_manager == Some(rgm),
        (EngineModel { render_graph_manager: Some(rgm), ..m }).has_manager(ManagerKind::RenderGraph),
        !(EngineModel { render_graph_manager: None::<RGM>, ..m }).has_manager(ManagerKind::RenderGraph),
{
}

} // verus!
