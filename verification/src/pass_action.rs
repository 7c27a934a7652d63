//! Data of the render-pass actions: the bindings of a scene pass, the
//! layout they are bound with, and the pipeline and binding group of a
//! full-screen pass.

use vstd::prelude::*;
use crate::binding_group::{BindingGroupLayoutDesc, BindingSlotDesc, BindingType, ShaderStageFlags};
use crate::keys::{BufferKey, TextureKey};

verus! {

/// One binding of the scene pass descriptor set; entries map to binding
/// indices 0, 1, 2, ... in declaration order. `S` is the sampler type.
#[derive(Debug, Clone, Copy, PartialEq, Eq)]
pub enum SceneBinding<S> {
    /// Uniform buffer.
    UniformBuffer(BufferKey),
    /// Storage buffer.
    StorageBuffer(BufferKey),
    /// Sampled texture with its sampler type.
    SampledTexture(TextureKey, S),
}

/// The slot type a scene binding takes: a buffer binding takes the
/// dynamic-offset variant when its buffer is updated dynamically.
pub open spec fn scene_binding_type<S>(b: SceneBinding<S>, dynamic: bool) -> BindingType {
    match b {
        SceneBinding::UniformBuffer(_) => if dynamic {
            BindingType::UniformBufferDynamic
        } else {
            BindingType::UniformBuffer
        },
        SceneBinding::StorageBuffer(_) => if dynamic {
            BindingType::StorageBufferDynamic
        } else {
            BindingType::StorageBuffer
        },
        SceneBinding::SampledTexture(_, _) => BindingType::CombinedImageSampler,
    }
}

/// Slot `i` of a scene pass layout: one descriptor of the binding's type,
/// seen by the vertex and fragment stages.
pub open spec fn scene_slot<S>(b: SceneBinding<S>, dynamic: bool, i: int) -> BindingSlotDesc {
    BindingSlotDesc {
        binding: i as u32,
        binding_type: scene_binding_type(b, dynamic),
        count: 1,
        stage_flags: ShaderStageFlags::spec_from_bits(0x03),
    }
}

/// A scene binding whose slot is bound with a dynamic offset.
pub open spec fn scene_binding_is_dynamic<S>(b: SceneBinding<S>, dynamic: bool) -> bool {
    !(b is SampledTexture) && dynamic
}

/// Indices, in increasing order, of the first `n` bindings that are bound
/// with a dynamic offset.
pub open spec fn dynamic_indices<S>(bindings: Seq<SceneBinding<S>>, dynamic: Seq<bool>, n: int) -> Seq<
    u32,
>
    decreases n,
{
    if n <= 0 {
        Seq::empty()
    } else {
        let prefix = dynamic_indices(bindings, dynamic, n - 1);
        if scene_binding_is_dynamic(bindings[n - 1], dynamic[n - 1]) {
            prefix.push((n - 1) as u32)
        } else {
            prefix
        }
    }
}

/// Layout of the per-pass binding group (set 1) of a scene pass: binding
/// `i` is slot `i`, one descriptor, seen by the vertex and fragment
/// stages. `buffer_is_dynamic[i]` tells whether the buffer of binding `i`
/// is updated dynamically (ignored for textures).
pub fn scene_binding_layout<S>(bindings: &[SceneBinding<S>], buffer_is_dynamic: &[bool]) -> (layout:
    BindingGroupLayoutDesc)
    requires
        buffer_is_dynamic@.len() == bindings@.len(),
        bindings@.len() <= u32::MAX,
    ensures
        layout.entries@.len() == bindings@.len(),
        forall|i: int|
            0 <= i < bindings@.len() ==> #[trigger] layout.entries@[i] == scene_slot(
                bindings@[i],
                buffer_is_dynamic@[i],
                i,
            ),
{
    let stages = ShaderStageFlags::VERTEX_FRAGMENT();
    let mut entries: Vec<BindingSlotDesc> = Vec::new();
    let mut i: usize = 0;
    while i < bindings.len()
        invariant
            i <= bindings@.len(),
            buffer_is_dynamic@.len() == bindings@.len(),
            bindings@.len() <= u32::MAX,
            stages == ShaderStageFlags::spec_from_bits(0x03),
            entries@.len() == i,
            forall|j: int|
                0 <= j < i ==> #[trigger] entries@[j] == scene_slot(bindings@[j], buffer_is_dynamic@[j], j),
        decreases bindings@.len() - i,
    {
        let dynamic = buffer_is_dynamic[i];
        let binding_type = match &bindings[i] {
            SceneBinding::UniformBuffer(_) => if dynamic {
                BindingType::UniformBufferDynamic
            } else {
                BindingType::UniformBuffer
            },
            SceneBinding::StorageBuffer(_) => if dynamic {
                BindingType::StorageBufferDynamic
            } else {
                BindingType::StorageBuffer
            },
            SceneBinding::SampledTexture(_, _) => BindingType::CombinedImageSampler,
        };
        entries.push(
            BindingSlotDesc { binding: i as u32, binding_type, count: 1, stage_flags: stages },
        );
        i += 1;
    }
    BindingGroupLayoutDesc { entries }
}

/// Binding indices of set 1 bound with a dynamic offset, in increasing
/// order: the buffer bindings whose buffer is updated dynamically.
pub fn scene_dynamic_bindings<S>(bindings: &[SceneBinding<S>], buffer_is_dynamic: &[bool]) -> (v: Vec<
    u32,
>)
    requires
        buffer_is_dynamic@.len() == bindings@.len(),
        bindings@.len() <= u32::MAX,
    ensures
        v@ == dynamic_indices(bindings@, buffer_is_dynamic@, bindings@.len() as int),
{
    let mut v: Vec<u32> = Vec::new();
    let mut i: usize = 0;
    while i < bindings.len()
        invariant
            i <= bindings@.len(),
            buffer_is_dynamic@.len() == bindings@.len(),
            bindings@.len() <= u32::MAX,
            v@ == dynamic_indices(bindings@, buffer_is_dynamic@, i as int),
        decreases bindings@.len() - i,
    {
        let is_buffer = match &bindings[i] {
            SceneBinding::SampledTexture(_, _) => false,
            _ => true,
        };
        if is_buffer && buffer_is_dynamic[i] {
            v.push(i as u32);
        }
        i += 1;
    }
    v
}

/// Full-screen pass: bind the pipeline, bind one set-0 binding group,
/// draw the 3-vertex full-screen triangle.
pub struct FullscreenPassAction<P, B> {
    pipeline: P,
    binding_group: B,
}

impl<P, B> FullscreenPassAction<P, B> {
    /// Pipeline the pass binds.
    pub closed spec fn spec_pipeline(&self) -> P {
        self.pipeline
    }

    /// Binding group the pass binds at set 0.
    pub closed spec fn spec_binding_group(&self) -> B {
        self.binding_group
    }

    /// A full-screen pass with its pipeline and binding group.
    pub fn new(pipeline: P, binding_group: B) -> (a: Self)
        ensures
            a.spec_pipeline() == pipeline,
            a.spec_binding_group() == binding_group,
    {
        FullscreenPassAction { pipeline, binding_group }
    }

    /// Pipeline the pass binds.
    pub fn pipeline(&self) -> (p: &P)
        ensures
            *p == self.spec_pipeline(),
    {
        &self.pipeline
    }

    /// Binding group the pass binds at set 0.
    pub fn binding_group(&self) -> (b: &B)
        ensures
            *b == self.spec_binding_group(),
    {
        &self.binding_group
    }

    /// What the pass records: bind its pipeline, bind its binding group at
    /// set 0, draw the 3 vertices of the full-screen triangle.
    pub fn commands(&self) -> (v: Vec<ActionCommand>)
        ensures
            v@ == seq![
                ActionCommand::BindPipeline,
                ActionCommand::BindBindingGroup { set_index: 0 },
                ActionCommand::Draw { vertex_count: 3, first_vertex: 0 },
            ],
    {
        let v = vec![
            ActionCommand::BindPipeline,
            ActionCommand::BindBindingGroup { set_index: 0 },
            ActionCommand::Draw { vertex_count: 3, first_vertex: 0 },
        ];
        v
    }
}

/// One command a pass action records.
#[derive(Debug, Clone, Copy, PartialEq, Eq, Structural)]
pub enum ActionCommand {
    /// Bind the action's pipeline.
    BindPipeline,
    /// Bind the action's binding group at a set index.
    BindBindingGroup { set_index: u32 },
    /// Draw vertices without an index buffer.
    Draw { vertex_count: u32, first_vertex: u32 },
}

} // verus!
