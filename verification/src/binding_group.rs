//! Binding group layouts: shader stage masks, binding types and slot
//! descriptions.

use vstd::prelude::*;
use crate::shader::ShaderStage;

verus! {

/// Bit of the vertex stage.
pub const VERTEX_BIT: u32 = 0x01;
/// Bit of the fragment stage.
pub const FRAGMENT_BIT: u32 = 0x02;
/// Bit of the compute stage.
pub const COMPUTE_BIT: u32 = 0x04;

/// The bit of a shader stage.
pub open spec fn stage_bit(s: ShaderStage) -> u32 {
    match s {
        ShaderStage::Vertex => VERTEX_BIT,
        ShaderStage::Fragment => FRAGMENT_BIT,
        ShaderStage::Compute => COMPUTE_BIT,
    }
}

/// The union of the bits of the first `n` stages.
pub open spec fn stages_bits(stages: Seq<ShaderStage>, n: int) -> u32
    decreases n,
{
    if n <= 0 {
        0
    } else {
        stages_bits(stages, n - 1) | stage_bit(stages[n - 1])
    }
}

/// A set of shader stages, as a bit mask.
#[derive(Debug, Clone, Copy, PartialEq, Eq, Hash, Structural)]
pub struct ShaderStageFlags {
    bits: u32,
}

impl ShaderStageFlags {
    /// The vertex stage.
    #[allow(non_snake_case)]
    pub fn VERTEX() -> (f: Self)
        ensures
            f.spec_bits() == 0x01,
            f == ShaderStageFlags::spec_from_bits(0x01),
    {
        ShaderStageFlags { bits: 0x01 }
    }

    /// The fragment stage.
    #[allow(non_snake_case)]
    pub fn FRAGMENT() -> (f: Self)
        ensures
            f.spec_bits() == 0x02,
            f == ShaderStageFlags::spec_from_bits(0x02),
    {
        ShaderStageFlags { bits: 0x02 }
    }

    /// The compute stage.
    #[allow(non_snake_case)]
    pub fn COMPUTE() -> (f: Self)
        ensures
            f.spec_bits() == 0x04,
            f == ShaderStageFlags::spec_from_bits(0x04),
    {
        ShaderStageFlags { bits: 0x04 }
    }

    /// The vertex and fragment stages.
    #[allow(non_snake_case)]
    pub fn VERTEX_FRAGMENT() -> (f: Self)
        ensures
            f.spec_bits() == 0x03,
            f == ShaderStageFlags::spec_from_bits(0x03),
    {
        ShaderStageFlags { bits: 0x03 }
    }

    /// Every stage.
    #[allow(non_snake_case)]
    pub fn ALL() -> (f: Self)
        ensures
            f.spec_bits() == 0x07,
            f == ShaderStageFlags::spec_from_bits(0x07),
    {
        ShaderStageFlags { bits: 0x07 }
    }

    /// The mask.
    pub closed spec fn spec_bits(self) -> u32 {
        self.bits
    }

    /// The mask.
    pub fn bits(&self) -> (b: u32)
        ensures
            b == self.spec_bits(),
    {
        self.bits
    }

    /// The flags with the given mask.
    pub closed spec fn spec_from_bits(bits: u32) -> Self {
        ShaderStageFlags { bits }
    }

    /// The flags with the given mask.
    pub fn from_bits(bits: u32) -> (f: Self)
        ensures
            f.spec_bits() == bits,
            f == ShaderStageFlags::spec_from_bits(bits),
    {
        ShaderStageFlags { bits }
    }

    /// The union of the given stages (a stage listed twice counts once).
    pub fn from_stages(stages: &[ShaderStage]) -> (f: Self)
        ensures
            f.spec_bits() == stages_bits(stages@, stages@.len() as int),
    {
        let mut bits: u32 = 0;
        let mut i: usize = 0;
        while i < stages.len()
            invariant
                i <= stages@.len(),
                bits == stages_bits(stages@, i as int),
            decreases stages@.len() - i,
        {
            let b: u32 = match stages[i] {
                ShaderStage::Vertex => VERTEX_BIT,
                ShaderStage::Fragment => FRAGMENT_BIT,
                ShaderStage::Compute => COMPUTE_BIT,
            };
            bits = bits | b;
            i += 1;
        }
        ShaderStageFlags { bits }
    }

    /// Whether the vertex stage is in the set.
    pub fn contains_vertex(&self) -> (r: bool)
        ensures
            r == (self.spec_bits() & VERTEX_BIT != 0),
    {
        self.bits & VERTEX_BIT != 0
    }

    /// Whether the fragment stage is in the set.
    pub fn contains_fragment(&self) -> (r: bool)
        ensures
            r == (self.spec_bits() & FRAGMENT_BIT != 0),
    {
        self.bits & FRAGMENT_BIT != 0
    }

    /// Whether the compute stage is in the set.
    pub fn contains_compute(&self) -> (r: bool)
        ensures
            r == (self.spec_bits() & COMPUTE_BIT != 0),
    {
        self.bits & COMPUTE_BIT != 0
    }
}

/// Kind of resource bound at a slot.
#[derive(Debug, Clone, Copy, PartialEq, Eq, Hash, Structural)]
pub enum BindingType {
    /// Uniform buffer.
    UniformBuffer,
    /// Uniform buffer bound with a dynamic offset.
    UniformBufferDynamic,
    /// Storage buffer.
    StorageBuffer,
    /// Storage buffer bound with a dynamic offset.
    StorageBufferDynamic,
    /// Texture with its sampler.
    CombinedImageSampler,
}

/// One slot of a binding group layout.
#[derive(Debug, Clone, Copy, PartialEq, Eq, Structural)]
pub struct BindingSlotDesc {
    /// Binding index.
    pub binding: u32,
    /// Kind of resource bound.
    pub binding_type: BindingType,
    /// Number of descriptors in the slot.
    pub count: u32,
    /// Stages that see the slot.
    pub stage_flags: ShaderStageFlags,
}

/// Layout of a binding group: its slots.
#[derive(Debug, Clone)]
pub struct BindingGroupLayoutDesc {
    pub entries: Vec<BindingSlotDesc>,
}

/// Flags are their mask: rebuilding flags from the mask of some flags
/// gives them back.
pub proof fn law_flags_round_trip(f: ShaderStageFlags)
    ensures
        ShaderStageFlags::spec_from_bits(f.spec_bits()) == f,
{
}

/// Listing a stage a second time does not change the flags.
pub proof fn law_repeated_stage_is_idempotent(stages: Seq<ShaderStage>, s: ShaderStage)
    ensures
        stages_bits(stages.push(s).push(s), stages.len() as int + 2) == stages_bits(
            stages.push(s),
            stages.len() as int + 1,
        ),
{
    let a = stages.push(s);
    let b = a.push(s);
    lemma_stages_bits_prefix(a, b, stages.len() as int + 1);
    let x = stages_bits(a, stages.len() as int + 1);
    let y = stage_bit(s);
    assert(b[stages.len() as int + 1] == s);
    assert(x == stages_bits(stages, stages.len() as int) | y) by {
        lemma_stages_bits_prefix(stages, a, stages.len() as int);
    }
    let z = stages_bits(stages, stages.len() as int);
    assert((z | y) | y == z | y) by (bit_vector);
}

/// The bits of the first `n` stages depend only on those stages.
proof fn lemma_stages_bits_prefix(a: Seq<ShaderStage>, b: Seq<ShaderStage>, n: int)
    requires
        0 <= n <= a.len(),
        n <= b.len(),
        forall|i: int| 0 <= i < n ==> a[i] == b[i],
    ensures
        stages_bits(a, n) == stages_bits(b, n),
    decreases n,
{
    if n > 0 {
        lemma_stages_bits_prefix(a, b, n - 1);
    }
}

} // verus!
