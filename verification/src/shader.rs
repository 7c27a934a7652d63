//! Shader descriptions.

use vstd::prelude::*;

verus! {

/// Shader stage.
#[derive(Debug, Clone, Copy, PartialEq, Eq, Structural)]
pub enum ShaderStage {
    /// Vertex shader.
    Vertex,
    /// Fragment (pixel) shader.
    Fragment,
    /// Compute shader.
    Compute,
}

/// What a shader is created from.
#[derive(Debug, Clone)]
pub struct ShaderDesc<'a> {
    /// Compiled shader bytecode (SPIR-V or DXIL).
    pub code: &'a [u8],
    /// Shader stage.
    pub stage: ShaderStage,
    /// Entry point function name.
    pub entry_point: String,
}

} // verus!
