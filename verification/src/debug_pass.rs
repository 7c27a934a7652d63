//! Debug visualization: the display modes, and how a level of detail is
//! drawn.

use vstd::prelude::*;

verus! {

/// Debug visualization style; wireframe and bounding-box pipelines are
/// cached under it so that they never collide.
#[derive(Debug, Clone, Copy, PartialEq, Eq, Hash, Structural)]
pub enum DebugDisplayMode {
    /// Render instance triangles as line segments.
    Wireframe,
    /// Render the instance's world-space bounding box as a unit-cube
    /// outline.
    BoundingBox,
}

/// A draw of one level of detail of a submesh.
#[derive(Debug, Clone, Copy, PartialEq, Eq, Structural)]
pub enum DrawCall {
    /// Indexed draw.
    Indexed { index_count: u32, first_index: u32, vertex_offset: i32 },
    /// Draw without an index buffer.
    Plain { vertex_count: u32, first_vertex: u32 },
}

/// How the debug pass draws a level of detail: indexed when it has
/// indices, plainly otherwise. The vertex offset of an indexed draw is the
/// level's vertex offset taken as a signed 32-bit value.
pub fn lod_draw(index_count: u32, index_offset: u32, vertex_count: u32, vertex_offset: u32) -> (d: DrawCall)
    ensures
        index_count > 0 ==> d == (DrawCall::Indexed {
            index_count,
            first_index: index_offset,
            vertex_offset: vertex_offset as i32,
        }),
        index_count == 0 ==> d == (DrawCall::Plain { vertex_count, first_vertex: vertex_offset }),
{
    if index_count > 0 {
        DrawCall::Indexed { index_count, first_index: index_offset, vertex_offset: vertex_offset as i32 }
    } else {
        DrawCall::Plain { vertex_count, first_vertex: vertex_offset }
    }
}

} // verus!
