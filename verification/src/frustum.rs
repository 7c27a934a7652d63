//! Indices of the six clipping planes of a view frustum.

use vstd::prelude::*;

verus! {

/// Left plane.
pub const PLANE_LEFT: usize = 0;
/// Right plane.
pub const PLANE_RIGHT: usize = 1;
/// Bottom plane.
pub const PLANE_BOTTOM: usize = 2;
/// Top plane.
pub const PLANE_TOP: usize = 3;
/// Near plane.
pub const PLANE_NEAR: usize = 4;
/// Far plane.
pub const PLANE_FAR: usize = 5;

} // verus!
