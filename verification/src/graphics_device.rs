//! Backend-facing interfaces and plain records: framebuffers as the
//! backend sees them, and rectangles for viewport and scissor state.

use vstd::prelude::*;
use crate::frame_buffer::FramebufferDesc;

verus! {

/// A backend framebuffer: the set of attachments a render pass renders
/// into, with its extent.
pub trait Framebuffer {
    /// Width in pixels, as the framebuffer records it.
    spec fn spec_width(&self) -> u32;

    /// Height in pixels, as the framebuffer records it.
    spec fn spec_height(&self) -> u32;

    /// Width in pixels.
    fn width(&self) -> (w: u32)
        ensures
            w == self.spec_width(),
    ;

    /// Height in pixels.
    fn height(&self) -> (h: u32)
        ensures
            h == self.spec_height(),
    ;
}

impl Framebuffer for FramebufferDesc {
    /// The description's width.
    open spec fn spec_width(&self) -> u32 {
        self.width
    }

    /// The description's height.
    open spec fn spec_height(&self) -> u32 {
        self.height
    }

    fn width(&self) -> (w: u32) {
        self.width
    }

    fn height(&self) -> (h: u32) {
        self.height
    }
}

/// A 2D rectangle.
#[derive(Debug, Clone, Copy, PartialEq, Eq, Structural)]
pub struct Rect2D {
    pub x: i32,
    pub y: i32,
    pub width: u32,
    pub height: u32,
}

} // verus!
