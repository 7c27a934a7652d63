//! Render targets: the edges of a render graph. A target is a view
//! (layer and mip level) of a texture, with the backend render target made
//! for it; it is written by at most one pass and read by any number.

use vstd::prelude::*;

verus! {

/// A render target over a texture handle `T`, with the backend render
/// target `R` made for the chosen view.
pub struct RenderTarget<T, R> {
    texture: T,
    layer: u32,
    mip_level: u32,
    renderer_render_target: R,
    written_by: Option<usize>,
}

impl<T, R> RenderTarget<T, R> {
    /// The texture the target views.
    pub closed spec fn spec_texture(&self) -> T {
        self.texture
    }

    /// Array layer of the view.
    pub closed spec fn spec_layer(&self) -> u32 {
        self.layer
    }

    /// Mip level of the view.
    pub closed spec fn spec_mip_level(&self) -> u32 {
        self.mip_level
    }

    /// Backend render target of the view.
    pub closed spec fn spec_renderer_render_target(&self) -> R {
        self.renderer_render_target
    }

    /// Index of the pass that writes the target, if any.
    pub closed spec fn spec_written_by(&self) -> Option<usize> {
        self.written_by
    }

    /// A target over a view of `texture`, written by no pass yet.
    pub fn new(texture: T, layer: u32, mip_level: u32, renderer_render_target: R) -> (t: Self)
        ensures
            t.spec_texture() == texture,
            t.spec_layer() == layer,
            t.spec_mip_level() == mip_level,
            t.spec_renderer_render_target() == renderer_render_target,
            t.spec_written_by() is None,
    {
        RenderTarget { texture, layer, mip_level, renderer_render_target, written_by: None }
    }

    /// The texture the target views.
    pub fn texture(&self) -> (t: &T)
        ensures
            *t == self.spec_texture(),
    {
        &self.texture
    }

    /// Array layer of the view (0 for simple textures).
    pub fn layer(&self) -> (l: u32)
        ensures
            l == self.spec_layer(),
    {
        self.layer
    }

    /// Mip level of the view (0 for full resolution).
    pub fn mip_level(&self) -> (m: u32)
        ensures
            m == self.spec_mip_level(),
    {
        self.mip_level
    }

    /// Backend render target of the view.
    pub fn renderer_render_target(&self) -> (r: &R)
        ensures
            *r == self.spec_renderer_render_target(),
    {
        &self.renderer_render_target
    }

    /// Index of the pass that writes the target, if any.
    pub fn written_by(&self) -> (w: Option<usize>)
        ensures
            w == self.spec_written_by(),
    {
        self.written_by
    }

    /// Record the pass that writes the target; the view is unchanged.
    pub fn set_written_by(&mut self, pass_id: usize)
        ensures
            final(self).spec_written_by() == Some(pass_id),
            final(self).spec_texture() == old(self).spec_texture(),
            final(self).spec_layer() == old(self).spec_layer(),
            final(self).spec_mip_level() == old(self).spec_mip_level(),
            final(self).spec_renderer_render_target() == old(self).spec_renderer_render_target(),
    {
        self.written_by = Some(pass_id);
    }
}

} // verus!
