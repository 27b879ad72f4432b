//! The software rendering pipeline: pixel buffers, the compositor, and the
//! target-agnostic drawing surface handed to widgets.

pub mod buffer;

pub use buffer::BorrowedBuffer;
pub use buffer::OnwedBuffer;
pub use buffer::RenderBuffer;

use vstd::prelude::*;
use crate::ui::color::Color;
use crate::ui::math::Rect;
use buffer::spec_fill_rect;
use buffer::spec_fill_texture;
use buffer::texture_premultiplied;

verus! {

/// A drawing surface: a byte buffer of `width x height` BGRA pixels that
/// rectangles and textures composite into.
pub trait DrawHandleImpl: Sized {
    /// The buffer contents, as bytes in BGRA pixel order.
    spec fn bytes_spec(&self) -> Seq<u8>;

    /// The surface width in pixels.
    spec fn width_spec(&self) -> u32;

    /// The surface height in pixels.
    spec fn height_spec(&self) -> u32;

    /// The buffer holds exactly `width x height` 4-byte pixels.
    open spec fn surface_wf(&self) -> bool {
        &&& self.bytes_spec().len() == self.width_spec() * self.height_spec() * 4
        &&& self.width_spec() * self.height_spec() * 4 <= usize::MAX
    }

    /// Composites a premultiplied color over the rectangle, clipped to the
    /// surface.
    fn draw_rect(&mut self, rect: Rect, color: Color)
        requires
            old(self).surface_wf(),
            color.premultiplied(),
        ensures
            final(self).width_spec() == old(self).width_spec(),
            final(self).height_spec() == old(self).height_spec(),
            final(self).bytes_spec() == spec_fill_rect(
                old(self).bytes_spec(),
                old(self).width_spec(),
                old(self).height_spec(),
                rect,
                color,
            ),
    ;

    /// Blits a premultiplied RGBA texture at a pixel offset, clipped to the
    /// surface.
    fn draw_texture(&mut self, x: u32, y: u32, texture: BorrowedBuffer<'_>)
        requires
            old(self).surface_wf(),
            texture.wf(),
            texture_premultiplied(texture.bytes_spec()),
        ensures
            final(self).width_spec() == old(self).width_spec(),
            final(self).height_spec() == old(self).height_spec(),
            final(self).bytes_spec() == spec_fill_texture(
                old(self).bytes_spec(),
                old(self).width_spec(),
                old(self).height_spec(),
                x,
                y,
                texture.bytes_spec(),
                texture.width_spec(),
                texture.height_spec(),
            ),
    ;

    /// Reads back the composited frame, for presentation or headless testing.
    fn get_bytes(&self) -> (r: &[u8])
        ensures
            r@ == self.bytes_spec(),
    ;

    /// Wraps the surface in the dynamically-dispatched [`DrawHandle`].
    fn into_draw_handle(self) -> (r: DrawHandle)
        ensures
            r.bytes_spec() == self.bytes_spec(),
            r.width_spec() == self.width_spec(),
            r.height_spec() == self.height_spec(),
    ;
}

/// The drawing surfaces a [`DrawHandle`] can wrap. The widget set draws
/// through [`DrawHandle`], so the union is closed.
pub enum DrawTarget {
    Buffer(RenderBuffer),
    Owned(OnwedBuffer),
}

/// A drawing surface of either kind, with one drawing interface. Widgets
/// render into a `DrawHandle` without knowing which surface backs it.
pub struct DrawHandle {
    inner: DrawTarget,
}

impl DrawHandle {
    pub closed spec fn bytes_spec(&self) -> Seq<u8> {
        match self.inner {
            DrawTarget::Buffer(ref b) => b.buffer_spec(),
            DrawTarget::Owned(ref b) => b.buffer_spec(),
        }
    }

    pub closed spec fn width_spec(&self) -> u32 {
        match self.inner {
            DrawTarget::Buffer(ref b) => b.w_spec(),
            DrawTarget::Owned(ref b) => b.w_spec(),
        }
    }

    pub closed spec fn height_spec(&self) -> u32 {
        match self.inner {
            DrawTarget::Buffer(ref b) => b.h_spec(),
            DrawTarget::Owned(ref b) => b.h_spec(),
        }
    }

    pub open spec fn surface_wf(&self) -> bool {
        &&& self.bytes_spec().len() == self.width_spec() * self.height_spec() * 4
        &&& self.width_spec() * self.height_spec() * 4 <= usize::MAX
    }

    pub fn from(inner: impl DrawHandleImpl) -> (r: DrawHandle)
        ensures
            r.bytes_spec() == inner.bytes_spec(),
            r.width_spec() == inner.width_spec(),
            r.height_spec() == inner.height_spec(),
    {
        inner.into_draw_handle()
    }

    pub fn draw_rect(&mut self, rect: Rect, color: Color)
        requires
            old(self).surface_wf(),
            color.premultiplied(),
        ensures
            final(self).width_spec() == old(self).width_spec(),
            final(self).height_spec() == old(self).height_spec(),
            final(self).bytes_spec() == spec_fill_rect(
                old(self).bytes_spec(),
                old(self).width_spec(),
                old(self).height_spec(),
                rect,
                color,
            ),
    {
        match &mut self.inner {
            DrawTarget::Buffer(b) => b.draw_rect(rect, color),
            DrawTarget::Owned(b) => b.draw_rect(rect, color),
        }
    }

    pub fn draw_texture(&mut self, x: u32, y: u32, texture: BorrowedBuffer<'_>)
        requires
            old(self).surface_wf(),
            texture.wf(),
            texture_premultiplied(texture.bytes_spec()),
        ensures
            final(self).width_spec() == old(self).width_spec(),
            final(self).height_spec() == old(self).height_spec(),
            final(self).bytes_spec() == spec_fill_texture(
                old(self).bytes_spec(),
                old(self).width_spec(),
                old(self).height_spec(),
                x,
                y,
                texture.bytes_spec(),
                texture.width_spec(),
                texture.height_spec(),
            ),
    {
        match &mut self.inner {
            DrawTarget::Buffer(b) => b.draw_texture(x, y, texture),
            DrawTarget::Owned(b) => b.draw_texture(x, y, texture),
        }
    }

    pub fn get_bytes(&self) -> (r: &[u8])
        ensures
            r@ == self.bytes_spec(),
    {
        match &self.inner {
            DrawTarget::Buffer(b) => b.get_bytes(),
            DrawTarget::Owned(b) => b.get_bytes(),
        }
    }
}

impl DrawHandleImpl for RenderBuffer {
    open spec fn bytes_spec(&self) -> Seq<u8> {
        self.buffer_spec()
    }

    open spec fn width_spec(&self) -> u32 {
        self.w_spec()
    }

    open spec fn height_spec(&self) -> u32 {
        self.h_spec()
    }

    fn draw_rect(&mut self, rect: Rect, color: Color) {
        self.fill_rect_impl(rect, color);
    }

    fn draw_texture(&mut self, x: u32, y: u32, texture: BorrowedBuffer<'_>) {
        self.fill_texture_impl(x, y, texture);
    }

    fn get_bytes(&self) -> (r: &[u8]) {
        self.bytes_slice()
    }

    fn into_draw_handle(self) -> (r: DrawHandle) {
        DrawHandle { inner: DrawTarget::Buffer(self) }
    }
}

impl DrawHandleImpl for OnwedBuffer {
    open spec fn bytes_spec(&self) -> Seq<u8> {
        self.buffer_spec()
    }

    open spec fn width_spec(&self) -> u32 {
        self.w_spec()
    }

    open spec fn height_spec(&self) -> u32 {
        self.h_spec()
    }

    fn draw_rect(&mut self, rect: Rect, color: Color) {
        self.fill_rect_impl(rect, color);
    }

    fn draw_texture(&mut self, x: u32, y: u32, texture: BorrowedBuffer<'_>) {
        self.fill_texture_impl(x, y, texture);
    }

    fn get_bytes(&self) -> (r: &[u8]) {
        self.bytes()
    }

    fn into_draw_handle(self) -> (r: DrawHandle) {
        DrawHandle { inner: DrawTarget::Owned(self) }
    }
}

} // verus!
