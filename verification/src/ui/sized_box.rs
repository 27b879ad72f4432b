//! A childless box with per-axis length policies and an optional fill color.

use vstd::prelude::*;
use crate::render::DrawHandle;
use crate::ui::DynWidget;
use crate::ui::Widget;
use crate::ui::color::Color;
use crate::ui::math::Length;
use crate::ui::math::Rect;
use crate::ui::math::UVec2;
use crate::ui::math::resolve_length;
use crate::ui::text::GlyphCache;

verus! {

/// A box with no content: `Auto` resolves to zero, `Fixed` and `Fill` as
/// usual. Rendering fills the box's rectangle with its color, if it has one.
pub struct SizedBox {
    pub color: Option<Color>,
    pub width: Length,
    pub height: Length,
    pub layout_size: UVec2,
}

impl SizedBox {
    pub fn new() -> (r: Self)
        ensures
            r.color is None,
            r.width == Length::Auto,
            r.height == Length::Auto,
            r.layout_size == (UVec2 { x: 0u32, y: 0u32 }),
    {
        SizedBox { color: None, width: Length::Auto, height: Length::Auto, layout_size: UVec2::zero() }
    }

    /// Sets the fill color.
    pub fn color(self, color: Color) -> (r: Self)
        ensures
            r == (SizedBox { color: Some(color), ..self }),
    {
        SizedBox { color: Some(color), ..self }
    }

    /// Sets the horizontal length policy.
    pub fn width(self, width: Length) -> (r: Self)
        ensures
            r == (SizedBox { width, ..self }),
    {
        SizedBox { width, ..self }
    }

    /// Sets the vertical length policy.
    pub fn height(self, height: Length) -> (r: Self)
        ensures
            r == (SizedBox { height, ..self }),
    {
        SizedBox { height, ..self }
    }
}

impl Default for SizedBox {
    fn default() -> (r: Self)
        ensures
            r.color is None,
            r.width == Length::Auto,
            r.height == Length::Auto,
            r.layout_size == (UVec2 { x: 0u32, y: 0u32 }),
    {
        SizedBox::new()
    }
}

impl Widget for SizedBox {
    open spec fn model(&self) -> DynWidget {
        DynWidget::SizedBox(*self)
    }

    fn layout(&mut self, bounds: UVec2) -> (r: UVec2) {
        let layout_width = resolve_length(self.width, 0, 0, bounds.x);
        let layout_height = resolve_length(self.height, 0, 0, bounds.y);
        self.layout_size = UVec2::new(layout_width, layout_height);
        self.layout_size
    }

    fn render(&self, pos: UVec2, cache: &mut GlyphCache, draw: &mut DrawHandle) {
        match self.color {
            Some(color) => {
                draw.draw_rect(Rect::from_pos_size(pos, self.layout_size), color.premultiply());
            },
            None => (),
        }
    }

    fn into_dyn(self) -> (r: DynWidget) {
        DynWidget::SizedBox(self)
    }
}

} // verus!
