//! A single-child wrapper that adds padding and an optional background fill.

use vstd::prelude::*;
use crate::render::DrawHandle;
use crate::ui::DynWidget;
use crate::ui::Widget;
use crate::ui::color::Color;
use crate::ui::math::Length;
use crate::ui::math::Rect;
use crate::ui::math::UVec2;
use crate::ui::math::resolve_length;
use crate::ui::spec_layout_size;
use crate::ui::text::GlyphCache;

verus! {

broadcast use {
    vstd::seq::axiom_seq_index_decreases,
    vstd::std_specs::vec::axiom_vec_index_decreases,
    vstd::std_specs::vec::axiom_vec_decreases_to_view,
};

/// A single child with optional background color and per-axis padding. The
/// child is laid out against the bounds less twice the padding per axis; the
/// container's own size then resolves per its length policies, and at render
/// time the background (if any) fills the container's rectangle before the
/// child draws, offset by the padding.
pub struct Container {
    pub child: Box<DynWidget>,
    pub bg_color: Option<Color>,
    pub padding: UVec2,
    pub width: Length,
    pub height: Length,
    pub layout_size: UVec2,
}

/// Wraps a widget in a [`Container`] with no background, no padding, and
/// `Auto` sizing.
pub fn container(child: impl Widget) -> (r: Container)
    ensures
        r.child == child.model(),
        r.bg_color is None,
        r.padding == (UVec2 { x: 0u32, y: 0u32 }),
        r.width == Length::Auto,
        r.height == Length::Auto,
        r.layout_size == (UVec2 { x: 0u32, y: 0u32 }),
{
    Container {
        child: Box::new(child.into_dyn()),
        bg_color: None,
        padding: UVec2::zero(),
        width: Length::Auto,
        height: Length::Auto,
        layout_size: UVec2::zero(),
    }
}

impl Container {
    /// Sets the background color.
    pub fn bg(self, color: Color) -> (r: Self)
        ensures
            r == (Container { bg_color: Some(color), ..self }),
    {
        Container { bg_color: Some(color), ..self }
    }

    /// Sets the same padding on both axes.
    pub fn padding_all(self, padding: u32) -> (r: Self)
        ensures
            r == (Container { padding: UVec2 { x: padding, y: padding }, ..self }),
    {
        Container { padding: UVec2 { x: padding, y: padding }, ..self }
    }

    /// Sets per-axis padding.
    pub fn padding(self, padding: UVec2) -> (r: Self)
        ensures
            r == (Container { padding, ..self }),
    {
        Container { padding, ..self }
    }

    /// Sets the horizontal length policy.
    pub fn width(self, width: Length) -> (r: Self)
        ensures
            r == (Container { width, ..self }),
    {
        Container { width, ..self }
    }

    /// Sets the vertical length policy.
    pub fn height(self, height: Length) -> (r: Self)
        ensures
            r == (Container { height, ..self }),
    {
        Container { height, ..self }
    }
}

impl Widget for Container {
    open spec fn model(&self) -> DynWidget {
        DynWidget::Container(*self)
    }

    fn layout(&mut self, bounds: UVec2) -> (r: UVec2)
        decreases *old(self),
    {
        let padding_x2 = self.padding.saturating_mul(2);
        let child_bounds = bounds.saturating_sub(padding_x2);
        let child_size = self.child.layout(child_bounds);
        let layout_width = resolve_length(self.width, child_size.x, padding_x2.x, bounds.x);
        let layout_height = resolve_length(self.height, child_size.y, padding_x2.y, bounds.y);
        self.layout_size = UVec2::new(layout_width, layout_height);
        proof {
            assert(spec_layout_size(old(self).model(), bounds) == self.layout_size);
        }
        self.layout_size
    }

    fn render(&self, pos: UVec2, cache: &mut GlyphCache, draw: &mut DrawHandle)
        decreases *self,
    {
        match self.bg_color {
            Some(bg_color) => {
                draw.draw_rect(Rect::from_pos_size(pos, self.layout_size), bg_color.premultiply());
            },
            None => (),
        }
        self.child.render(pos.saturating_add(self.padding), cache, draw);
    }

    fn into_dyn(self) -> (r: DynWidget) {
        DynWidget::Container(self)
    }
}

} // verus!
