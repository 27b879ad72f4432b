//! Multi-child stacking layout along a row or column.

use vstd::prelude::*;
use crate::render::DrawHandle;
use crate::ui::DynWidget;
use crate::ui::Widget;
use crate::ui::math::Length;
use crate::ui::math::UVec2;
use crate::ui::math::resolve_length;
use crate::ui::math::sat_mul_u32;
use crate::ui::spec_children_bytes;
use crate::ui::spec_children_cache;
use crate::ui::spec_flex_bounds;
use crate::ui::spec_flex_cross;
use crate::ui::spec_flex_offset;
use crate::ui::spec_layout_size;
use crate::ui::spec_layout_state;
use crate::ui::spec_render_bytes;
use crate::ui::spec_render_cache;
use crate::ui::spec_children_wf;
use crate::ui::spec_widget_wf;
use crate::ui::text::GlyphCache;

verus! {

broadcast use {
    vstd::seq::axiom_seq_index_decreases,
    vstd::std_specs::vec::axiom_vec_index_decreases,
    vstd::std_specs::vec::axiom_vec_decreases_to_view,
};

/// The stacking direction of a [`Flex`]: the main axis.
#[derive(Debug, Clone, Copy, PartialEq, Eq, Structural)]
pub enum FlexDirection {
    Row,
    Column,
}

/// A multi-child layout along one axis. Each child is laid out against the
/// remaining main-axis space (cross axis constant, main axis shrinking,
/// saturating at zero); a child that reports more than the remaining space is
/// accepted and simply overlaps the children after it, which is preserved
/// rather than clamped. The child offsets recorded at layout time place each
/// child after the accumulated sizes of the children before it.
pub struct Flex {
    pub direction: FlexDirection,
    pub children: Vec<DynWidget>,
    pub child_offsets: Vec<u32>,
    pub padding: u32,
    pub width: Length,
    pub height: Length,
    pub layout_size: UVec2,
}

/// Stacks the given widgets top to bottom.
pub fn column(children: Vec<DynWidget>) -> (r: Flex)
    ensures
        r.direction == FlexDirection::Column,
        r.children == children,
        r.child_offsets@ == Seq::<u32>::empty(),
        r.padding == 0u32,
        r.width == Length::Auto,
        r.height == Length::Auto,
        r.layout_size == (UVec2 { x: 0u32, y: 0u32 }),
{
    create_flex(FlexDirection::Column, children)
}

/// Stacks the given widgets left to right.
pub fn row(children: Vec<DynWidget>) -> (r: Flex)
    ensures
        r.direction == FlexDirection::Row,
        r.children == children,
        r.child_offsets@ == Seq::<u32>::empty(),
        r.padding == 0u32,
        r.width == Length::Auto,
        r.height == Length::Auto,
        r.layout_size == (UVec2 { x: 0u32, y: 0u32 }),
{
    create_flex(FlexDirection::Row, children)
}

fn create_flex(direction: FlexDirection, children: Vec<DynWidget>) -> (r: Flex)
    ensures
        r.direction == direction,
        r.children == children,
        r.child_offsets@ == Seq::<u32>::empty(),
        r.padding == 0u32,
        r.width == Length::Auto,
        r.height == Length::Auto,
        r.layout_size == (UVec2 { x: 0u32, y: 0u32 }),
{
    Flex {
        direction,
        children,
        child_offsets: Vec::new(),
        padding: 0,
        width: Length::Auto,
        height: Length::Auto,
        layout_size: UVec2::zero(),
    }
}

impl Flex {
    /// Sets the padding applied on both ends of both axes.
    pub fn padding(self, padding: u32) -> (r: Self)
        ensures
            r == (Flex { padding, ..self }),
    {
        Flex { padding, ..self }
    }

    /// Sets the horizontal length policy.
    pub fn width(self, width: Length) -> (r: Self)
        ensures
            r == (Flex { width, ..self }),
    {
        Flex { width, ..self }
    }

    /// Sets the vertical length policy.
    pub fn height(self, height: Length) -> (r: Self)
        ensures
            r == (Flex { height, ..self }),
    {
        Flex { height, ..self }
    }
}

impl Widget for Flex {
    open spec fn model(&self) -> DynWidget {
        DynWidget::Flex(*self)
    }

    fn layout(&mut self, bounds: UVec2) -> (r: UVec2)
        decreases *old(self),
    {
        let ghost pre = *self;
        let ghost s = self.children@;
        proof {
            assert(spec_children_wf(s));
            assert(forall|j: int| 0 <= j < s.len() ==> spec_widget_wf(#[trigger] s[j]));
        }
        let padding_x2 = sat_mul_u32(2, self.padding);
        let ghost b0 = bounds.spec_sub(UVec2 { x: padding_x2, y: padding_x2 });
        let mut child_bounds = bounds.saturating_sub(UVec2::new(padding_x2, padding_x2));
        let mut total_main: u32 = 0;
        let mut max_cross: u32 = 0;
        self.child_offsets.clear();
        let n = self.children.len();
        let mut i: usize = 0;
        while i < n
            invariant
                s == old(self).children@,
                i <= n,
                n == s.len(),
                self.children@.len() == n,
                self.direction == pre.direction,
                self.padding == pre.padding,
                self.width == pre.width,
                self.height == pre.height,
                self.layout_size == pre.layout_size,
                forall|j: int| 0 <= j < n ==> spec_widget_wf(#[trigger] s[j]),
                forall|j: int| 0 <= j < i ==> spec_widget_wf(#[trigger] self.children@[j]),
                child_bounds == spec_flex_bounds(s, b0, pre.direction, i as int),
                total_main == spec_flex_offset(s, b0, pre.direction, i as int),
                max_cross == spec_flex_cross(s, b0, pre.direction, i as int),
                self.child_offsets@ =~= Seq::new(
                    i as nat,
                    |j: int| spec_flex_offset(s, b0, pre.direction, j),
                ),
                forall|j: int|
                    0 <= j < i ==> spec_layout_state(
                        s[j],
                        spec_flex_bounds(s, b0, pre.direction, j),
                        #[trigger] self.children@[j],
                    ),
                forall|j: int| i <= j < n ==> #[trigger] self.children@[j] == s[j],
            decreases n - i,
        {
            proof {
                assert(spec_widget_wf(s[i as int]));
                assert(s[i as int] == self.children@[i as int]);
                vstd::std_specs::vec::axiom_vec_decreases_to_view(old(self).children);
                vstd::seq::axiom_seq_index_decreases(old(self).children@, i as int);
            }
            let child = &mut self.children[i];
            let child_size = child.layout(child_bounds);
            self.child_offsets.push(total_main);
            match self.direction {
                FlexDirection::Row => {
                    child_bounds.x = if child_bounds.x < child_size.x {
                        0
                    } else {
                        child_bounds.x - child_size.x
                    };
                    if child_size.y > max_cross {
                        max_cross = child_size.y;
                    }
                    total_main = if total_main <= u32::MAX - child_size.x {
                        total_main + child_size.x
                    } else {
                        u32::MAX
                    };
                },
                FlexDirection::Column => {
                    child_bounds.y = if child_bounds.y < child_size.y {
                        0
                    } else {
                        child_bounds.y - child_size.y
                    };
                    if child_size.x > max_cross {
                        max_cross = child_size.x;
                    }
                    total_main = if total_main <= u32::MAX - child_size.y {
                        total_main + child_size.y
                    } else {
                        u32::MAX
                    };
                },
            }
            i += 1;
        }
        let layout_width;
        let layout_height;
        match self.direction {
            FlexDirection::Row => {
                layout_width = resolve_length(self.width, total_main, padding_x2, bounds.x);
                layout_height = resolve_length(self.height, max_cross, padding_x2, bounds.y);
            },
            FlexDirection::Column => {
                layout_width = resolve_length(self.width, max_cross, padding_x2, bounds.x);
                layout_height = resolve_length(self.height, total_main, padding_x2, bounds.y);
            },
        }
        self.layout_size = UVec2::new(layout_width, layout_height);
        proof {
            assert(self.layout_size == spec_layout_size(pre.model(), bounds));
            assert forall|j: int| 0 <= j < self.children@.len() implies spec_widget_wf(
                #[trigger] self.children@[j],
            ) by {
            }
            assert(spec_children_wf(self.children@));
        }
        self.layout_size
    }

    fn render(&self, pos: UVec2, cache: &mut GlyphCache, draw: &mut DrawHandle)
        decreases *self,
    {
        let ghost orig_cache = cache.contents();
        let ghost orig_bytes = draw.bytes_spec();
        let ghost bw = draw.width_spec();
        let ghost bh = draw.height_spec();
        let ghost s = self.children@;
        let n = if self.children.len() <= self.child_offsets.len() {
            self.children.len()
        } else {
            self.child_offsets.len()
        };
        let ghost offsets = Seq::new(
            n as nat,
            |i: int|
                match self.direction {
                    FlexDirection::Row => UVec2 { x: self.child_offsets@[i], y: 0u32 },
                    FlexDirection::Column => UVec2 { x: 0u32, y: self.child_offsets@[i] },
                },
        );
        let mut i: usize = 0;
        while i < n
            invariant
                i <= n,
                n <= self.children@.len(),
                n <= self.child_offsets@.len(),
                s == self.children@,
                offsets == Seq::new(
                    n as nat,
                    |k: int|
                        match self.direction {
                            FlexDirection::Row => UVec2 { x: self.child_offsets@[k], y: 0u32 },
                            FlexDirection::Column => UVec2 { x: 0u32, y: self.child_offsets@[k] },
                        },
                ),
                spec_widget_wf(DynWidget::Flex(*self)),
                cache.wf(),
                draw.surface_wf(),
                draw.width_spec() == bw,
                draw.height_spec() == bh,
                cache.contents() == spec_children_cache(s, i as int, orig_cache),
                draw.bytes_spec() == spec_children_bytes(
                    s,
                    offsets,
                    i as int,
                    pos,
                    orig_bytes,
                    orig_cache,
                    bw,
                    bh,
                ),
            decreases n - i,
        {
            let offset = match self.direction {
                FlexDirection::Row => UVec2::new(self.child_offsets[i], 0),
                FlexDirection::Column => UVec2::new(0, self.child_offsets[i]),
            };
            proof {
                assert(offset == offsets[i as int]);
                assert(spec_children_wf(s));
                assert(spec_widget_wf(s[i as int]));
            }
            let child = &self.children[i];
            child.render(pos.saturating_add(offset), cache, draw);
            i += 1;
        }
    }

    fn into_dyn(self) -> (r: DynWidget) {
        DynWidget::Flex(self)
    }
}

} // verus!
