//! The widget toolkit: geometry, color, and the widget tree.
//!
//! A widget is laid out with `layout(bounds)`, which computes and caches its
//! own size and its children's placements, and drawn with
//! `render(pos, cache, draw)`, which composites it at an absolute position
//! using the sizes from the most recent layout. The widget set is a closed
//! tagged union, [`DynWidget`], so layout and rendering are total functions
//! of the tree; the glyph cache and the drawing surface are explicit context
//! objects rather than ambient globals.

pub mod color;
pub mod container;
pub mod editor;
pub mod flex;
pub mod laws;
pub mod list;
pub mod math;
pub mod sized_box;
pub mod text;

pub use color::Color;
pub use color::ColorParseError;
pub use color::scale_u8;
pub use container::Container;
pub use container::container;
pub use editor::EditAction;
pub use editor::Editor;
pub use editor::Key;
pub use editor::TextEditor;
pub use flex::Flex;
pub use flex::FlexDirection;
pub use list::DynamicList;
pub use list::List;
pub use math::Length;
pub use math::Rect;
pub use math::UVec2;
pub use sized_box::SizedBox;
pub use text::GlyphCache;
pub use text::GlyphKey;
pub use text::GlyphTexture;
pub use text::Text;

use vstd::prelude::*;
use crate::render::DrawHandle;
use crate::render::buffer::spec_fill_rect;
use crate::ui::math::sat_add;
use crate::ui::math::sat_mul;
use crate::ui::math::sat_sub;
use crate::ui::math::spec_resolve_length;
use crate::ui::text::spec_text_bytes;
use crate::ui::text::spec_text_cache;

verus! {

broadcast use {
    vstd::seq::axiom_seq_index_decreases,
    vstd::seq::axiom_seq_subrange_decreases,
    vstd::std_specs::vec::axiom_vec_index_decreases,
    vstd::std_specs::vec::axiom_vec_decreases_to_view,
};

/// A graphical user interface component that can be laid out and rendered.
pub trait Widget: Sized {
    /// The widget as a node of the closed widget union, the value the layout
    /// and render specifications speak about.
    spec fn model(&self) -> DynWidget;

    /// Lays the widget and its children out (recursively) against the given
    /// maximum available size and returns the size the widget takes up. The
    /// returned size does not exceed the bounds unless a `Fixed` length or
    /// the shaped size of a text demands it; content then overflows visually.
    fn layout(&mut self, bounds: UVec2) -> (r: UVec2)
        requires
            spec_widget_wf(old(self).model()),
        ensures
            r == spec_layout_size(old(self).model(), bounds),
            spec_layout_state(old(self).model(), bounds, final(self).model()),
            spec_widget_wf(final(self).model()),
    ;

    /// Renders the widget and its children (recursively) at the given
    /// absolute position, using the sizes computed by the most recent layout.
    /// Rendering composites into the surface and fills the glyph cache; it
    /// never mutates layout state.
    fn render(&self, pos: UVec2, cache: &mut GlyphCache, draw: &mut DrawHandle)
        requires
            spec_widget_wf(self.model()),
            old(cache).wf(),
            old(draw).surface_wf(),
        ensures
            final(cache).wf(),
            final(cache).contents() == spec_render_cache(self.model(), old(cache).contents()),
            final(draw).surface_wf(),
            final(draw).width_spec() == old(draw).width_spec(),
            final(draw).height_spec() == old(draw).height_spec(),
            final(draw).bytes_spec() == spec_render_bytes(
                self.model(),
                pos,
                old(draw).bytes_spec(),
                old(cache).contents(),
                old(draw).width_spec(),
                old(draw).height_spec(),
            ),
    ;

    /// Converts the widget into a [`DynWidget`] node.
    fn into_dyn(self) -> (r: DynWidget)
        ensures
            r == self.model(),
    ;
}

/// The closed union of widgets. Every tree node is one of these; layout and
/// rendering recurse over this enum.
pub enum DynWidget {
    Container(Container),
    Flex(Flex),
    SizedBox(SizedBox),
    List(DynamicList),
    Text(Text),
    TextEditor(TextEditor),
}

/// The well-formedness every tree operation relies on: lists have a positive
/// row stride, texts carry well-formed glyphs, and the same holds of every
/// child.
pub open spec fn spec_widget_wf(w: DynWidget) -> bool
    decreases w,
{
    match w {
        DynWidget::Container(c) => spec_widget_wf(*c.child),
        DynWidget::Flex(f) => spec_children_wf(f.children@),
        DynWidget::SizedBox(_) => true,
        DynWidget::List(l) => {
            &&& l.inner.item_height + l.inner.spacing > 0
            &&& l.inner.item_height + l.inner.spacing <= u32::MAX
            &&& spec_children_wf(l.inner.items@)
        },
        DynWidget::Text(t) => t.wf(),
        DynWidget::TextEditor(e) => e.display.wf(),
    }
}

/// Every widget of the sequence is well-formed.
pub open spec fn spec_children_wf(s: Seq<DynWidget>) -> bool
    decreases s,
{
    forall|i: int| 0 <= i < s.len() ==> spec_widget_wf(#[trigger] s[i])
}

/// The size a widget reports for the given bounds, per the layout rules of
/// its kind.
pub open spec fn spec_layout_size(w: DynWidget, bounds: UVec2) -> UVec2
    decreases w,
{
    match w {
        DynWidget::Container(c) => {
            let p2 = c.padding.spec_scale(2);
            let cs = spec_layout_size(*c.child, bounds.spec_sub(p2));
            UVec2 {
                x: spec_resolve_length(c.width, cs.x, p2.x, bounds.x),
                y: spec_resolve_length(c.height, cs.y, p2.y, bounds.y),
            }
        },
        DynWidget::Flex(f) => {
            let p2 = sat_mul(2, f.padding);
            let b0 = bounds.spec_sub(UVec2 { x: p2, y: p2 });
            let n = f.children@.len() as int;
            let main = spec_flex_offset(f.children@, b0, f.direction, n);
            let cross = spec_flex_cross(f.children@, b0, f.direction, n);
            match f.direction {
                FlexDirection::Row => UVec2 {
                    x: spec_resolve_length(f.width, main, p2, bounds.x),
                    y: spec_resolve_length(f.height, cross, p2, bounds.y),
                },
                FlexDirection::Column => UVec2 {
                    x: spec_resolve_length(f.width, cross, p2, bounds.x),
                    y: spec_resolve_length(f.height, main, p2, bounds.y),
                },
            }
        },
        DynWidget::SizedBox(s) => UVec2 {
            x: spec_resolve_length(s.width, 0u32, 0u32, bounds.x),
            y: spec_resolve_length(s.height, 0u32, 0u32, bounds.y),
        },
        DynWidget::List(_) => bounds,
        DynWidget::Text(t) => UVec2 { x: t.width, y: t.height },
        DynWidget::TextEditor(e) => UVec2 {
            x: bounds.x,
            y: if bounds.y < e.line_height {
                bounds.y
            } else {
                e.line_height
            },
        },
    }
}

/// The bounds the flex child at position `i` is laid out against: the cross
/// axis stays, the main axis is what the children before it left over
/// (saturating at zero).
pub open spec fn spec_flex_bounds(s: Seq<DynWidget>, b0: UVec2, dir: FlexDirection, i: int) -> UVec2
    decreases s, i, 1int,
{
    if i <= 0 || i > s.len() {
        b0
    } else {
        let prev = spec_flex_bounds(s, b0, dir, i - 1);
        let size = spec_layout_size(s[i - 1], prev);
        match dir {
            FlexDirection::Row => UVec2 { x: sat_sub(prev.x, size.x), y: prev.y },
            FlexDirection::Column => UVec2 { x: prev.x, y: sat_sub(prev.y, size.y) },
        }
    }
}

/// The main-axis offset of the flex child at position `i`: the saturating sum
/// of the main-axis sizes of the children before it. At `i == len` this is
/// the accumulated main-axis content size.
pub open spec fn spec_flex_offset(s: Seq<DynWidget>, b0: UVec2, dir: FlexDirection, i: int) -> u32
    decreases s, i, 2int,
{
    if i <= 0 || i > s.len() {
        0u32
    } else {
        let prev = spec_flex_offset(s, b0, dir, i - 1);
        let size = spec_layout_size(s[i - 1], spec_flex_bounds(s, b0, dir, i - 1));
        match dir {
            FlexDirection::Row => sat_add(prev, size.x),
            FlexDirection::Column => sat_add(prev, size.y),
        }
    }
}

/// The cross-axis extent of the first `i` flex children: the maximum of
/// their cross-axis sizes.
pub open spec fn spec_flex_cross(s: Seq<DynWidget>, b0: UVec2, dir: FlexDirection, i: int) -> u32
    decreases s, i, 2int,
{
    if i <= 0 || i > s.len() {
        0u32
    } else {
        let prev = spec_flex_cross(s, b0, dir, i - 1);
        let size = spec_layout_size(s[i - 1], spec_flex_bounds(s, b0, dir, i - 1));
        let c = match dir {
            FlexDirection::Row => size.y,
            FlexDirection::Column => size.x,
        };
        if prev >= c {
            prev
        } else {
            c
        }
    }
}

/// How one layout call transforms a widget: children are laid out against
/// their own bounds, placements and the widget's own size are cached, and
/// everything else is untouched.
pub open spec fn spec_layout_state(pre: DynWidget, bounds: UVec2, post: DynWidget) -> bool
    decreases pre,
{
    match (pre, post) {
        (DynWidget::Container(c), DynWidget::Container(c2)) => {
            let p2 = c.padding.spec_scale(2);
            let cb = bounds.spec_sub(p2);
            &&& c2.bg_color == c.bg_color
            &&& c2.padding == c.padding
            &&& c2.width == c.width
            &&& c2.height == c.height
            &&& spec_layout_state(*c.child, cb, *c2.child)
            &&& c2.layout_size == spec_layout_size(pre, bounds)
        },
        (DynWidget::Flex(f), DynWidget::Flex(f2)) => {
            let p2 = sat_mul(2, f.padding);
            let b0 = bounds.spec_sub(UVec2 { x: p2, y: p2 });
            let n = f.children@.len() as int;
            &&& f2.direction == f.direction
            &&& f2.padding == f.padding
            &&& f2.width == f.width
            &&& f2.height == f.height
            &&& f2.children@.len() == n
            &&& forall|i: int|
                0 <= i < n ==> spec_layout_state(
                    f.children@[i],
                    spec_flex_bounds(f.children@, b0, f.direction, i),
                    #[trigger] f2.children@[i],
                )
            &&& f2.child_offsets@ == Seq::new(
                n as nat,
                |i: int| spec_flex_offset(f.children@, b0, f.direction, i),
            )
            &&& f2.layout_size == spec_layout_size(pre, bounds)
        },
        (DynWidget::SizedBox(s), DynWidget::SizedBox(s2)) => {
            &&& s2.color == s.color
            &&& s2.width == s.width
            &&& s2.height == s.height
            &&& s2.layout_size == spec_layout_size(pre, bounds)
        },
        (DynWidget::List(l), DynWidget::List(l2)) => {
            let stride = (l.inner.item_height + l.inner.spacing) as u32;
            let new_max = (bounds.y / stride) as usize;
            let relayout = bounds.x != l.inner.item_width || new_max > l.inner.max_items;
            let item_bounds = UVec2 { x: bounds.x, y: l.inner.item_height };
            &&& l2.inner.item_height == l.inner.item_height
            &&& l2.inner.spacing == l.inner.spacing
            &&& l2.inner.item_width == bounds.x
            &&& l2.inner.max_items == new_max
            &&& l2.inner.items@.len() == l.inner.items@.len()
            &&& forall|i: int|
                0 <= i < l.inner.items@.len() ==> if relayout && i < new_max {
                    spec_layout_state(l.inner.items@[i], item_bounds, #[trigger] l2.inner.items@[i])
                } else {
                    l2.inner.items@[i] == l.inner.items@[i]
                }
        },
        (DynWidget::Text(t), DynWidget::Text(t2)) => t2 == t,
        (DynWidget::TextEditor(e), DynWidget::TextEditor(e2)) => {
            &&& e2.editor == e.editor
            &&& e2.display == e.display
            &&& e2.cursor == e.cursor
            &&& e2.cursor_color == e.cursor_color
            &&& e2.line_height == e.line_height
            &&& e2.width == bounds.x
            &&& e2.height == spec_layout_size(pre, bounds).y
        },
        _ => false,
    }
}

/// The glyph cache after a widget renders: every text in the tree caches its
/// glyphs in draw order; nothing else touches the cache.
pub open spec fn spec_render_cache(
    w: DynWidget,
    cache: Map<GlyphKey, Option<GlyphTexture>>,
) -> Map<GlyphKey, Option<GlyphTexture>>
    decreases w,
{
    match w {
        DynWidget::Container(c) => spec_render_cache(*c.child, cache),
        DynWidget::Flex(f) => {
            let n = if f.children@.len() <= f.child_offsets@.len() {
                f.children@.len() as int
            } else {
                f.child_offsets@.len() as int
            };
            spec_children_cache(f.children@, n, cache)
        },
        DynWidget::SizedBox(_) => cache,
        DynWidget::List(l) => {
            let n = if l.inner.items@.len() <= l.inner.max_items {
                l.inner.items@.len() as int
            } else {
                l.inner.max_items as int
            };
            spec_children_cache(l.inner.items@, n, cache)
        },
        DynWidget::Text(t) => spec_text_cache(t.glyphs@, cache),
        DynWidget::TextEditor(e) => if e.editor.redraw {
            spec_text_cache(e.display.glyphs@, cache)
        } else {
            cache
        },
    }
}

/// The glyph cache after the first `n` widgets of a sequence render in
/// order.
pub open spec fn spec_children_cache(
    s: Seq<DynWidget>,
    n: int,
    cache: Map<GlyphKey, Option<GlyphTexture>>,
) -> Map<GlyphKey, Option<GlyphTexture>>
    decreases s, n,
{
    if n <= 0 || n > s.len() {
        cache
    } else {
        spec_render_cache(s[n - 1], spec_children_cache(s, n - 1, cache))
    }
}

/// The surface bytes after a widget renders at `pos`: backgrounds fill
/// first, then children in order, each at its recorded placement; texts draw
/// their glyphs against the cache as it evolves.
pub open spec fn spec_render_bytes(
    w: DynWidget,
    pos: UVec2,
    bytes: Seq<u8>,
    cache: Map<GlyphKey, Option<GlyphTexture>>,
    bw: u32,
    bh: u32,
) -> Seq<u8>
    decreases w,
{
    match w {
        DynWidget::Container(c) => {
            let b1 = match c.bg_color {
                Some(col) => spec_fill_rect(
                    bytes,
                    bw,
                    bh,
                    Rect { pos, size: c.layout_size },
                    col.spec_premultiply(),
                ),
                None => bytes,
            };
            spec_render_bytes(*c.child, pos.spec_add(c.padding), b1, cache, bw, bh)
        },
        DynWidget::Flex(f) => {
            let n = if f.children@.len() <= f.child_offsets@.len() {
                f.children@.len() as int
            } else {
                f.child_offsets@.len() as int
            };
            let offsets = Seq::new(
                n as nat,
                |i: int|
                    match f.direction {
                        FlexDirection::Row => UVec2 { x: f.child_offsets@[i], y: 0u32 },
                        FlexDirection::Column => UVec2 { x: 0u32, y: f.child_offsets@[i] },
                    },
            );
            spec_children_bytes(f.children@, offsets, n, pos, bytes, cache, bw, bh)
        },
        DynWidget::SizedBox(s) => match s.color {
            Some(col) => spec_fill_rect(
                bytes,
                bw,
                bh,
                Rect { pos, size: s.layout_size },
                col.spec_premultiply(),
            ),
            None => bytes,
        },
        DynWidget::List(l) => {
            let n = if l.inner.items@.len() <= l.inner.max_items {
                l.inner.items@.len() as int
            } else {
                l.inner.max_items as int
            };
            let stride = (l.inner.item_height + l.inner.spacing) as u32;
            let offsets = Seq::new(
                n as nat,
                |i: int| UVec2 { x: 0u32, y: sat_mul(i as u32, stride) },
            );
            spec_children_bytes(l.inner.items@, offsets, n, pos, bytes, cache, bw, bh)
        },
        DynWidget::Text(t) => spec_text_bytes(t.glyphs@, pos, bytes, cache, bw, bh),
        DynWidget::TextEditor(e) => if e.editor.redraw {
            let b1 = spec_text_bytes(e.display.glyphs@, pos, bytes, cache, bw, bh);
            match e.cursor {
                Some(cur) => spec_fill_rect(
                    b1,
                    bw,
                    bh,
                    Rect { pos: pos.spec_add(cur.pos), size: cur.size },
                    e.cursor_color.spec_premultiply(),
                ),
                None => b1,
            }
        } else {
            bytes
        },
    }
}

/// The surface bytes after the first `n` widgets of a sequence render in
/// order, each offset from `pos` by its placement, against the cache as it
/// evolves.
pub open spec fn spec_children_bytes(
    s: Seq<DynWidget>,
    offsets: Seq<UVec2>,
    n: int,
    pos: UVec2,
    bytes: Seq<u8>,
    cache: Map<GlyphKey, Option<GlyphTexture>>,
    bw: u32,
    bh: u32,
) -> Seq<u8>
    decreases s, n,
{
    if n <= 0 || n > s.len() {
        bytes
    } else {
        let prev = spec_children_bytes(s, offsets, n - 1, pos, bytes, cache, bw, bh);
        let prev_cache = spec_children_cache(s, n - 1, cache);
        spec_render_bytes(s[n - 1], pos.spec_add(offsets[n - 1]), prev, prev_cache, bw, bh)
    }
}

impl DynWidget {
    /// Checks [`spec_widget_wf`] executably, for callers outside verified
    /// code that must test it before laying out or rendering.
    pub fn is_wf(&self) -> (r: bool)
        ensures
            r == spec_widget_wf(*self),
        decreases *self,
    {
        match self {
            DynWidget::Container(c) => c.child.is_wf(),
            DynWidget::Flex(f) => children_wf_check(&f.children),
            DynWidget::SizedBox(_) => true,
            DynWidget::List(l) => {
                let stride: u64 = (l.inner.item_height as u64) + (l.inner.spacing as u64);
                stride > 0 && stride <= u32::MAX as u64 && children_wf_check(&l.inner.items)
            },
            DynWidget::Text(t) => t.is_wf(),
            DynWidget::TextEditor(e) => e.display.is_wf(),
        }
    }
}

/// Checks [`spec_children_wf`] executably.
fn children_wf_check(s: &Vec<DynWidget>) -> (r: bool)
    ensures
        r == spec_children_wf(s@),
    decreases s@,
{
    let mut i: usize = 0;
    while i < s.len()
        invariant
            i <= s@.len(),
            forall|j: int| 0 <= j < i ==> spec_widget_wf(#[trigger] s@[j]),
        decreases s@.len() - i,
    {
        proof {
            vstd::std_specs::vec::axiom_vec_decreases_to_view(*s);
            vstd::seq::axiom_seq_index_decreases(s@, i as int);
        }
        if !s[i].is_wf() {
            return false;
        }
        i += 1;
    }
    true
}

impl Widget for DynWidget {
    open spec fn model(&self) -> DynWidget {
        *self
    }

    fn layout(&mut self, bounds: UVec2) -> (r: UVec2)
        decreases *old(self),
    {
        match self {
            DynWidget::Container(c) => c.layout(bounds),
            DynWidget::Flex(f) => f.layout(bounds),
            DynWidget::SizedBox(s) => s.layout(bounds),
            DynWidget::List(l) => l.layout(bounds),
            DynWidget::Text(t) => t.layout(bounds),
            DynWidget::TextEditor(e) => e.layout(bounds),
        }
    }

    fn render(&self, pos: UVec2, cache: &mut GlyphCache, draw: &mut DrawHandle)
        decreases *self,
    {
        match self {
            DynWidget::Container(c) => c.render(pos, cache, draw),
            DynWidget::Flex(f) => f.render(pos, cache, draw),
            DynWidget::SizedBox(s) => s.render(pos, cache, draw),
            DynWidget::List(l) => l.render(pos, cache, draw),
            DynWidget::Text(t) => t.render(pos, cache, draw),
            DynWidget::TextEditor(e) => e.render(pos, cache, draw),
        }
    }

    fn into_dyn(self) -> (r: DynWidget) {
        self
    }
}

} // verus!
