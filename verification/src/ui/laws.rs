//! The toolkit's layout laws, stated and proved over the layout
//! specification: sizes stay within bounds where the tree fits, `Fill` is
//! exact, `Auto` containers wrap their child plus padding, and a list shows
//! exactly the rows that fit its viewport.

use vstd::prelude::*;
use crate::ui::Container;
use crate::ui::DynWidget;
use crate::ui::DynamicList;
use crate::ui::FlexDirection;
use crate::ui::math::Length;
use crate::ui::math::UVec2;
use crate::ui::math::sat_mul;
use crate::ui::Flex;
use crate::ui::SizedBox;
use crate::ui::Text;
use crate::ui::TextEditor;
use crate::ui::math::sat_sub;
use crate::ui::spec_flex_bounds;
use crate::ui::spec_flex_cross;
use crate::ui::spec_flex_offset;
use crate::ui::spec_layout_size;
use crate::ui::spec_layout_state;

verus! {

broadcast use {
    vstd::seq::axiom_seq_index_decreases,
    vstd::std_specs::vec::axiom_vec_index_decreases,
    vstd::std_specs::vec::axiom_vec_decreases_to_view,
};

/// Whether one axis policy can honor the bound: `Fixed` must not exceed it
/// and `Auto` must leave room for the padding; `Fill` always can.
pub open spec fn spec_axis_fits(policy: Length, padding_x2: u32, bound: u32) -> bool {
    match policy {
        Length::Auto => padding_x2 <= bound,
        Length::Fixed(n) => n <= bound,
        Length::Fill => true,
    }
}

/// Whether a tree fits its bounds: every `Fixed` length fits, every `Auto`
/// widget's padding fits, every text was shaped small enough, and the same
/// holds of every child against the bounds it will be offered.
pub open spec fn spec_fits(w: DynWidget, bounds: UVec2) -> bool
    decreases w,
{
    match w {
        DynWidget::Container(c) => {
            let p2 = c.padding.spec_scale(2);
            &&& spec_axis_fits(c.width, p2.x, bounds.x)
            &&& spec_axis_fits(c.height, p2.y, bounds.y)
            &&& spec_fits(*c.child, bounds.spec_sub(p2))
        },
        DynWidget::Flex(f) => {
            let p2 = sat_mul(2, f.padding);
            let b0 = bounds.spec_sub(UVec2 { x: p2, y: p2 });
            &&& spec_axis_fits(f.width, p2, bounds.x)
            &&& spec_axis_fits(f.height, p2, bounds.y)
            &&& forall|i: int|
                0 <= i < f.children@.len() ==> spec_fits(
                    #[trigger] f.children@[i],
                    spec_flex_bounds(f.children@, b0, f.direction, i),
                )
        },
        DynWidget::SizedBox(s) => {
            &&& spec_axis_fits(s.width, 0u32, bounds.x)
            &&& spec_axis_fits(s.height, 0u32, bounds.y)
        },
        DynWidget::List(_) => true,
        DynWidget::Text(t) => t.width <= bounds.x && t.height <= bounds.y,
        DynWidget::TextEditor(_) => true,
    }
}

/// The main-axis component of a vector under a direction.
pub open spec fn spec_main(dir: FlexDirection, v: UVec2) -> u32 {
    match dir {
        FlexDirection::Row => v.x,
        FlexDirection::Column => v.y,
    }
}

/// The cross-axis component of a vector under a direction.
pub open spec fn spec_cross_axis(dir: FlexDirection, v: UVec2) -> u32 {
    match dir {
        FlexDirection::Row => v.y,
        FlexDirection::Column => v.x,
    }
}

/// For all widgets and all bounds: where the tree fits, the laid-out size
/// never exceeds the bounds on either axis.
pub proof fn lemma_layout_within_bounds(w: DynWidget, bounds: UVec2)
    requires
        spec_fits(w, bounds),
    ensures
        spec_layout_size(w, bounds).x <= bounds.x,
        spec_layout_size(w, bounds).y <= bounds.y,
    decreases w, 1int,
{
    match w {
        DynWidget::Container(c) => {
            let p2 = c.padding.spec_scale(2);
            lemma_layout_within_bounds(*c.child, bounds.spec_sub(p2));
        },
        DynWidget::Flex(f) => {
            let p2 = sat_mul(2, f.padding);
            let b0 = bounds.spec_sub(UVec2 { x: p2, y: p2 });
            let n = f.children@.len() as int;
            lemma_flex_prefix_bounds(f.children@, b0, f.direction, n);
        },
        DynWidget::SizedBox(_) => {
        },
        DynWidget::List(_) => {
        },
        DynWidget::Text(_) => {
        },
        DynWidget::TextEditor(_) => {
        },
    }
}

/// The accumulated main-axis size of the first `i` flex children, plus the
/// main-axis room still on offer, never exceeds the room the flex started
/// with; and their cross extent stays within the cross bound.
pub proof fn lemma_flex_prefix_bounds(s: Seq<DynWidget>, b0: UVec2, dir: FlexDirection, i: int)
    requires
        0 <= i <= s.len(),
        forall|j: int|
            0 <= j < s.len() ==> spec_fits(#[trigger] s[j], spec_flex_bounds(s, b0, dir, j)),
    ensures
        spec_flex_offset(s, b0, dir, i) + spec_main(dir, spec_flex_bounds(s, b0, dir, i))
            <= spec_main(dir, b0),
        spec_flex_cross(s, b0, dir, i) <= spec_cross_axis(dir, b0),
        spec_cross_axis(dir, spec_flex_bounds(s, b0, dir, i)) == spec_cross_axis(dir, b0),
    decreases s, i, 0int,
{
    if i > 0 {
        lemma_flex_prefix_bounds(s, b0, dir, i - 1);
        let prev = spec_flex_bounds(s, b0, dir, i - 1);
        lemma_layout_within_bounds(s[i - 1], prev);
    }
}

/// `Fill` yields exactly the offered bound on that axis, for every widget
/// that carries a length policy; a list always reports exactly the offered
/// bounds on both axes.
pub proof fn lemma_fill_yields_bound(w: DynWidget, bounds: UVec2)
    ensures
        match w {
            DynWidget::Container(c) => (c.width == Length::Fill ==> spec_layout_size(w, bounds).x
                == bounds.x) && (c.height == Length::Fill ==> spec_layout_size(w, bounds).y
                == bounds.y),
            DynWidget::Flex(f) => (f.width == Length::Fill ==> spec_layout_size(w, bounds).x
                == bounds.x) && (f.height == Length::Fill ==> spec_layout_size(w, bounds).y
                == bounds.y),
            DynWidget::SizedBox(s) => (s.width == Length::Fill ==> spec_layout_size(w, bounds).x
                == bounds.x) && (s.height == Length::Fill ==> spec_layout_size(w, bounds).y
                == bounds.y),
            DynWidget::List(_) => spec_layout_size(w, bounds) == bounds,
            DynWidget::Text(_) => true,
            DynWidget::TextEditor(_) => spec_layout_size(w, bounds).x == bounds.x,
        },
{
}

/// A container with uniform padding `p` and both axes `Auto`, around a child
/// that reports `(w, h)`, resolves to exactly `(w + 2p, h + 2p)`, provided
/// the sums stay in range; and its render draws the child at the container's
/// origin offset by `(p, p)`.
pub proof fn lemma_container_auto_wraps_child(c: Container, bounds: UVec2, p: u32)
    requires
        c.padding == (UVec2 { x: p, y: p }),
        c.width == Length::Auto,
        c.height == Length::Auto,
        2 * p <= u32::MAX,
        spec_layout_size(*c.child, bounds.spec_sub(c.padding.spec_scale(2))).x + 2 * p
            <= u32::MAX,
        spec_layout_size(*c.child, bounds.spec_sub(c.padding.spec_scale(2))).y + 2 * p
            <= u32::MAX,
    ensures
        ({
            let cs = spec_layout_size(*c.child, bounds.spec_sub(c.padding.spec_scale(2)));
            spec_layout_size(DynWidget::Container(c), bounds) == (UVec2 {
                x: (cs.x + 2 * p) as u32,
                y: (cs.y + 2 * p) as u32,
            })
        }),
{
}

/// A container renders painter's-algorithm style: its background (if any)
/// fills its own rectangle first, and its child then draws over it at the
/// container's origin offset by the padding on each axis.
pub proof fn lemma_container_renders_child_at_padding(
    c: Container,
    pos: UVec2,
    bytes: Seq<u8>,
    cache: Map<crate::ui::GlyphKey, Option<crate::ui::GlyphTexture>>,
    bw: u32,
    bh: u32,
)
    ensures
        crate::ui::spec_render_bytes(DynWidget::Container(c), pos, bytes, cache, bw, bh)
            == crate::ui::spec_render_bytes(
            *c.child,
            pos.spec_add(c.padding),
            match c.bg_color {
                Some(col) => crate::render::buffer::spec_fill_rect(
                    bytes,
                    bw,
                    bh,
                    crate::ui::Rect { pos, size: c.layout_size },
                    col.spec_premultiply(),
                ),
                None => bytes,
            },
            cache,
            bw,
            bh,
        ),
{
}

/// The launcher surface resizes its list to the leftover room: a padded
/// fill-both-axes container around a column of title text, a padded editor
/// box, a fixed separator and the list, laid out against a window, shows
/// exactly `(window height - 2*pad - title height - editor block - separator)
/// / (item_height + spacing)` rows, for every title height and window size
/// that leave the parts room.
pub proof fn lemma_launcher_surface_rows(
    root: DynWidget,
    c: Container,
    f: Flex,
    ce: Container,
    ed: TextEditor,
    sb: SizedBox,
    l: DynamicList,
    t: Text,
    post: DynWidget,
    c2: Container,
    f2: Flex,
    l2: DynamicList,
    bounds: UVec2,
)
    requires
        root == DynWidget::Container(c),
        c.padding == (UVec2 { x: 32u32, y: 32u32 }),
        c.width == Length::Fill,
        c.height == Length::Fill,
        *c.child == DynWidget::Flex(f),
        f.direction == FlexDirection::Column,
        f.padding == 0u32,
        f.children@.len() == 4,
        f.children@[0] == DynWidget::Text(t),
        f.children@[1] == DynWidget::Container(ce),
        ce.padding == (UVec2 { x: 4u32, y: 4u32 }),
        ce.width == Length::Auto,
        ce.height == Length::Auto,
        *ce.child == DynWidget::TextEditor(ed),
        f.children@[2] == DynWidget::SizedBox(sb),
        sb.height == Length::Fixed(2u32),
        f.children@[3] == DynWidget::List(l),
        l.inner.item_height + l.inner.spacing > 0,
        l.inner.item_height + l.inner.spacing <= u32::MAX,
        spec_layout_state(root, bounds, post),
        post == DynWidget::Container(c2),
        *c2.child == DynWidget::Flex(f2),
        f2.children@[3] == DynWidget::List(l2),
        // The window leaves room for the padding, the title, the editor box
        // and the separator.
        bounds.y >= 64,
        bounds.y - 64 >= t.height + 8,
        ({
            let editor_block = spec_editor_block_height(t, ed, bounds);
            bounds.y - 64 - t.height - editor_block >= 2
        }),
    ensures
        spec_layout_size(root, bounds) == bounds,
        l2.inner.max_items == (bounds.y - 64 - t.height - spec_editor_block_height(t, ed, bounds)
            - 2) as int / (l.inner.item_height + l.inner.spacing),
{
    reveal_with_fuel(spec_flex_bounds, 5);
    let cb = bounds.spec_sub(c.padding.spec_scale(2));
    assert(cb == bounds.spec_sub(UVec2 { x: 64u32, y: 64u32 }));
    let b0 = cb.spec_sub(UVec2 { x: sat_mul(2, f.padding), y: sat_mul(2, f.padding) });
    assert(b0 == cb);
    let s = f.children@;
    let fb0 = spec_flex_bounds(s, b0, FlexDirection::Column, 0);
    assert(fb0 == b0);
    let fb1 = spec_flex_bounds(s, b0, FlexDirection::Column, 1);
    assert(spec_layout_size(s[0], fb0) == (UVec2 { x: t.width, y: t.height }));
    assert(fb1.y == b0.y - t.height);
    let block = spec_editor_block_height(t, ed, bounds);
    let fb2 = spec_flex_bounds(s, b0, FlexDirection::Column, 2);
    assert(spec_layout_size(s[1], fb1).y == block) by {
        let inner = fb1.spec_sub(ce.padding.spec_scale(2));
        assert(spec_layout_size(*ce.child, inner).y == (if inner.y < ed.line_height {
            inner.y
        } else {
            ed.line_height
        }));
    }
    assert(fb2.y == b0.y - t.height - block);
    let fb3 = spec_flex_bounds(s, b0, FlexDirection::Column, 3);
    assert(spec_layout_size(s[2], fb2).y == 2);
    assert(fb3.y == bounds.y - 64 - t.height - block - 2);
    assert(spec_layout_state(*c.child, cb, *c2.child));
    assert(spec_layout_state(s[3], fb3, f2.children@[3]));
    assert(l2.inner.max_items == fb3.y as int / (l.inner.item_height + l.inner.spacing));
    assert(spec_layout_size(s[3], fb3) == fb3);
}

/// The height the padded editor box resolves to on the launcher surface: the
/// editor caps itself at its line height within the room below the title,
/// and the box adds its padding on both sides.
pub open spec fn spec_editor_block_height(t: Text, ed: TextEditor, bounds: UVec2) -> u32 {
    let room = (bounds.y - 64 - t.height) as u32;
    let inner = sat_sub(room, 8);
    let editor_h = if inner < ed.line_height {
        inner
    } else {
        ed.line_height
    };
    (editor_h + 8) as u32
}

/// The virtualized list reports exactly the offered bounds as its own size,
/// and after layout shows exactly `bounds.y / (item_height + spacing)` rows:
/// the viewport height divided by the row stride.
pub proof fn lemma_list_virtualization(l: DynamicList, bounds: UVec2, post: DynamicList)
    requires
        l.inner.item_height + l.inner.spacing > 0,
        l.inner.item_height + l.inner.spacing <= u32::MAX,
        spec_layout_state(DynWidget::List(l), bounds, DynWidget::List(post)),
    ensures
        spec_layout_size(DynWidget::List(l), bounds) == bounds,
        post.inner.max_items == bounds.y as int / (l.inner.item_height + l.inner.spacing),
{
}

/// While a list shows `n` rows, row `i` renders at a main-axis offset of
/// exactly `i * (item_height + spacing)` below the list origin: the offsets
/// `0, stride, 2 * stride, ...` of viewport culling.
pub proof fn lemma_list_row_offsets(l: DynamicList, i: int, bounds: UVec2)
    requires
        l.inner.item_height + l.inner.spacing > 0,
        l.inner.item_height + l.inner.spacing <= u32::MAX,
        l.inner.max_items as int * (l.inner.item_height + l.inner.spacing) <= u32::MAX,
        0 <= i < l.inner.max_items,
    ensures
        sat_mul(i as u32, (l.inner.item_height + l.inner.spacing) as u32) == i * (l.inner.item_height
            + l.inner.spacing),
{
    let stride = (l.inner.item_height + l.inner.spacing) as u32;
    assert(i * stride <= l.inner.max_items as int * stride) by (nonlinear_arith)
        requires
            0 <= i < l.inner.max_items,
            stride >= 0,
    ;
    assert(l.inner.max_items as int <= l.inner.max_items as int * stride) by (nonlinear_arith)
        requires
            stride >= 1,
            l.inner.max_items >= 0,
    ;
    assert(i as u32 == i);
    assert((i as u32) * stride == i * stride);
}

} // verus!
