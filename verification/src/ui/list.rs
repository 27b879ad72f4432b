//! A virtualizing list: a replaceable collection of pre-built item widgets,
//! of which only the rows that fit the viewport are ever laid out or drawn.

use vstd::prelude::*;
use crate::render::DrawHandle;
use crate::ui::DynWidget;
use crate::ui::Widget;
use crate::ui::math::UVec2;
use crate::ui::math::sat_mul;
use crate::ui::math::sat_mul_u32;
use crate::ui::spec_children_bytes;
use crate::ui::spec_children_cache;
use crate::ui::spec_layout_state;
use crate::ui::spec_children_wf;
use crate::ui::spec_widget_wf;
use crate::ui::text::GlyphCache;

verus! {

broadcast use {
    vstd::seq::axiom_seq_index_decreases,
    vstd::std_specs::vec::axiom_vec_index_decreases,
    vstd::std_specs::vec::axiom_vec_decreases_to_view,
};

/// The items, row geometry and visible-row count of a virtualized list.
/// `max_items = bounds.y / (item_height + spacing)` rows fit the viewport;
/// rows beyond that are neither laid out nor rendered, and already-valid
/// rows are not re-laid-out unless the width changed or more rows came into
/// view. The row stride `item_height + spacing` must be positive.
pub struct List {
    pub items: Vec<DynWidget>,
    pub spacing: u32,
    pub item_height: u32,
    pub item_width: u32,
    pub max_items: usize,
}

impl List {
    pub fn new(item_height: u32, spacing: u32) -> (r: Self)
        ensures
            r.items@ == Seq::<DynWidget>::empty(),
            r.spacing == spacing,
            r.item_height == item_height,
            r.item_width == 0u32,
            r.max_items == 0usize,
    {
        List { items: Vec::new(), spacing, item_height, item_width: 0, max_items: 0 }
    }

    /// Lays out the first `max_items` items against the current row bounds.
    fn relayout_items(&mut self)
        requires
            spec_widget_wf(DynWidget::List(DynamicList { inner: *old(self) })),
        ensures
            final(self).spacing == old(self).spacing,
            final(self).item_height == old(self).item_height,
            final(self).item_width == old(self).item_width,
            final(self).max_items == old(self).max_items,
            final(self).items@.len() == old(self).items@.len(),
            forall|i: int|
                0 <= i < old(self).items@.len() ==> if i < old(self).max_items {
                    spec_layout_state(
                        old(self).items@[i],
                        UVec2 { x: old(self).item_width, y: old(self).item_height },
                        #[trigger] final(self).items@[i],
                    )
                } else {
                    final(self).items@[i] == old(self).items@[i]
                },
            spec_widget_wf(DynWidget::List(DynamicList { inner: *final(self) })),
        decreases old(self).items@, 0int,
    {
        let ghost s = self.items@;
        let ghost pre = *self;
        proof {
            assert(spec_widget_wf(DynWidget::List(DynamicList { inner: *old(self) })));
            assert(spec_children_wf(old(self).items@));
            assert(forall|j: int| 0 <= j < s.len() ==> spec_widget_wf(#[trigger] s[j]));
        }
        let item_bounds = UVec2::new(self.item_width, self.item_height);
        let count = if self.max_items <= self.items.len() {
            self.max_items
        } else {
            self.items.len()
        };
        let mut i: usize = 0;
        while i < count
            invariant
                s == old(self).items@,
                i <= count,
                count <= s.len(),
                count <= pre.max_items,
                pre.max_items <= count || s.len() <= pre.max_items,
                self.items@.len() == s.len(),
                self.spacing == pre.spacing,
                self.item_height == pre.item_height,
                self.item_width == pre.item_width,
                self.max_items == pre.max_items,
                item_bounds == (UVec2 { x: pre.item_width, y: pre.item_height }),
                forall|j: int| 0 <= j < s.len() ==> spec_widget_wf(#[trigger] s[j]),
                forall|j: int| 0 <= j < i ==> spec_widget_wf(#[trigger] self.items@[j]),
                forall|j: int|
                    0 <= j < i ==> spec_layout_state(
                        s[j],
                        UVec2 { x: pre.item_width, y: pre.item_height },
                        #[trigger] self.items@[j],
                    ),
                forall|j: int| i <= j < s.len() ==> #[trigger] self.items@[j] == s[j],
            decreases count - i,
        {
            proof {
                assert(spec_widget_wf(s[i as int]));
                assert(s[i as int] == self.items@[i as int]);
                vstd::std_specs::vec::axiom_vec_decreases_to_view(old(self).items);
                vstd::seq::axiom_seq_index_decreases(old(self).items@, i as int);
            }
            let item = &mut self.items[i];
            item.layout(item_bounds);
            i += 1;
        }
        proof {
            assert forall|j: int| 0 <= j < self.items@.len() implies spec_widget_wf(
                #[trigger] self.items@[j],
            ) by {
                if j >= i {
                    assert(self.items@[j] == s[j]);
                    assert(spec_widget_wf(s[j]));
                }
            }
            assert(spec_children_wf(self.items@));
        }
    }
}

/// The list widget of the tree: a [`List`] plus the layout memoization that
/// re-lays rows out only when the width changed, more rows came into view,
/// or the content was just replaced.
pub struct DynamicList {
    pub inner: List,
}

impl DynamicList {
    pub fn new(item_height: u32, spacing: u32) -> (r: Self)
        ensures
            r.inner.items@ == Seq::<DynWidget>::empty(),
            r.inner.spacing == spacing,
            r.inner.item_height == item_height,
            r.inner.item_width == 0u32,
            r.inner.max_items == 0usize,
    {
        DynamicList { inner: List::new(item_height, spacing) }
    }

    /// How many rows fit the viewport, per the most recent layout.
    pub fn max_items(&self) -> (r: usize)
        ensures
            r == self.inner.max_items,
    {
        self.inner.max_items
    }

    /// Replaces the whole item collection and lays out the rows in view.
    pub fn update(&mut self, new_items: Vec<DynWidget>)
        requires
            old(self).inner.item_height + old(self).inner.spacing > 0,
            old(self).inner.item_height + old(self).inner.spacing <= u32::MAX,
            forall|i: int| 0 <= i < new_items@.len() ==> spec_widget_wf(#[trigger] new_items@[i]),
        ensures
            final(self).inner.spacing == old(self).inner.spacing,
            final(self).inner.item_height == old(self).inner.item_height,
            final(self).inner.item_width == old(self).inner.item_width,
            final(self).inner.max_items == old(self).inner.max_items,
            final(self).inner.items@.len() == new_items@.len(),
            forall|i: int|
                0 <= i < new_items@.len() ==> if i < old(self).inner.max_items {
                    spec_layout_state(
                        new_items@[i],
                        UVec2 { x: old(self).inner.item_width, y: old(self).inner.item_height },
                        #[trigger] final(self).inner.items@[i],
                    )
                } else {
                    final(self).inner.items@[i] == new_items@[i]
                },
            spec_widget_wf(DynWidget::List(*final(self))),
    {
        self.inner.items = new_items;
        proof {
            assert forall|j: int| 0 <= j < self.inner.items@.len() implies spec_widget_wf(
                #[trigger] self.inner.items@[j],
            ) by {
                assert(self.inner.items@[j] == new_items@[j]);
            }
            assert(spec_children_wf(self.inner.items@));
        }
        self.inner.relayout_items();
    }
}

impl Widget for DynamicList {
    open spec fn model(&self) -> DynWidget {
        DynWidget::List(*self)
    }

    fn layout(&mut self, bounds: UVec2) -> (r: UVec2)
        decreases old(self).inner.items@, 1int,
    {
        let stride = self.inner.item_height + self.inner.spacing;
        let new_max_items = (bounds.y / stride) as usize;
        let relayout = bounds.x != self.inner.item_width || new_max_items > self.inner.max_items;
        self.inner.item_width = bounds.x;
        self.inner.max_items = new_max_items;
        if relayout {
            self.inner.relayout_items();
        }
        bounds
    }

    fn render(&self, pos: UVec2, cache: &mut GlyphCache, draw: &mut DrawHandle)
        decreases *self,
    {
        let ghost orig_cache = cache.contents();
        let ghost orig_bytes = draw.bytes_spec();
        let ghost bw = draw.width_spec();
        let ghost bh = draw.height_spec();
        let ghost s = self.inner.items@;
        let stride = self.inner.item_height + self.inner.spacing;
        let n = if self.inner.items.len() <= self.inner.max_items {
            self.inner.items.len()
        } else {
            self.inner.max_items
        };
        let ghost offsets = Seq::new(
            n as nat,
            |i: int| UVec2 { x: 0u32, y: sat_mul(i as u32, stride) },
        );
        let mut i: usize = 0;
        while i < n
            invariant
                i <= n,
                n <= self.inner.items@.len(),
                n <= self.inner.max_items,
                s == self.inner.items@,
                stride == self.inner.item_height + self.inner.spacing,
                offsets == Seq::new(
                    n as nat,
                    |k: int| UVec2 { x: 0u32, y: sat_mul(k as u32, stride) },
                ),
                spec_widget_wf(DynWidget::List(*self)),
                cache.wf(),
                draw.surface_wf(),
                draw.width_spec() == bw,
                draw.height_spec() == bh,
                cache.contents() == spec_children_cache(s, i as int, orig_cache),
                draw.bytes_spec() == spec_children_bytes(
                    s,
                    offsets,
                    i as int,
                    pos,
                    orig_bytes,
                    orig_cache,
                    bw,
                    bh,
                ),
            decreases n - i,
        {
            let offset = UVec2::new(0, sat_mul_u32(#[verifier::truncate] (i as u32), stride));
            proof {
                assert(offset == offsets[i as int]);
                assert(spec_children_wf(s));
                assert(spec_widget_wf(s[i as int]));
            }
            let item = &self.inner.items[i];
            item.render(pos.saturating_add(offset), cache, draw);
            i += 1;
        }
    }

    fn into_dyn(self) -> (r: DynWidget) {
        DynWidget::List(self)
    }
}

} // verus!
