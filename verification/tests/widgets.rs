//! Widget layout and rendering: length resolution, container wrapping,
//! flex stacking, list virtualization, text drawing and the glyph cache.

use launchr::render::DrawHandle;
use launchr::render::OnwedBuffer;
use launchr::ui::Color;
use launchr::ui::DynWidget;
use launchr::ui::GlyphCache;
use launchr::ui::Length;
use launchr::ui::SizedBox;
use launchr::ui::UVec2;
use launchr::ui::Widget;
use launchr::ui::container::container;
use launchr::ui::list::DynamicList;
use launchr::ui::text::GlyphImage;
use launchr::ui::text::GlyphKey;
use launchr::ui::text::PlacedGlyph;
use launchr::ui::text::RunMetrics;
use launchr::ui::text::Text;

fn pixel(bytes: &[u8], width: u32, x: u32, y: u32) -> [u8; 4] {
    let i = ((y * width + x) * 4) as usize;
    [bytes[i], bytes[i + 1], bytes[i + 2], bytes[i + 3]]
}

fn colored_box(w: u32, h: u32, color: Color) -> DynWidget {
    SizedBox::new().width(Length::Fixed(w)).height(Length::Fixed(h)).color(color).into_dyn()
}

#[test]
fn test_fill_yields_exact_bound() {
    let mut w = SizedBox::new().width(Length::Fill).height(Length::Fill).into_dyn();
    let size = w.layout(UVec2::new(123, 77));
    assert_eq!((size.x, size.y), (123, 77));

    let mut w = container(SizedBox::new())
        .width(Length::Fill)
        .height(Length::Fill)
        .into_dyn();
    let size = w.layout(UVec2::new(50, 60));
    assert_eq!((size.x, size.y), (50, 60));
}

#[test]
fn test_sized_box_resolution() {
    let mut w = SizedBox::new().into_dyn();
    let size = w.layout(UVec2::new(100, 100));
    assert_eq!((size.x, size.y), (0, 0));

    let mut w = SizedBox::new().width(Length::Fixed(40)).height(Length::Fixed(7)).into_dyn();
    let size = w.layout(UVec2::new(100, 100));
    assert_eq!((size.x, size.y), (40, 7));
}

#[test]
fn test_container_auto_wraps_child_plus_padding() {
    // A container with uniform padding 5 around a fixed 30x20 child
    // resolves to (30 + 10, 20 + 10).
    let mut c = container(
        SizedBox::new().width(Length::Fixed(30)).height(Length::Fixed(20)),
    ).padding_all(5).into_dyn();
    let size = c.layout(UVec2::new(100, 100));
    assert_eq!((size.x, size.y), (40, 30));
}

#[test]
fn test_container_renders_child_at_padding_offset() {
    let mut c = container(
        SizedBox::new()
            .width(Length::Fixed(2))
            .height(Length::Fixed(2))
            .color(Color::from_rgb(200, 10, 10)),
    ).padding_all(3).bg(Color::from_rgb(1, 1, 1)).into_dyn();
    c.layout(UVec2::new(8, 8));
    let mut cache = GlyphCache::new();
    let mut handle = DrawHandle::from(OnwedBuffer::new(8, 8));
    c.render(UVec2::new(0, 0), &mut cache, &mut handle);
    let bytes = handle.get_bytes();
    // The child's first pixel sits at origin + (3, 3).
    assert_eq!(pixel(bytes, 8, 3, 3), [10, 10, 200, 255]);
    assert_eq!(pixel(bytes, 8, 4, 4), [10, 10, 200, 255]);
    // Just outside the child the background shows.
    assert_eq!(pixel(bytes, 8, 2, 2), [1, 1, 1, 255]);
    assert_eq!(pixel(bytes, 8, 5, 5), [1, 1, 1, 255]);
}

#[test]
fn test_column_stacks_and_sizes() {
    let mut w = launchr::ui::flex::column(vec![colored_box(10, 4, Color::from_rgb(1, 0, 0)), colored_box(
        6,
        9,
        Color::from_rgb(0, 1, 0),
    )]).into_dyn();
    let size = w.layout(UVec2::new(100, 100));
    // Auto: width is the maximum, height the sum.
    assert_eq!((size.x, size.y), (10, 13));
}

#[test]
fn test_row_stacks_and_sizes() {
    let mut w = launchr::ui::flex::row(vec![colored_box(10, 4, Color::from_rgb(1, 0, 0)), colored_box(
        6,
        9,
        Color::from_rgb(0, 1, 0),
    )]).into_dyn();
    let size = w.layout(UVec2::new(100, 100));
    assert_eq!((size.x, size.y), (16, 9));
}

#[test]
fn test_column_renders_children_at_offsets() {
    let mut w = launchr::ui::flex::column(vec![
        colored_box(2, 2, Color::from_rgb(10, 0, 0)),
        colored_box(2, 2, Color::from_rgb(0, 10, 0)),
    ]).into_dyn();
    w.layout(UVec2::new(4, 8));
    let mut cache = GlyphCache::new();
    let mut handle = DrawHandle::from(OnwedBuffer::new(4, 8));
    w.render(UVec2::new(0, 0), &mut cache, &mut handle);
    let bytes = handle.get_bytes();
    assert_eq!(pixel(bytes, 4, 0, 0), [0, 0, 10, 255]);
    assert_eq!(pixel(bytes, 4, 0, 2), [0, 10, 0, 255]);
}

#[test]
fn test_list_virtualization_max_visible() {
    // N items, item_height 28, spacing 4, viewport 320: floor(320/32) = 10.
    let mut list = DynamicList::new(28, 4);
    let items: Vec<DynWidget> = (0..30).map(|_| colored_box(5, 5, Color::from_rgb(9, 9, 9))).collect();
    list.update(items);
    let mut w = list.into_dyn();
    let size = w.layout(UVec2::new(200, 320));
    // A list always fills the offered bounds.
    assert_eq!((size.x, size.y), (200, 320));
    if let DynWidget::List(l) = &w {
        assert_eq!(l.max_items(), 10);
    } else {
        panic!("expected a list node");
    }
}

#[test]
fn test_list_renders_rows_at_strided_offsets() {
    let mut list = DynamicList::new(28, 4);
    let items: Vec<DynWidget> = (0..3).map(|i| {
        colored_box(4, 28, Color::from_rgb(10 + i, 0, 0))
    }).collect();
    list.update(items);
    let mut w = list.into_dyn();
    w.layout(UVec2::new(4, 320));
    let mut cache = GlyphCache::new();
    let mut handle = DrawHandle::from(OnwedBuffer::new(4, 320));
    w.render(UVec2::new(0, 0), &mut cache, &mut handle);
    let bytes = handle.get_bytes();
    // Rows draw at offsets 0, 32, 64; only min(N, 10) = 3 rows exist.
    assert_eq!(pixel(bytes, 4, 0, 0), [0, 0, 10, 255]);
    assert_eq!(pixel(bytes, 4, 0, 32), [0, 0, 11, 255]);
    assert_eq!(pixel(bytes, 4, 0, 64), [0, 0, 12, 255]);
    // The gap between rows stays untouched.
    assert_eq!(pixel(bytes, 4, 0, 30), [0, 0, 0, 0]);
    assert_eq!(pixel(bytes, 4, 0, 96), [0, 0, 0, 0]);
}

#[test]
fn test_list_shows_all_items_when_fewer_than_viewport() {
    let mut list = DynamicList::new(28, 4);
    list.update(vec![colored_box(1, 1, Color::from_rgb(1, 1, 1))]);
    let mut w = list.into_dyn();
    w.layout(UVec2::new(10, 320));
    if let DynWidget::List(l) = &w {
        assert_eq!(l.max_items(), 10);
        // Only one item exists; rendering draws min(1, 10) = 1 row, which
        // the strided-offsets test already pins down.
    } else {
        panic!("expected a list node");
    }
}

fn white_mask_glyph(id: u16, x: i32, w: u32, h: u32) -> PlacedGlyph {
    PlacedGlyph {
        key: GlyphKey { font_id: 1, glyph_id: id, size_bits: 18, x_bin: 0, y_bin: 0, flags: 0 },
        x,
        y: 0,
        line_y: 0,
        color: None,
        image: Some(GlyphImage {
            width: w,
            height: h,
            left: 0,
            top: 0,
            is_mask: true,
            data: vec![255; (w * h) as usize],
        }),
    }
}

#[test]
fn test_text_draws_glyphs_and_caches() {
    let runs = vec![RunMetrics { line_top: 0, line_height: 2, line_w: 4 }];
    let text = Text::new(
        vec![white_mask_glyph(7, 0, 2, 2), white_mask_glyph(7, 2, 2, 2)],
        &runs,
        UVec2::new(10, 10),
    );
    assert_eq!((text.width, text.height), (4, 2));
    let w = text.into_dyn();
    let mut cache = GlyphCache::new();
    let mut handle = DrawHandle::from(OnwedBuffer::new(6, 3));
    w.render(UVec2::new(0, 0), &mut cache, &mut handle);
    let bytes = handle.get_bytes();
    // Both glyph instances of the same identity draw opaque white.
    assert_eq!(pixel(bytes, 6, 0, 0), [255, 255, 255, 255]);
    assert_eq!(pixel(bytes, 6, 3, 1), [255, 255, 255, 255]);
    assert_eq!(pixel(bytes, 6, 4, 0), [0, 0, 0, 0]);
}

#[test]
fn test_glyph_cache_first_color_wins() {
    // Two glyphs share an identity but ask for different colors: the color
    // cached at the first draw stays.
    let red = PlacedGlyph {
        color: Some(Color::from_rgb(255, 0, 0)),
        ..white_mask_glyph(3, 0, 1, 1)
    };
    let green = PlacedGlyph {
        color: Some(Color::from_rgb(0, 255, 0)),
        x: 1,
        ..white_mask_glyph(3, 0, 1, 1)
    };
    let runs = vec![RunMetrics { line_top: 0, line_height: 1, line_w: 2 }];
    let text = Text::new(vec![red, green], &runs, UVec2::new(4, 4)).into_dyn();
    let mut cache = GlyphCache::new();
    let mut handle = DrawHandle::from(OnwedBuffer::new(2, 1));
    text.render(UVec2::new(0, 0), &mut cache, &mut handle);
    let bytes = handle.get_bytes();
    assert_eq!(pixel(bytes, 2, 0, 0), [0, 0, 255, 255]);
    // The second draw reuses the red bitmap cached for the identity.
    assert_eq!(pixel(bytes, 2, 1, 0), [0, 0, 255, 255]);
}

#[test]
fn test_text_needs_reshape_only_on_changed_bounds() {
    let runs = vec![RunMetrics { line_top: 0, line_height: 2, line_w: 2 }];
    let text = Text::new(vec![], &runs, UVec2::new(100, 50));
    assert!(!text.needs_reshape(UVec2::new(100, 50)));
    assert!(text.needs_reshape(UVec2::new(101, 50)));
}
