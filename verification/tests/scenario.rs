//! An end-to-end launcher surface: a padded root container wrapping a column
//! of title text, editor box, separator and result list, laid out against a
//! window, with the list sized by what room is left.

use launchr::render::DrawHandle;
use launchr::render::OnwedBuffer;
use launchr::ui::Color;
use launchr::ui::DynWidget;
use launchr::ui::GlyphCache;
use launchr::ui::Length;
use launchr::ui::SizedBox;
use launchr::ui::TextEditor;
use launchr::ui::UVec2;
use launchr::ui::Widget;
use launchr::ui::container::container;
use launchr::ui::editor::Editor;
use launchr::ui::list::DynamicList;
use launchr::ui::text::RunMetrics;
use launchr::ui::text::Text;

fn title_text(width: u32, height: u32) -> Text {
    // Stands in for shaped title text of the given intrinsic size.
    let runs = vec![RunMetrics { line_top: 0, line_height: height, line_w: width }];
    Text::new(vec![], &runs, UVec2::new(width, height))
}

fn build_root(list: DynamicList) -> DynWidget {
    let gray = Color::from_rgb(50, 50, 50);
    let dark_gray = Color::from_rgb(80, 80, 80);
    let editor = TextEditor::new(Editor::new(), 18);
    container(launchr::ui::flex::column(vec![
        title_text(40, 24).into_dyn(),
        container(editor).padding_all(4).bg(dark_gray).into_dyn(),
        SizedBox::new().width(Length::Fill).height(Length::Fixed(2)).into_dyn(),
        list.into_dyn(),
    ]))
        .padding_all(32)
        .bg(gray)
        .width(Length::Fill)
        .height(Length::Fill)
        .into_dyn()
}

fn list_rows(root: &DynWidget) -> usize {
    if let DynWidget::Container(c) = root {
        if let DynWidget::Flex(f) = &*c.child {
            if let DynWidget::List(l) = &f.children[3] {
                return l.max_items();
            }
        }
    }
    panic!("expected the list inside the column");
}

#[test]
fn test_launcher_surface_sizes_list_to_leftover_room() {
    let mut list = DynamicList::new(28, 4);
    let items: Vec<DynWidget> = (0..40).map(|_| {
        SizedBox::new()
            .width(Length::Fill)
            .height(Length::Fixed(28))
            .color(Color::from_rgb(120, 120, 120))
            .into_dyn()
    }).collect();
    list.update(items);
    let mut root = build_root(list);

    let size = root.layout(UVec2::new(1300, 700));
    assert_eq!((size.x, size.y), (1300, 700));

    // The column gets 700 - 2*32 = 636 rows of height; the title (24), the
    // padded editor (18 + 2*4 = 26), and the separator (2) leave 584 for
    // the list: floor(584 / (28 + 4)) = 18 rows.
    assert_eq!(list_rows(&root), 18);

    // A slightly taller window leaves 585 rows: still 18 visible rows, so
    // no item beyond that count is ever re-laid-out.
    root.layout(UVec2::new(1300, 701));
    assert_eq!(list_rows(&root), 18);

    // Render the whole surface headlessly and read the frame back.
    let mut cache = GlyphCache::new();
    let mut handle = DrawHandle::from(OnwedBuffer::new(1300, 700));
    root.render(UVec2::new(0, 0), &mut cache, &mut handle);
    let bytes = handle.get_bytes();
    assert_eq!(bytes.len(), 1300 * 700 * 4);
    // The padded root background shows at the corner.
    let i = 0;
    assert_eq!([bytes[i], bytes[i + 1], bytes[i + 2], bytes[i + 3]], [50, 50, 50, 255]);
    // A list row pixel: rows start below title, editor and separator at
    // y = 32 + 24 + 26 + 2 = 84, x inside the left padding.
    let i = ((84 * 1300 + 40) * 4) as usize;
    assert_eq!([bytes[i], bytes[i + 1], bytes[i + 2], bytes[i + 3]], [120, 120, 120, 255]);
}
