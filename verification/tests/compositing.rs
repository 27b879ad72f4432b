//! The pixel-buffer compositor: opaque overwrite, transparent no-op,
//! translucent blending, clipping, and texture blits.

use launchr::render::BorrowedBuffer;
use launchr::render::DrawHandle;
use launchr::render::OnwedBuffer;
use launchr::ui::Color;
use launchr::ui::Rect;

fn pixel(bytes: &[u8], width: u32, x: u32, y: u32) -> [u8; 4] {
    let i = ((y * width + x) * 4) as usize;
    [bytes[i], bytes[i + 1], bytes[i + 2], bytes[i + 3]]
}

#[test]
fn test_opaque_fill_writes_exact_foreground() {
    let mut handle = DrawHandle::from(OnwedBuffer::new(4, 4));
    handle.draw_rect(Rect::new(0, 0, 4, 4), Color::from_rgb(9, 8, 7));
    handle.draw_rect(Rect::new(1, 1, 2, 2), Color::from_rgb(250, 120, 30));
    let bytes = handle.get_bytes();
    // BGRA order: the blended pixel is exactly the foreground.
    assert_eq!(pixel(bytes, 4, 1, 1), [30, 120, 250, 255]);
    assert_eq!(pixel(bytes, 4, 2, 2), [30, 120, 250, 255]);
    // Outside the rectangle the background stays.
    assert_eq!(pixel(bytes, 4, 0, 0), [7, 8, 9, 255]);
    assert_eq!(pixel(bytes, 4, 3, 3), [7, 8, 9, 255]);
}

#[test]
fn test_transparent_fill_is_no_op() {
    let mut handle = DrawHandle::from(OnwedBuffer::new(3, 3));
    handle.draw_rect(Rect::new(0, 0, 3, 3), Color::from_rgb(50, 60, 70));
    let before: Vec<u8> = handle.get_bytes().to_vec();
    handle.draw_rect(Rect::new(0, 0, 3, 3), Color::from_rgba(200, 200, 200, 0).premultiply());
    assert_eq!(handle.get_bytes(), before.as_slice());
}

#[test]
fn test_translucent_fill_blends() {
    let mut handle = DrawHandle::from(OnwedBuffer::new(1, 1));
    handle.draw_rect(Rect::new(0, 0, 1, 1), Color::from_rgb(0, 0, 0));
    // White at half alpha over black: premultiplied source 128 plus
    // scaled destination 0.
    handle.draw_rect(Rect::new(0, 0, 1, 1), Color::from_rgba(255, 255, 255, 128).premultiply());
    assert_eq!(pixel(handle.get_bytes(), 1, 0, 0), [128, 128, 128, 255]);
}

#[test]
fn test_fill_clips_to_surface() {
    let mut handle = DrawHandle::from(OnwedBuffer::new(2, 2));
    handle.draw_rect(Rect::new(1, 1, 10, 10), Color::from_rgb(1, 2, 3));
    let bytes = handle.get_bytes();
    assert_eq!(pixel(bytes, 2, 0, 0), [0, 0, 0, 0]);
    assert_eq!(pixel(bytes, 2, 1, 0), [0, 0, 0, 0]);
    assert_eq!(pixel(bytes, 2, 0, 1), [0, 0, 0, 0]);
    assert_eq!(pixel(bytes, 2, 1, 1), [3, 2, 1, 255]);
}

#[test]
fn test_opaque_texture_copies_with_channel_swap() {
    let mut handle = DrawHandle::from(OnwedBuffer::new(3, 3));
    // A 2x1 RGBA texture, fully opaque.
    let tex_bytes = [10u8, 20, 30, 255, 40, 50, 60, 255];
    let texture = BorrowedBuffer::from_bytes(&tex_bytes, 2, 1);
    handle.draw_texture(1, 1, texture);
    let bytes = handle.get_bytes();
    assert_eq!(pixel(bytes, 3, 1, 1), [30, 20, 10, 255]);
    assert_eq!(pixel(bytes, 3, 2, 1), [60, 50, 40, 255]);
    assert_eq!(pixel(bytes, 3, 0, 0), [0, 0, 0, 0]);
}

#[test]
fn test_translucent_texture_blends_per_pixel() {
    let mut handle = DrawHandle::from(OnwedBuffer::new(1, 1));
    handle.draw_rect(Rect::new(0, 0, 1, 1), Color::from_rgb(100, 100, 100));
    // One premultiplied half-transparent white pixel.
    let tex_bytes = [128u8, 128, 128, 128];
    let texture = BorrowedBuffer::from_bytes(&tex_bytes, 1, 1);
    handle.draw_texture(0, 0, texture);
    // 128 + scale(100, 127) = 128 + 50.
    assert_eq!(pixel(handle.get_bytes(), 1, 0, 0), [178, 178, 178, 255]);
}

#[test]
fn test_texture_fully_outside_is_no_op() {
    let mut handle = DrawHandle::from(OnwedBuffer::new(1, 1));
    handle.draw_rect(Rect::new(0, 0, 1, 1), Color::from_rgb(7, 8, 9));
    let before: Vec<u8> = handle.get_bytes().to_vec();
    let tex_bytes = [200u8, 200, 200, 255];
    // Placed past the right edge: nothing on the surface is covered.
    handle.draw_texture(5, 0, BorrowedBuffer::from_bytes(&tex_bytes, 1, 1));
    assert_eq!(handle.get_bytes(), before.as_slice());
    // Placed past the bottom edge likewise.
    handle.draw_texture(0, 3, BorrowedBuffer::from_bytes(&tex_bytes, 1, 1));
    assert_eq!(handle.get_bytes(), before.as_slice());
}

#[test]
fn test_texture_clips_at_right_edge() {
    let mut handle = DrawHandle::from(OnwedBuffer::new(2, 1));
    // A 3x1 opaque texture at x = 1: only its first column lands on the
    // surface, in the last surface column.
    let tex_bytes = [10u8, 20, 30, 255, 40, 50, 60, 255, 70, 80, 90, 255];
    handle.draw_texture(1, 0, BorrowedBuffer::from_bytes(&tex_bytes, 3, 1));
    let bytes = handle.get_bytes();
    assert_eq!(pixel(bytes, 2, 0, 0), [0, 0, 0, 0]);
    assert_eq!(pixel(bytes, 2, 1, 0), [30, 20, 10, 255]);
}
