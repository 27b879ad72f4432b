//! The pixel-buffer blending engine. Buffers hold `width x height` pixels of
//! four bytes each in BGRA order; colors and textures arrive in RGBA order
//! with premultiplied alpha. Compositing is Porter-Duff "over" in rounded
//! integer arithmetic; fully opaque sources take a direct-overwrite fast path
//! that provably writes the same bytes the blend would.

use vstd::prelude::*;
use vstd::arithmetic::div_mod::lemma_fundamental_div_mod_converse;
use crate::ui::color::Color;
use crate::ui::color::lemma_scale_u8_le_alpha;
use crate::ui::color::scale_u8;
use crate::ui::color::spec_scale_u8;
use crate::ui::math::Rect;

verus! {

/// Porter-Duff "over" on one channel, source premultiplied: the source byte
/// plus the destination byte scaled by the remaining alpha.
pub open spec fn spec_blend_channel(src: u8, dst: u8, alpha: u8) -> u8 {
    (src + spec_scale_u8(dst, (255 - alpha) as u8)) as u8
}

/// The source byte feeding a BGRA destination channel, from an RGBA color.
pub open spec fn spec_src_channel(c: Color, ch: int) -> u8 {
    if ch == 0 {
        c.b
    } else if ch == 1 {
        c.g
    } else if ch == 2 {
        c.r
    } else {
        c.a
    }
}

/// One destination byte after compositing a premultiplied color over it.
pub open spec fn spec_blended(c: Color, dst: u8, ch: int) -> u8 {
    spec_blend_channel(spec_src_channel(c, ch), dst, c.a)
}

/// A premultiplied source never overflows the blend sum.
pub proof fn lemma_blend_channel_bounds(src: u8, dst: u8, alpha: u8)
    requires
        src <= alpha,
    ensures
        src + spec_scale_u8(dst, (255 - alpha) as u8) <= 255,
{
    lemma_scale_u8_le_alpha(dst, (255 - alpha) as u8);
}

/// Blending a fully opaque source yields exactly the source byte: no residual
/// background bleeds through.
pub proof fn lemma_blend_opaque(src: u8, dst: u8)
    ensures
        spec_blend_channel(src, dst, 255) == src,
{
    assert(spec_scale_u8(dst, 0) == 0);
}

/// Blending a fully transparent premultiplied source leaves the destination
/// byte exactly as it was.
pub proof fn lemma_blend_transparent(dst: u8)
    ensures
        spec_blend_channel(0, dst, 0) == dst,
{
    assert((dst * 255 + 127) / 255 == dst) by (nonlinear_arith)
        requires
            dst <= 255,
    ;
}

/// The flat byte offset of channel `ch` of pixel `(x, y)` in a buffer of
/// width `w`.
pub open spec fn byte_index(w: u32, x: int, y: int, ch: int) -> int {
    (y * w + x) * 4 + ch
}

/// Every in-range coordinate maps to an in-range byte offset, and the offset
/// decodes back to the coordinates.
pub proof fn lemma_byte_index_encode(w: u32, h: u32, x: int, y: int, ch: int)
    requires
        0 <= x < w,
        0 <= y < h,
        0 <= ch < 4,
    ensures
        0 <= byte_index(w, x, y, ch) < w * h * 4,
        byte_index(w, x, y, ch) % 4 == ch,
        (byte_index(w, x, y, ch) / 4) % (w as int) == x,
        (byte_index(w, x, y, ch) / 4) / (w as int) == y,
{
    let q = y * (w as int) + x;
    let i = q * 4 + ch;
    assert(0 <= q < w * h && i < w * h * 4) by (nonlinear_arith)
        requires
            0 <= x < w,
            0 <= y < h,
            0 <= ch < 4,
            q == y * (w as int) + x,
            i == q * 4 + ch,
    ;
    lemma_fundamental_div_mod_converse(i, 4, q, ch);
    lemma_fundamental_div_mod_converse(q, w as int, y, x);
}

/// Every in-range byte offset is the encoding of its decoded coordinates.
pub proof fn lemma_byte_index_decode(w: u32, h: u32, i: int)
    requires
        w > 0,
        0 <= i < w * h * 4,
    ensures
        0 <= i % 4 < 4,
        0 <= (i / 4) % (w as int) < w,
        0 <= (i / 4) / (w as int) < h,
        i == byte_index(w, (i / 4) % (w as int), (i / 4) / (w as int), i % 4),
{
    vstd::arithmetic::div_mod::lemma_fundamental_div_mod(i, 4);
    vstd::arithmetic::div_mod::lemma_fundamental_div_mod(i / 4, w as int);
    vstd::arithmetic::div_mod::lemma_mod_bound(i, 4);
    vstd::arithmetic::div_mod::lemma_mod_bound(i / 4, w as int);
    vstd::arithmetic::div_mod::lemma_div_pos_is_pos(i, 4);
    vstd::arithmetic::div_mod::lemma_div_pos_is_pos(i / 4, w as int);
    let q = i / 4;
    let x = q % (w as int);
    let y = q / (w as int);
    assert(y < h) by (nonlinear_arith)
        requires
            w > 0,
            q < w * h,
            y == q / (w as int),
            q == (w as int) * y + x,
            0 <= x < w,
    {
    }
    assert(i == byte_index(w, x, y, i % 4)) by (nonlinear_arith)
        requires
            i == 4 * q + i % 4,
            q == (w as int) * y + x,
    ;
}

/// Two distinct in-range pixel coordinates never share a flat pixel number.
pub proof fn lemma_pixel_base_injective(w: u32, h: u32, x1: int, y1: int, x2: int, y2: int)
    requires
        0 <= x1 < w,
        0 <= y1 < h,
        0 <= x2 < w,
        0 <= y2 < h,
        y1 * w + x1 == y2 * w + x2,
    ensures
        x1 == x2,
        y1 == y2,
{
    lemma_fundamental_div_mod_converse(y1 * (w as int) + x1, w as int, y1, x1);
    lemma_fundamental_div_mod_converse(y2 * (w as int) + x2, w as int, y2, x2);
}

/// `min` on `u32`, the clip origin of a rectangle edge against a limit.
pub open spec fn clip_start(p: u32, limit: u32) -> u32 {
    if p < limit {
        p
    } else {
        limit
    }
}

/// The clipped extent: at most `s`, at most the room left before `limit`.
pub open spec fn clip_len(s: u32, limit: u32, start: u32) -> u32 {
    if s <= limit - start {
        s
    } else {
        (limit - start) as u32
    }
}

/// Whether pixel `(x, y)` lies inside `rect` clipped to a `w x h` surface.
pub open spec fn rect_covers(w: u32, h: u32, rect: Rect, x: int, y: int) -> bool {
    let x0 = clip_start(rect.pos.x, w);
    let y0 = clip_start(rect.pos.y, h);
    let rw = clip_len(rect.size.x, w, x0);
    let rh = clip_len(rect.size.y, h, y0);
    x0 <= x < x0 + rw && y0 <= y < y0 + rh
}

/// The buffer after compositing a premultiplied color over a rectangle,
/// clipped to the surface: every covered pixel is blended channelwise, every
/// other byte is untouched, and a fully transparent color is a no-op.
pub open spec fn spec_fill_rect(buf: Seq<u8>, w: u32, h: u32, rect: Rect, c: Color) -> Seq<u8> {
    if c.a == 0 {
        buf
    } else {
        Seq::new(
            buf.len(),
            |i: int|
                {
                    let px = (i / 4) % (w as int);
                    let py = (i / 4) / (w as int);
                    let ch = i % 4;
                    if rect_covers(w, h, rect, px, py) {
                        spec_blended(c, buf[i], ch)
                    } else {
                        buf[i]
                    }
                },
        )
    }
}

/// Pointwise reading of [`spec_fill_rect`] at pixel coordinates.
pub proof fn lemma_fill_rect_at(buf: Seq<u8>, w: u32, h: u32, rect: Rect, c: Color, x: int, y: int, ch: int)
    requires
        buf.len() == w * h * 4,
        0 <= x < w,
        0 <= y < h,
        0 <= ch < 4,
        c.a != 0,
    ensures
        spec_fill_rect(buf, w, h, rect, c)[byte_index(w, x, y, ch)] == if rect_covers(w, h, rect, x, y) {
            spec_blended(c, buf[byte_index(w, x, y, ch)], ch)
        } else {
            buf[byte_index(w, x, y, ch)]
        },
{
    lemma_byte_index_encode(w, h, x, y, ch);
}

/// Blending a fully opaque premultiplied color writes exactly the foreground
/// bytes into every covered pixel.
pub proof fn lemma_fill_rect_opaque_writes_foreground(
    buf: Seq<u8>,
    w: u32,
    h: u32,
    rect: Rect,
    c: Color,
    x: int,
    y: int,
    ch: int,
)
    requires
        buf.len() == w * h * 4,
        0 <= x < w,
        0 <= y < h,
        0 <= ch < 4,
        c.a == 255,
        rect_covers(w, h, rect, x, y),
    ensures
        spec_fill_rect(buf, w, h, rect, c)[byte_index(w, x, y, ch)] == spec_src_channel(c, ch),
{
    lemma_fill_rect_at(buf, w, h, rect, c, x, y, ch);
    lemma_byte_index_encode(w, h, x, y, ch);
    lemma_blend_opaque(spec_src_channel(c, ch), buf[byte_index(w, x, y, ch)]);
}

/// Compositing a fully transparent color changes nothing.
pub proof fn lemma_fill_rect_transparent_no_op(buf: Seq<u8>, w: u32, h: u32, rect: Rect, c: Color)
    requires
        c.a == 0,
    ensures
        spec_fill_rect(buf, w, h, rect, c) == buf,
{
}

/// Pixels outside the clipped rectangle keep their bytes.
pub proof fn lemma_fill_rect_outside_unchanged(
    buf: Seq<u8>,
    w: u32,
    h: u32,
    rect: Rect,
    c: Color,
    x: int,
    y: int,
    ch: int,
)
    requires
        buf.len() == w * h * 4,
        0 <= x < w,
        0 <= y < h,
        0 <= ch < 4,
        !rect_covers(w, h, rect, x, y),
    ensures
        spec_fill_rect(buf, w, h, rect, c)[byte_index(w, x, y, ch)] == buf[byte_index(w, x, y, ch)],
{
    if c.a != 0 {
        lemma_fill_rect_at(buf, w, h, rect, c, x, y, ch);
    } else {
        lemma_byte_index_encode(w, h, x, y, ch);
    }
}

/// Every pixel of the texture bytes is premultiplied: no channel exceeds its
/// pixel's alpha byte.
pub open spec fn texture_premultiplied(tex: Seq<u8>) -> bool {
    forall|p: int|
        0 <= p && 4 * p + 3 < tex.len() ==> (#[trigger] tex[4 * p] <= tex[4 * p + 3] && tex[4 * p + 1]
            <= tex[4 * p + 3] && tex[4 * p + 2] <= tex[4 * p + 3])
}

/// The texture byte feeding a BGRA destination channel: textures are RGBA, so
/// the red and blue bytes swap.
pub open spec fn spec_tex_src(tex: Seq<u8>, base: int, ch: int) -> u8 {
    if ch == 0 {
        tex[base + 2]
    } else if ch == 1 {
        tex[base + 1]
    } else if ch == 2 {
        tex[base]
    } else {
        tex[base + 3]
    }
}

/// Whether a surface pixel `(px, py)` lies under the blit of a `tw x th`
/// texture placed at `(x, y)`: inside the texture's own rectangle. The
/// surface bound is the caller's; a texture placed at or past the right or
/// bottom edge covers no surface pixel at all.
pub open spec fn blit_covers(x: u32, y: u32, tw: u32, th: u32, px: int, py: int) -> bool {
    x <= px < x + tw && y <= py < y + th
}

/// The buffer after blitting a premultiplied RGBA texture at `(x, y)`,
/// clipped to the surface: every pixel in the intersection of the texture's
/// rectangle with the surface is blended channelwise against the
/// corresponding texture pixel, every other byte is untouched.
pub open spec fn spec_fill_texture(
    buf: Seq<u8>,
    w: u32,
    h: u32,
    x: u32,
    y: u32,
    tex: Seq<u8>,
    tw: u32,
    th: u32,
) -> Seq<u8> {
    Seq::new(
        buf.len(),
        |i: int|
            {
                let px = (i / 4) % (w as int);
                let py = (i / 4) / (w as int);
                let ch = i % 4;
                if blit_covers(x, y, tw, th, px, py) {
                    let base = ((py - y) * tw + (px - x)) * 4;
                    spec_blend_channel(spec_tex_src(tex, base, ch), buf[i], tex[base + 3])
                } else {
                    buf[i]
                }
            },
    )
}

/// Pointwise reading of [`spec_fill_texture`] at pixel coordinates.
pub proof fn lemma_fill_texture_at(
    buf: Seq<u8>,
    w: u32,
    h: u32,
    x: u32,
    y: u32,
    tex: Seq<u8>,
    tw: u32,
    th: u32,
    px: int,
    py: int,
    ch: int,
)
    requires
        buf.len() == w * h * 4,
        0 <= px < w,
        0 <= py < h,
        0 <= ch < 4,
    ensures
        spec_fill_texture(buf, w, h, x, y, tex, tw, th)[byte_index(w, px, py, ch)] == ({
            if blit_covers(x, y, tw, th, px, py) {
                let base = ((py - y) * tw + (px - x)) * 4;
                spec_blend_channel(spec_tex_src(tex, base, ch), buf[byte_index(w, px, py, ch)], tex[base + 3])
            } else {
                buf[byte_index(w, px, py, ch)]
            }
        }),
{
    lemma_byte_index_encode(w, h, px, py, ch);
}

/// A texture placed at or past the surface's right or bottom edge changes
/// nothing: the blit's covered region is empty.
pub proof fn lemma_fill_texture_outside_no_op(
    buf: Seq<u8>,
    w: u32,
    h: u32,
    x: u32,
    y: u32,
    tex: Seq<u8>,
    tw: u32,
    th: u32,
)
    requires
        buf.len() == w * h * 4,
        x >= w || y >= h,
    ensures
        spec_fill_texture(buf, w, h, x, y, tex, tw, th) == buf,
{
    assert forall|i: int| 0 <= i < buf.len() implies spec_fill_texture(buf, w, h, x, y, tex, tw, th)[i]
        == buf[i] by {
        if w == 0 {
            assert(w * h * 4 == 0) by (nonlinear_arith)
                requires
                    w == 0,
            ;
        }
        lemma_byte_index_decode(w, h, i);
        let px = (i / 4) % (w as int);
        let py = (i / 4) / (w as int);
        assert(!blit_covers(x, y, tw, th, px, py));
    }
    assert(spec_fill_texture(buf, w, h, x, y, tex, tw, th) =~= buf);
}

/// `min` on `u32`; the executable form of [`clip_start`] and [`clip_len`].
pub fn min_u32(a: u32, b: u32) -> (r: u32)
    ensures
        r == clip_start(a, b),
        r <= a && r <= b,
{
    if a < b {
        a
    } else {
        b
    }
}

/// Writes the four bytes of one pixel, leaving every other byte unchanged.
fn write4_at(buf: &mut Vec<u8>, idx: usize, b0: u8, b1: u8, b2: u8, b3: u8)
    requires
        idx + 4 <= old(buf).len(),
    ensures
        final(buf).len() == old(buf).len(),
        final(buf)@[idx as int] == b0,
        final(buf)@[idx + 1] == b1,
        final(buf)@[idx + 2] == b2,
        final(buf)@[idx + 3] == b3,
        forall|j: int| 0 <= j < old(buf).len() && !(idx <= j < idx + 4) ==> final(buf)@[j] == old(buf)@[j],
{
    buf.set(idx, b0);
    buf.set(idx + 1, b1);
    buf.set(idx + 2, b2);
    buf.set(idx + 3, b3);
}

/// Composites one premultiplied source pixel (given channelwise in BGRA
/// order) over the destination pixel at `idx`.
fn blend_at(buf: &mut Vec<u8>, idx: usize, sb: u8, sg: u8, sr: u8, sa: u8)
    requires
        idx + 4 <= old(buf).len(),
        sb <= sa,
        sg <= sa,
        sr <= sa,
    ensures
        final(buf).len() == old(buf).len(),
        final(buf)@[idx as int] == spec_blend_channel(sb, old(buf)@[idx as int], sa),
        final(buf)@[idx + 1] == spec_blend_channel(sg, old(buf)@[idx + 1], sa),
        final(buf)@[idx + 2] == spec_blend_channel(sr, old(buf)@[idx + 2], sa),
        final(buf)@[idx + 3] == spec_blend_channel(sa, old(buf)@[idx + 3], sa),
        forall|j: int| 0 <= j < old(buf).len() && !(idx <= j < idx + 4) ==> final(buf)@[j] == old(buf)@[j],
{
    let a: u8 = 255 - sa;
    let d0 = buf[idx];
    let d1 = buf[idx + 1];
    let d2 = buf[idx + 2];
    let d3 = buf[idx + 3];
    proof {
        lemma_blend_channel_bounds(sb, d0, sa);
        lemma_blend_channel_bounds(sg, d1, sa);
        lemma_blend_channel_bounds(sr, d2, sa);
        lemma_blend_channel_bounds(sa, d3, sa);
    }
    buf.set(idx, sb + scale_u8(d0, a));
    buf.set(idx + 1, sg + scale_u8(d1, a));
    buf.set(idx + 2, sr + scale_u8(d2, a));
    buf.set(idx + 3, sa + scale_u8(d3, a));
}

/// Composites a premultiplied color over a rectangle of the buffer, clipped
/// to the surface. A fully opaque color takes a direct-overwrite fast path; a
/// fully transparent color returns at once; anything else is blended
/// per pixel. All three paths meet [`spec_fill_rect`].
pub fn fill_rect(buf: &mut Vec<u8>, buf_width: u32, buf_height: u32, rect: Rect, color: Color)
    requires
        old(buf).len() == buf_width * buf_height * 4,
        color.premultiplied(),
    ensures
        final(buf)@ == spec_fill_rect(old(buf)@, buf_width, buf_height, rect, color),
{
    let ghost orig = buf@;
    let ghost fill = spec_fill_rect(buf@, buf_width, buf_height, rect, color);
    if color.alpha() == 0 {
        return ;
    }
    let w = buf_width;
    let h = buf_height;
    let x0 = min_u32(rect.pos.x, w);
    let y0 = min_u32(rect.pos.y, h);
    let rw = min_u32(rect.size.x, w - x0);
    let rh = min_u32(rect.size.y, h - y0);
    let opaque = color.alpha() == 255;
    let mut py: u32 = y0;
    while py < y0 + rh
        invariant
            y0 <= py <= y0 + rh,
            y0 + rh <= h,
            x0 + rw <= w,
            x0 == clip_start(rect.pos.x, w),
            y0 == clip_start(rect.pos.y, h),
            rw == clip_len(rect.size.x, w, x0),
            rh == clip_len(rect.size.y, h, y0),
            opaque == (color.a == 255),
            color.a != 0,
            color.premultiplied(),
            buf.len() == orig.len(),
            orig.len() == w * h * 4,
            fill == spec_fill_rect(orig, w, h, rect, color),
            forall|xx: int, yy: int, cc: int|
                #![trigger byte_index(w, xx, yy, cc)]
                0 <= xx < w && 0 <= yy < h && 0 <= cc < 4 ==> buf@[byte_index(w, xx, yy, cc)] == (
                if rect_covers(w, h, rect, xx, yy) && yy < py {
                    fill[byte_index(w, xx, yy, cc)]
                } else {
                    orig[byte_index(w, xx, yy, cc)]
                }),
        decreases y0 + rh - py,
    {
        let mut px: u32 = x0;
        while px < x0 + rw
            invariant
                x0 <= px <= x0 + rw,
                y0 <= py < y0 + rh,
                y0 + rh <= h,
                x0 + rw <= w,
                x0 == clip_start(rect.pos.x, w),
                y0 == clip_start(rect.pos.y, h),
                rw == clip_len(rect.size.x, w, x0),
                rh == clip_len(rect.size.y, h, y0),
                opaque == (color.a == 255),
                color.a != 0,
                color.premultiplied(),
                buf.len() == orig.len(),
                orig.len() == w * h * 4,
                fill == spec_fill_rect(orig, w, h, rect, color),
                forall|xx: int, yy: int, cc: int|
                    #![trigger byte_index(w, xx, yy, cc)]
                    0 <= xx < w && 0 <= yy < h && 0 <= cc < 4 ==> buf@[byte_index(w, xx, yy, cc)] == (
                    if rect_covers(w, h, rect, xx, yy) && (yy < py || (yy == py && xx < px)) {
                        fill[byte_index(w, xx, yy, cc)]
                    } else {
                        orig[byte_index(w, xx, yy, cc)]
                    }),
            decreases x0 + rw - px,
        {
            proof {
                lemma_byte_index_encode(w, h, px as int, py as int, 0);
                lemma_byte_index_encode(w, h, px as int, py as int, 3);
            }
            let idx: usize = ((py as usize) * (w as usize) + (px as usize)) * 4;
            let ghost before = buf@;
            if opaque {
                write4_at(buf, idx, color.blue(), color.green(), color.red(), color.alpha());
            } else {
                blend_at(buf, idx, color.blue(), color.green(), color.red(), color.alpha());
            }
            proof {
                assert forall|xx: int, yy: int, cc: int|
                    0 <= xx < w && 0 <= yy < h && 0 <= cc < 4 implies buf@[#[trigger] byte_index(
                    w,
                    xx,
                    yy,
                    cc,
                )] == (if rect_covers(w, h, rect, xx, yy) && (yy < py || (yy == py && xx < px + 1)) {
                    fill[byte_index(w, xx, yy, cc)]
                } else {
                    orig[byte_index(w, xx, yy, cc)]
                }) by {
                    let bi = byte_index(w, xx, yy, cc);
                    lemma_byte_index_encode(w, h, xx, yy, cc);
                    if idx <= bi < idx + 4 {
                        assert((yy * w + xx) * 4 + cc == (py * w + px) * 4 + (bi - idx));
                        assert(yy * w + xx == py * w + px);
                        lemma_pixel_base_injective(w, h, xx, yy, px as int, py as int);
                        assert(cc == bi - idx);
                        assert(rect_covers(w, h, rect, xx, yy));
                        assert(before[bi] == orig[bi]);
                        lemma_fill_rect_at(orig, w, h, rect, color, xx, yy, cc);
                        if opaque {
                            lemma_blend_opaque(spec_src_channel(color, cc), orig[bi]);
                        }
                    }
                }
            }
            px += 1;
        }
        py += 1;
    }
    proof {
        assert forall|i: int| 0 <= i < buf@.len() implies buf@[i] == fill[i] by {
            if w == 0 {
                assert(w * h * 4 == 0) by (nonlinear_arith)
                    requires
                        w == 0,
                ;
            }
            lemma_byte_index_decode(w, h, i);
            let q = i / 4;
            let xx = q % (w as int);
            let yy = q / (w as int);
            let cc = i % 4;
            if rect_covers(w, h, rect, xx, yy) {
                assert(yy < py);
            } else {
                lemma_fill_rect_at(orig, w, h, rect, color, xx, yy, cc);
            }
        };
        assert(buf@ =~= fill);
    }
}

/// Blits a premultiplied RGBA texture into the buffer at an integer pixel
/// offset, clipped to the surface. When every texture pixel is fully opaque a
/// direct-copy fast path runs; otherwise every pixel is alpha-blended. Both
/// paths meet [`spec_fill_texture`].
pub fn fill_texture(buf: &mut Vec<u8>, buf_width: u32, buf_height: u32, x: u32, y: u32, texture: &BorrowedBuffer<'_>)
    requires
        old(buf).len() == buf_width * buf_height * 4,
        texture.wf(),
        texture_premultiplied(texture.bytes_spec()),
    ensures
        final(buf)@ == spec_fill_texture(
            old(buf)@,
            buf_width,
            buf_height,
            x,
            y,
            texture.bytes_spec(),
            texture.width_spec(),
            texture.height_spec(),
        ),
{
    let ghost orig = buf@;
    let ghost tex = texture.bytes_spec();
    let ghost fill = spec_fill_texture(
        buf@,
        buf_width,
        buf_height,
        x,
        y,
        texture.bytes_spec(),
        texture.width_spec(),
        texture.height_spec(),
    );
    let w = buf_width;
    let h = buf_height;
    let tw = texture.width();
    let th = texture.height();
    let cw: u32 = if x < w {
        min_u32(tw, w - x)
    } else {
        0
    };
    let chh: u32 = if y < h {
        min_u32(th, h - y)
    } else {
        0
    };
    let opaque = texture.all_opaque();
    let mut ty: u32 = 0;
    while ty < chh
        invariant
            ty <= chh,
            x < w ==> cw == clip_len(tw, w, x),
            x >= w ==> cw == 0,
            y < h ==> chh == clip_len(th, h, y),
            y >= h ==> chh == 0,
            cw <= tw,
            chh <= th,
            cw > 0 ==> x + cw <= w,
            chh > 0 ==> y + chh <= h,
            tw == texture.width_spec(),
            th == texture.height_spec(),
            tex == texture.bytes_spec(),
            texture.wf(),
            texture_premultiplied(tex),
            opaque ==> all_pixels_opaque(tex),
            buf.len() == orig.len(),
            orig.len() == w * h * 4,
            fill == spec_fill_texture(orig, w, h, x, y, tex, tw, th),
            forall|xx: int, yy: int, cc: int|
                #![trigger byte_index(w, xx, yy, cc)]
                0 <= xx < w && 0 <= yy < h && 0 <= cc < 4 ==> buf@[byte_index(w, xx, yy, cc)] == (
                if blit_covers(x, y, tw, th, xx, yy) && yy < y + ty {
                    fill[byte_index(w, xx, yy, cc)]
                } else {
                    orig[byte_index(w, xx, yy, cc)]
                }),
        decreases chh - ty,
    {
        let mut tx: u32 = 0;
        while tx < cw
            invariant
                tx <= cw,
                ty < chh,
                x < w ==> cw == clip_len(tw, w, x),
                x >= w ==> cw == 0,
                y < h ==> chh == clip_len(th, h, y),
                y >= h ==> chh == 0,
                cw <= tw,
                chh <= th,
                cw > 0 ==> x + cw <= w,
                chh > 0 ==> y + chh <= h,
                tw == texture.width_spec(),
                th == texture.height_spec(),
                tex == texture.bytes_spec(),
                texture.wf(),
                texture_premultiplied(tex),
                opaque ==> all_pixels_opaque(tex),
                buf.len() == orig.len(),
                orig.len() == w * h * 4,
                fill == spec_fill_texture(orig, w, h, x, y, tex, tw, th),
                forall|xx: int, yy: int, cc: int|
                    #![trigger byte_index(w, xx, yy, cc)]
                    0 <= xx < w && 0 <= yy < h && 0 <= cc < 4 ==> buf@[byte_index(w, xx, yy, cc)] == (
                    if blit_covers(x, y, tw, th, xx, yy) && (yy < y + ty || (yy == y + ty && xx < x
                        + tx)) {
                        fill[byte_index(w, xx, yy, cc)]
                    } else {
                        orig[byte_index(w, xx, yy, cc)]
                    }),
            decreases cw - tx,
        {
            let px = x + tx;
            let py = y + ty;
            proof {
                lemma_byte_index_encode(w, h, px as int, py as int, 3);
                lemma_byte_index_encode(tw, th, tx as int, ty as int, 3);
            }
            let idx: usize = ((py as usize) * (w as usize) + (px as usize)) * 4;
            let base: usize = ((ty as usize) * (tw as usize) + (tx as usize)) * 4;
            let tb = texture.byte(base + 2);
            let tg = texture.byte(base + 1);
            let tr = texture.byte(base);
            let ta = texture.byte(base + 3);
            proof {
                assert(tex[4 * ((ty as int) * tw + (tx as int))] <= tex[4 * ((ty as int) * tw + (tx as int))
                    + 3]);
                assert(4 * ((ty as int) * tw + (tx as int)) == base as int);
            }
            let ghost before = buf@;
            if opaque {
                proof {
                    assert(pixel_alpha_opaque(tex, (ty as int) * tw + (tx as int)));
                }
                write4_at(buf, idx, tb, tg, tr, ta);
            } else {
                blend_at(buf, idx, tb, tg, tr, ta);
            }
            proof {
                assert forall|xx: int, yy: int, cc: int|
                    0 <= xx < w && 0 <= yy < h && 0 <= cc < 4 implies buf@[#[trigger] byte_index(
                    w,
                    xx,
                    yy,
                    cc,
                )] == (if blit_covers(x, y, tw, th, xx, yy) && (yy < y + ty || (yy == y + ty && xx
                    < x + tx + 1)) {
                    fill[byte_index(w, xx, yy, cc)]
                } else {
                    orig[byte_index(w, xx, yy, cc)]
                }) by {
                    let bi = byte_index(w, xx, yy, cc);
                    lemma_byte_index_encode(w, h, xx, yy, cc);
                    if idx <= bi < idx + 4 {
                        assert((yy * w + xx) * 4 + cc == (py * w + px) * 4 + (bi - idx));
                        assert(yy * w + xx == py * w + px);
                        lemma_pixel_base_injective(w, h, xx, yy, px as int, py as int);
                        assert(cc == bi - idx);
                        assert(blit_covers(x, y, tw, th, xx, yy));
                        assert(before[bi] == orig[bi]);
                        lemma_fill_texture_at(orig, w, h, x, y, tex, tw, th, xx, yy, cc);
                        if opaque {
                            assert(ta == 255);
                            lemma_blend_opaque(spec_tex_src(tex, base as int, cc), orig[bi]);
                        }
                    }
                }
            }
            tx += 1;
        }
        ty += 1;
    }
    proof {
        assert forall|i: int| 0 <= i < buf@.len() implies buf@[i] == fill[i] by {
            if w == 0 {
                assert(w * h * 4 == 0) by (nonlinear_arith)
                    requires
                        w == 0,
                ;
            }
            lemma_byte_index_decode(w, h, i);
            let q = i / 4;
            let xx = q % (w as int);
            let yy = q / (w as int);
            let cc = i % 4;
            lemma_fill_texture_at(orig, w, h, x, y, tex, tw, th, xx, yy, cc);
            if blit_covers(x, y, tw, th, xx, yy) {
                assert(yy < y + chh);
            }
        };
        assert(buf@ =~= fill);
    }
}

/// Whether the pixel numbered `p` of the texture bytes is fully opaque.
pub open spec fn pixel_alpha_opaque(tex: Seq<u8>, p: int) -> bool {
    tex[4 * p + 3] == 255
}

/// Whether every pixel of the texture bytes is fully opaque.
pub open spec fn all_pixels_opaque(tex: Seq<u8>) -> bool {
    forall|p: int| 0 <= p && 4 * p + 3 < tex.len() ==> #[trigger] pixel_alpha_opaque(tex, p)
}

/// Zeroes every byte of the buffer.
pub fn clear_bytes(buf: &mut Vec<u8>)
    ensures
        final(buf).len() == old(buf).len(),
        forall|i: int| 0 <= i < final(buf).len() ==> final(buf)@[i] == 0u8,
{
    let mut i: usize = 0;
    while i < buf.len()
        invariant
            i <= buf.len(),
            buf.len() == old(buf).len(),
            forall|j: int| 0 <= j < i ==> buf@[j] == 0u8,
        decreases buf.len() - i,
    {
        buf.set(i, 0);
        i += 1;
    }
}

/// A raw byte render target wrapping a frame buffer taken by value, in BGRA
/// pixel order.
pub struct RenderBuffer {
    pub buffer: Vec<u8>,
    pub width: u32,
    pub height: u32,
}

impl RenderBuffer {
    #[verifier::inline]
    pub open spec fn buffer_spec(&self) -> Seq<u8> {
        self.buffer@
    }

    #[verifier::inline]
    pub open spec fn w_spec(&self) -> u32 {
        self.width
    }

    #[verifier::inline]
    pub open spec fn h_spec(&self) -> u32 {
        self.height
    }

    pub open spec fn wf(&self) -> bool {
        self.buffer@.len() == self.width * self.height * 4
    }

    pub fn from_bytes(buffer: Vec<u8>, width: u32, height: u32) -> (r: Self)
        requires
            buffer@.len() == width * height * 4,
        ensures
            r == (RenderBuffer { buffer, width, height }),
            r.wf(),
    {
        RenderBuffer { buffer, width, height }
    }

    pub fn clear(&mut self)
        ensures
            final(self).width == old(self).width,
            final(self).height == old(self).height,
            final(self).buffer@.len() == old(self).buffer@.len(),
            forall|i: int| 0 <= i < final(self).buffer@.len() ==> final(self).buffer@[i] == 0u8,
    {
        clear_bytes(&mut self.buffer);
    }

    pub fn fill_rect_impl(&mut self, rect: Rect, color: Color)
        requires
            old(self).wf(),
            color.premultiplied(),
        ensures
            final(self).width == old(self).width,
            final(self).height == old(self).height,
            final(self).buffer@ == spec_fill_rect(
                old(self).buffer@,
                old(self).width,
                old(self).height,
                rect,
                color,
            ),
    {
        fill_rect(&mut self.buffer, self.width, self.height, rect, color);
    }

    pub fn fill_texture_impl(&mut self, x: u32, y: u32, texture: BorrowedBuffer<'_>)
        requires
            old(self).wf(),
            texture.wf(),
            texture_premultiplied(texture.bytes_spec()),
        ensures
            final(self).width == old(self).width,
            final(self).height == old(self).height,
            final(self).buffer@ == spec_fill_texture(
                old(self).buffer@,
                old(self).width,
                old(self).height,
                x,
                y,
                texture.bytes_spec(),
                texture.width_spec(),
                texture.height_spec(),
            ),
    {
        fill_texture(&mut self.buffer, self.width, self.height, x, y, &texture);
    }

    pub fn bytes_slice(&self) -> (r: &[u8])
        ensures
            r@ == self.buffer@,
    {
        self.buffer.as_slice()
    }
}

/// A render target that owns its byte buffer, in BGRA pixel order; the
/// headless counterpart of [`RenderBuffer`].
pub struct OnwedBuffer {
    buffer: Vec<u8>,
    width: u32,
    height: u32,
}

impl OnwedBuffer {
    pub closed spec fn buffer_spec(&self) -> Seq<u8> {
        self.buffer@
    }

    pub closed spec fn w_spec(&self) -> u32 {
        self.width
    }

    pub closed spec fn h_spec(&self) -> u32 {
        self.height
    }

    pub open spec fn wf(&self) -> bool {
        self.buffer_spec().len() == self.w_spec() * self.h_spec() * 4
    }

    pub fn new(width: u32, height: u32) -> (r: Self)
        requires
            width * height * 4 <= usize::MAX,
        ensures
            r.wf(),
            r.w_spec() == width,
            r.h_spec() == height,
            forall|i: int| 0 <= i < r.buffer_spec().len() ==> r.buffer_spec()[i] == 0u8,
    {
        proof {
            assert((width as usize) * (height as usize) * 4 == width * height * 4);
        }
        let n: usize = (width as usize) * (height as usize) * 4;
        let mut buffer: Vec<u8> = Vec::new();
        while buffer.len() < n
            invariant
                buffer.len() <= n,
                forall|i: int| 0 <= i < buffer.len() ==> buffer@[i] == 0u8,
            decreases n - buffer.len(),
    {
            buffer.push(0);
        }
        OnwedBuffer { buffer, width, height }
    }

    pub fn bytes(&self) -> (r: &[u8])
        ensures
            r@ == self.buffer_spec(),
    {
        self.buffer.as_slice()
    }

    pub fn fill_rect_impl(&mut self, rect: Rect, color: Color)
        requires
            old(self).wf(),
            color.premultiplied(),
        ensures
            final(self).w_spec() == old(self).w_spec(),
            final(self).h_spec() == old(self).h_spec(),
            final(self).buffer_spec() == spec_fill_rect(
                old(self).buffer_spec(),
                old(self).w_spec(),
                old(self).h_spec(),
                rect,
                color,
            ),
    {
        fill_rect(&mut self.buffer, self.width, self.height, rect, color);
    }

    pub fn fill_texture_impl(&mut self, x: u32, y: u32, texture: BorrowedBuffer<'_>)
        requires
            old(self).wf(),
            texture.wf(),
            texture_premultiplied(texture.bytes_spec()),
        ensures
            final(self).w_spec() == old(self).w_spec(),
            final(self).h_spec() == old(self).h_spec(),
            final(self).buffer_spec() == spec_fill_texture(
                old(self).buffer_spec(),
                old(self).w_spec(),
                old(self).h_spec(),
                x,
                y,
                texture.bytes_spec(),
                texture.width_spec(),
                texture.height_spec(),
            ),
    {
        fill_texture(&mut self.buffer, self.width, self.height, x, y, &texture);
    }
}

/// A read-only view of texture bytes (a glyph or image bitmap) in RGBA pixel
/// order.
pub struct BorrowedBuffer<'a> {
    buffer: &'a [u8],
    width: u32,
    height: u32,
}

impl<'a> BorrowedBuffer<'a> {
    pub closed spec fn bytes_spec(&self) -> Seq<u8> {
        self.buffer@
    }

    pub closed spec fn width_spec(&self) -> u32 {
        self.width
    }

    pub closed spec fn height_spec(&self) -> u32 {
        self.height
    }

    pub open spec fn wf(&self) -> bool {
        &&& self.bytes_spec().len() == self.width_spec() * self.height_spec() * 4
        &&& self.width_spec() * self.height_spec() * 4 <= usize::MAX
    }

    pub fn from_bytes(buffer: &'a [u8], width: u32, height: u32) -> (r: Self)
        requires
            buffer@.len() == width * height * 4,
        ensures
            r.bytes_spec() == buffer@,
            r.width_spec() == width,
            r.height_spec() == height,
            r.wf(),
    {
        let n: usize = buffer.len();
        assert(n == width * height * 4);
        BorrowedBuffer { buffer, width, height }
    }

    pub fn width(&self) -> (r: u32)
        ensures
            r == self.width_spec(),
    {
        self.width
    }

    pub fn height(&self) -> (r: u32)
        ensures
            r == self.height_spec(),
    {
        self.height
    }

    /// One byte of the texture.
    pub fn byte(&self, i: usize) -> (r: u8)
        requires
            i < self.bytes_spec().len(),
        ensures
            r == self.bytes_spec()[i as int],
    {
        *vstd::slice::slice_index_get(self.buffer, i)
    }

    /// Whether every pixel of the texture is fully opaque, the condition for
    /// the direct-copy blit fast path.
    pub fn all_opaque(&self) -> (r: bool)
        ensures
            r == all_pixels_opaque(self.bytes_spec()),
    {
        let len = self.buffer.len();
        proof {
            vstd::arithmetic::div_mod::lemma_fundamental_div_mod(len as int, 4);
            vstd::arithmetic::div_mod::lemma_mod_bound(len as int, 4);
        }
        let pixels = len / 4;
        let mut p: usize = 0;
        while p < pixels
            invariant
                p <= pixels,
                4 * pixels <= len,
                len == self.bytes_spec().len(),
                forall|q: int| 0 <= q < p ==> #[trigger] pixel_alpha_opaque(self.bytes_spec(), q),
            decreases pixels - p,
        {
            if *vstd::slice::slice_index_get(self.buffer, 4 * p + 3) != 255 {
                assert(!pixel_alpha_opaque(self.bytes_spec(), p as int));
                return false;
            }
            assert(pixel_alpha_opaque(self.bytes_spec(), p as int));
            p += 1;
        }
        proof {
            vstd::arithmetic::div_mod::lemma_fundamental_div_mod(len as int, 4);
            vstd::arithmetic::div_mod::lemma_mod_bound(len as int, 4);
        }
        assert forall|q: int| 0 <= q && 4 * q + 3 < self.bytes_spec().len() implies #[trigger] pixel_alpha_opaque(
            self.bytes_spec(),
            q,
        ) by {
            assert(q < pixels);
        }
        true
    }
}

} // verus!
