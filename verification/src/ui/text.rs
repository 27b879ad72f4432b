//! Text as a widget: a pre-shaped sequence of positioned glyphs plus the
//! glyph cache that memoizes rasterized, colorized bitmaps.
//!
//! Shaping itself (turning a string and font into glyph ids, pen positions
//! and rasterized images) is the job of an external text-shaping collaborator
//! outside this crate; it hands in plain values: [`PlacedGlyph`]s with their
//! [`GlyphImage`]s and per-line [`RunMetrics`]. This module owns everything
//! after that point: the intrinsic-size scan over line metrics, the
//! colorization of a rasterized glyph against its resolved color, the
//! process-lifetime cache keyed by glyph identity, and the draw loop.

use vstd::prelude::*;
use vstd::arithmetic::div_mod::lemma_fundamental_div_mod_converse;
use crate::render::DrawHandle;
use crate::ui::DynWidget;
use crate::ui::Widget;
use crate::render::buffer::BorrowedBuffer;
use crate::render::buffer::spec_fill_texture;
use crate::render::buffer::texture_premultiplied;
use crate::ui::color::Color;
use crate::ui::color::lemma_premultiply_premultiplied;
use crate::ui::color::lemma_premultiply_with_premultiplied;
use crate::ui::math::UVec2;
use crate::ui::math::sat_add;

verus! {

broadcast use vstd::seq::axiom_seq_index_decreases;

/// The identity of one rasterized glyph shape: font, glyph, font size bits
/// and sub-pixel quantization. The key deliberately carries no color: the
/// first color a glyph is drawn with is the one that stays cached.
#[derive(Clone, Copy, Debug, PartialEq, Eq, Structural)]
pub struct GlyphKey {
    pub font_id: u64,
    pub glyph_id: u16,
    pub size_bits: u32,
    pub x_bin: u8,
    pub y_bin: u8,
    pub flags: u32,
}

/// A rasterized, not yet colorized glyph image from the shaping collaborator:
/// either an 8-bit alpha mask (one byte per pixel) or a 32-bit straight-alpha
/// RGBA bitmap (emoji and other colored glyphs), with its placement offset.
pub struct GlyphImage {
    pub width: u32,
    pub height: u32,
    pub left: i32,
    pub top: i32,
    pub is_mask: bool,
    pub data: Vec<u8>,
}

impl GlyphImage {
    /// The pixel data matches the declared dimensions.
    pub open spec fn wf(&self) -> bool {
        &&& self.width * self.height * 4 <= usize::MAX
        &&& if self.is_mask {
            self.data@.len() == self.width * self.height
        } else {
            self.data@.len() == self.width * self.height * 4
        }
    }
}

/// One glyph as shaped: its identity, pen position, line baseline, optional
/// per-glyph color, and the rasterized image (absent where rasterization
/// found nothing to draw; such glyphs are skipped silently at render time).
pub struct PlacedGlyph {
    pub key: GlyphKey,
    pub x: i32,
    pub y: i32,
    pub line_y: i32,
    pub color: Option<Color>,
    pub image: Option<GlyphImage>,
}

impl PlacedGlyph {
    /// The color this glyph resolves to: its own, or opaque white.
    pub open spec fn spec_color(&self) -> Color {
        match self.color {
            Some(c) => c,
            None => Color { r: 255u8, g: 255u8, b: 255u8, a: 255u8 },
        }
    }

    /// The image, if any, matches its dimensions, and the resolved color is
    /// premultiplied, so colorized textures stay premultiplied.
    pub open spec fn wf(&self) -> bool {
        &&& self.spec_color().premultiplied()
        &&& match self.image {
            Some(ref img) => img.wf(),
            None => true,
        }
    }
}

/// The line metrics the shaping collaborator reports for one layout run.
/// There is no direct "used size" accessor on the collaborator, so the
/// intrinsic size of shaped text is scanned from these.
#[derive(Clone, Copy, Debug, PartialEq, Eq, Structural)]
pub struct RunMetrics {
    pub line_top: u32,
    pub line_height: u32,
    pub line_w: u32,
}

/// The intrinsic size of the runs seen so far: the widest line, and the
/// lowest line bottom (top plus height, saturating).
pub open spec fn spec_intrinsic_size(runs: Seq<RunMetrics>) -> UVec2
    decreases runs.len(),
{
    if runs.len() == 0 {
        UVec2 { x: 0u32, y: 0u32 }
    } else {
        let rest = spec_intrinsic_size(runs.drop_last());
        let last = runs.last();
        UVec2 {
            x: if rest.x >= last.line_w {
                rest.x
            } else {
                last.line_w
            },
            y: if rest.y >= sat_add(last.line_top, last.line_height) {
                rest.y
            } else {
                sat_add(last.line_top, last.line_height)
            },
        }
    }
}

/// Scans the reported line metrics for the size the shaped text takes: the
/// maximum line width, and the maximum of line top plus line height.
pub fn intrinsic_size(runs: &Vec<RunMetrics>) -> (r: UVec2)
    ensures
        r == spec_intrinsic_size(runs@),
{
    let mut width: u32 = 0;
    let mut height: u32 = 0;
    let mut i: usize = 0;
    while i < runs.len()
        invariant
            i <= runs.len(),
            (UVec2 { x: width, y: height }) == spec_intrinsic_size(runs@.subrange(0, i as int)),
        decreases runs.len() - i,
    {
        let run = runs[i];
        let bottom: u32 = if run.line_top <= u32::MAX - run.line_height {
            run.line_top + run.line_height
        } else {
            u32::MAX
        };
        if run.line_w > width {
            width = run.line_w;
        }
        if bottom > height {
            height = bottom;
        }
        proof {
            assert(runs@.subrange(0, i + 1).drop_last() == runs@.subrange(0, i as int));
            assert(runs@.subrange(0, i + 1).last() == runs@[i as int]);
        }
        i += 1;
    }
    proof {
        assert(runs@.subrange(0, runs@.len() as int) == runs@);
    }
    UVec2 { x: width, y: height }
}

/// A colorized, premultiplied glyph bitmap in RGBA order, with its placement
/// offset, ready to blit.
pub struct CachedGlyph {
    pub texture: Vec<u8>,
    pub width: u32,
    pub height: u32,
    pub left: i32,
    pub top: i32,
}

impl CachedGlyph {
    pub open spec fn wf(&self) -> bool {
        &&& self.texture@.len() == self.width * self.height * 4
        &&& self.width * self.height * 4 <= usize::MAX
        &&& texture_premultiplied(self.texture@)
    }
}

/// The colorized texture bytes of a glyph image: for an alpha mask, the color
/// premultiplied by each mask byte; for a color bitmap, each pixel
/// premultiplied by its own alpha. RGBA order either way.
pub open spec fn spec_glyph_bytes(img: GlyphImage, color: Color) -> Seq<u8> {
    Seq::new(
        (img.width * img.height * 4) as nat,
        |j: int|
            {
                let p = j / 4;
                let ch = j % 4;
                let pc = if img.is_mask {
                    color.spec_premultiply_with(img.data@[p])
                } else {
                    Color {
                        r: img.data@[4 * p],
                        g: img.data@[4 * p + 1],
                        b: img.data@[4 * p + 2],
                        a: img.data@[4 * p + 3],
                    }.spec_premultiply()
                };
                if ch == 0 {
                    pc.r
                } else if ch == 1 {
                    pc.g
                } else if ch == 2 {
                    pc.b
                } else {
                    pc.a
                }
            },
    )
}

/// The mathematical image of a cached glyph: its texture bytes and placement.
pub struct GlyphTexture {
    pub bytes: Seq<u8>,
    pub width: u32,
    pub height: u32,
    pub left: i32,
    pub top: i32,
}

impl CachedGlyph {
    /// The cached glyph as its mathematical image.
    pub open spec fn model(&self) -> GlyphTexture {
        GlyphTexture {
            bytes: self.texture@,
            width: self.width,
            height: self.height,
            left: self.left,
            top: self.top,
        }
    }
}

impl GlyphTexture {
    pub open spec fn wf(&self) -> bool {
        &&& self.bytes.len() == self.width * self.height * 4
        &&& self.width * self.height * 4 <= usize::MAX
        &&& texture_premultiplied(self.bytes)
    }
}

/// What the cache comes to hold for a glyph: nothing for an absent or empty
/// image, else the colorized bitmap with the image's placement.
pub open spec fn spec_converted(img: Option<GlyphImage>, color: Color) -> Option<GlyphTexture> {
    match img {
        None => None,
        Some(img) => if img.width * img.height == 0 {
            None
        } else {
            Some(
                GlyphTexture {
                    bytes: spec_glyph_bytes(img, color),
                    width: img.width,
                    height: img.height,
                    left: img.left,
                    top: img.top,
                },
            )
        },
    }
}

/// Colorizes a rasterized glyph against its resolved color: an alpha mask is
/// premultiplied against the color, a color bitmap against its own alpha.
/// An absent or zero-sized image yields nothing (the glyph will be skipped).
pub fn convert_image(image: &Option<GlyphImage>, color: Color) -> (r: Option<CachedGlyph>)
    requires
        match image {
            Some(ref img) => img.wf(),
            None => true,
        },
        color.premultiplied(),
    ensures
        match (r, spec_converted(*image, color)) {
            (None, None) => true,
            (Some(cg), Some(gt)) => cg.texture@ == gt.bytes && cg.width == gt.width && cg.height
                == gt.height && cg.left == gt.left && cg.top == gt.top && cg.wf(),
            _ => false,
        },
{
    let img = match image {
        None => {
            return None;
        },
        Some(img) => img,
    };
    proof {
        assert(*image == Some(*img));
        if img.width * img.height == 0 {
            assert(img.width * img.height * 4 == 0) by (nonlinear_arith)
                requires
                    img.width * img.height == 0,
            ;
        }
        assert((img.width * img.height) * 4 == img.width * img.height * 4) by (nonlinear_arith);
        assert(img.width as usize * img.height as usize == img.width * img.height);
    }
    let glyph_size: usize = (img.width as usize) * (img.height as usize);
    if glyph_size == 0 {
        return None;
    }
    let ghost target = spec_glyph_bytes(*img, color);
    let mut buffer: Vec<u8> = Vec::new();
    let mut p: usize = 0;
    while p < glyph_size
        invariant
            p <= glyph_size,
            glyph_size == img.width * img.height,
            img.width * img.height * 4 <= usize::MAX,
            img.wf(),
            color.premultiplied(),
            target == spec_glyph_bytes(*img, color),
            buffer@.len() == 4 * p,
            forall|j: int| 0 <= j < 4 * p ==> buffer@[j] == target[j],
        decreases glyph_size - p,
    {
        let pc: Color = if img.is_mask {
            color.premultiply_with(img.data[p])
        } else {
            Color::from_rgba(
                img.data[4 * p],
                img.data[4 * p + 1],
                img.data[4 * p + 2],
                img.data[4 * p + 3],
            ).premultiply()
        };
        proof {
            lemma_fundamental_div_mod_converse(4 * (p as int), 4, p as int, 0);
            lemma_fundamental_div_mod_converse(4 * (p as int) + 1, 4, p as int, 1);
            lemma_fundamental_div_mod_converse(4 * (p as int) + 2, 4, p as int, 2);
            lemma_fundamental_div_mod_converse(4 * (p as int) + 3, 4, p as int, 3);
        }
        buffer.push(pc.r);
        buffer.push(pc.g);
        buffer.push(pc.b);
        buffer.push(pc.a);
        p += 1;
    }
    proof {
        assert(buffer@ =~= target);
        assert(buffer@ == spec_glyph_bytes(*img, color));
        assert forall|q: int| 0 <= q && 4 * q + 3 < buffer@.len() implies (#[trigger] buffer@[4 * q]
            <= buffer@[4 * q + 3] && buffer@[4 * q + 1] <= buffer@[4 * q + 3] && buffer@[4 * q + 2]
            <= buffer@[4 * q + 3]) by {
            lemma_fundamental_div_mod_converse(4 * q, 4, q, 0);
            lemma_fundamental_div_mod_converse(4 * q + 1, 4, q, 1);
            lemma_fundamental_div_mod_converse(4 * q + 2, 4, q, 2);
            lemma_fundamental_div_mod_converse(4 * q + 3, 4, q, 3);
            if img.is_mask {
                lemma_premultiply_with_premultiplied(color, img.data@[q]);
            } else {
                lemma_premultiply_premultiplied(
                    Color {
                        r: img.data@[4 * q],
                        g: img.data@[4 * q + 1],
                        b: img.data@[4 * q + 2],
                        a: img.data@[4 * q + 3],
                    },
                );
            }
        }
    }
    let result = CachedGlyph {
        texture: buffer,
        width: img.width,
        height: img.height,
        left: img.left,
        top: img.top,
    };
    proof {
        assert(img.width * img.height != 0);
        assert(spec_converted(*image, color) == Some(
            GlyphTexture {
                bytes: spec_glyph_bytes(*img, color),
                width: img.width,
                height: img.height,
                left: img.left,
                top: img.top,
            },
        ));
        assert(result.texture@ == spec_glyph_bytes(*img, color));
        assert(result.wf());
    }
    Some(result)
}

/// The mathematical image of one cache slot.
pub open spec fn slot_model(v: Option<CachedGlyph>) -> Option<GlyphTexture> {
    match v {
        None => None,
        Some(cg) => Some(cg.model()),
    }
}

/// Whether one cache slot is well-formed.
pub open spec fn slot_wf(v: Option<CachedGlyph>) -> bool {
    match v {
        None => true,
        Some(cg) => cg.wf(),
    }
}

/// The map a sequence of cache entries denotes, later entries overriding
/// earlier ones (well-formed caches never repeat a key).
pub open spec fn entries_map(s: Seq<(GlyphKey, Option<CachedGlyph>)>) -> Map<
    GlyphKey,
    Option<GlyphTexture>,
>
    decreases s.len(),
{
    if s.len() == 0 {
        Map::empty()
    } else {
        entries_map(s.drop_last()).insert(s.last().0, slot_model(s.last().1))
    }
}

/// No key occurs twice in the entries.
pub open spec fn entries_unique(s: Seq<(GlyphKey, Option<CachedGlyph>)>) -> bool {
    forall|i: int, j: int| 0 <= i < j < s.len() ==> (#[trigger] s[i]).0 != (#[trigger] s[j]).0
}

/// A key in the entries denotes its slot in the map.
proof fn lemma_entries_map_index(s: Seq<(GlyphKey, Option<CachedGlyph>)>, i: int)
    requires
        0 <= i < s.len(),
        entries_unique(s),
    ensures
        entries_map(s).contains_key(s[i].0),
        entries_map(s)[s[i].0] == slot_model(s[i].1),
    decreases s.len(),
{
    if i == s.len() - 1 {
    } else {
        assert(entries_unique(s.drop_last()));
        lemma_entries_map_index(s.drop_last(), i);
        assert(s.drop_last()[i] == s[i]);
        assert(s.last().0 != s[i].0);
    }
}

/// A key absent from the entries is absent from the map.
proof fn lemma_entries_map_absent(s: Seq<(GlyphKey, Option<CachedGlyph>)>, key: GlyphKey)
    requires
        forall|i: int| 0 <= i < s.len() ==> (#[trigger] s[i]).0 != key,
    ensures
        !entries_map(s).contains_key(key),
    decreases s.len(),
{
    if s.len() > 0 {
        lemma_entries_map_absent(s.drop_last(), key);
    }
}

/// The process-lifetime cache of colorized glyph bitmaps, keyed by glyph
/// identity. Entries are created lazily on the first draw of a glyph identity
/// and never evicted; because the key carries no color, the first color wins.
/// Lookup scans the entries linearly, which suits the bounded population of
/// distinct glyph shapes a short-lived launcher draws.
pub struct GlyphCache {
    entries: Vec<(GlyphKey, Option<CachedGlyph>)>,
}

impl GlyphCache {
    /// The cache as a map from glyph identity to what is cached for it.
    pub closed spec fn contents(&self) -> Map<GlyphKey, Option<GlyphTexture>> {
        entries_map(self.entries@)
    }

    /// Keys are unique and every cached bitmap is well-formed.
    pub closed spec fn wf(&self) -> bool {
        &&& entries_unique(self.entries@)
        &&& forall|i: int| 0 <= i < self.entries@.len() ==> slot_wf((#[trigger] self.entries@[i]).1)
    }

    pub fn new() -> (r: Self)
        ensures
            r.wf(),
            r.contents() == Map::<GlyphKey, Option<GlyphTexture>>::empty(),
    {
        GlyphCache { entries: Vec::new() }
    }

    /// Looks a glyph identity up: a hit hands back the cached slot.
    pub fn lookup(&self, key: GlyphKey) -> (r: Option<&Option<CachedGlyph>>)
        requires
            self.wf(),
        ensures
            match r {
                Some(v) => self.contents().contains_key(key) && slot_model(*v) == self.contents()[key]
                    && slot_wf(*v),
                None => !self.contents().contains_key(key),
            },
    {
        let n = self.entries.len();
        let mut i: usize = 0;
        while i < n
            invariant
                i <= n,
                n == self.entries@.len(),
                self.wf(),
                forall|j: int| 0 <= j < i ==> (#[trigger] self.entries@[j]).0 != key,
            decreases n - i,
        {
            let e = &self.entries[i];
            if e.0.font_id == key.font_id && e.0.glyph_id == key.glyph_id && e.0.size_bits
                == key.size_bits && e.0.x_bin == key.x_bin && e.0.y_bin == key.y_bin && e.0.flags
                == key.flags {
                proof {
                    assert(self.entries@[i as int].0 == key);
                    lemma_entries_map_index(self.entries@, i as int);
                }
                return Some(&e.1);
            }
            i += 1;
        }
        proof {
            lemma_entries_map_absent(self.entries@, key);
        }
        None
    }

    /// Caches a slot for a glyph identity seen for the first time.
    pub fn insert(&mut self, key: GlyphKey, value: Option<CachedGlyph>)
        requires
            old(self).wf(),
            !old(self).contents().contains_key(key),
            slot_wf(value),
        ensures
            final(self).wf(),
            final(self).contents() == old(self).contents().insert(key, slot_model(value)),
    {
        proof {
            assert forall|i: int| 0 <= i < self.entries@.len() implies (#[trigger] self.entries@[i]).0
                != key by {
                if self.entries@[i].0 == key {
                    lemma_entries_map_index(self.entries@, i);
                }
            }
        }
        let ghost before = self.entries@;
        self.entries.push((key, value));
        proof {
            assert(self.entries@.drop_last() == before);
            assert(self.entries@.last() == (key, value));
        }
    }
}

/// The cache after the glyphs of one text are drawn, in order: each glyph
/// identity not yet cached gains the colorized form of its image; identities
/// already cached stay exactly as they were (the cached color wins).
pub open spec fn spec_text_cache(
    glyphs: Seq<PlacedGlyph>,
    cache: Map<GlyphKey, Option<GlyphTexture>>,
) -> Map<GlyphKey, Option<GlyphTexture>>
    decreases glyphs.len(),
{
    if glyphs.len() == 0 {
        cache
    } else {
        spec_glyph_step_cache(glyphs.last(), spec_text_cache(glyphs.drop_last(), cache))
    }
}

/// One glyph's effect on the cache.
pub open spec fn spec_glyph_step_cache(
    g: PlacedGlyph,
    cache: Map<GlyphKey, Option<GlyphTexture>>,
) -> Map<GlyphKey, Option<GlyphTexture>> {
    if cache.contains_key(g.key) {
        cache
    } else {
        cache.insert(g.key, spec_converted(g.image, g.spec_color()))
    }
}

/// The texture one glyph draws with: what its identity has in the cache, or
/// what it is about to put there.
pub open spec fn spec_glyph_texture(
    g: PlacedGlyph,
    cache: Map<GlyphKey, Option<GlyphTexture>>,
) -> Option<GlyphTexture> {
    if cache.contains_key(g.key) {
        cache[g.key]
    } else {
        spec_converted(g.image, g.spec_color())
    }
}

/// Clamp an unbounded coordinate into the `u32` range (the blit then clips it
/// against the surface).
pub open spec fn clamp_coord(v: int) -> u32 {
    if v > u32::MAX {
        u32::MAX
    } else {
        v as u32
    }
}

/// The buffer after one glyph is drawn at the widget origin `pos`: its
/// texture blitted at the pen position offset by the bitmap placement. A
/// glyph with nothing cached, or one that starts left of or above the
/// surface, draws nothing.
pub open spec fn spec_draw_glyph(
    g: PlacedGlyph,
    t: Option<GlyphTexture>,
    pos: UVec2,
    bytes: Seq<u8>,
    w: u32,
    h: u32,
) -> Seq<u8> {
    match t {
        None => bytes,
        Some(gt) => {
            let gx = pos.x + g.x + gt.left;
            let gy = pos.y + g.line_y + g.y - gt.top;
            if gx < 0 || gy < 0 {
                bytes
            } else {
                spec_fill_texture(bytes, w, h, clamp_coord(gx), clamp_coord(gy), gt.bytes, gt.width, gt.height)
            }
        },
    }
}

/// The buffer after the glyphs of one text are drawn in order at `pos`,
/// against the cache as it evolves.
pub open spec fn spec_text_bytes(
    glyphs: Seq<PlacedGlyph>,
    pos: UVec2,
    bytes: Seq<u8>,
    cache: Map<GlyphKey, Option<GlyphTexture>>,
    w: u32,
    h: u32,
) -> Seq<u8>
    decreases glyphs.len(),
{
    if glyphs.len() == 0 {
        bytes
    } else {
        let prev_bytes = spec_text_bytes(glyphs.drop_last(), pos, bytes, cache, w, h);
        let prev_cache = spec_text_cache(glyphs.drop_last(), cache);
        spec_draw_glyph(
            glyphs.last(),
            spec_glyph_texture(glyphs.last(), prev_cache),
            pos,
            prev_bytes,
            w,
            h,
        )
    }
}

/// A string of shaped text: the glyphs to draw, the intrinsic size scanned
/// from the line metrics, and the bounds the text was shaped against.
pub struct Text {
    pub glyphs: Vec<PlacedGlyph>,
    pub width: u32,
    pub height: u32,
    pub shaped_for: UVec2,
}

impl Text {
    /// Every glyph is well-formed.
    pub open spec fn wf(&self) -> bool {
        forall|i: int| 0 <= i < self.glyphs@.len() ==> (#[trigger] self.glyphs@[i]).wf()
    }

    /// Builds a text widget from what the shaping collaborator produced for
    /// the given bounds: the glyphs, and the per-line metrics the intrinsic
    /// size is scanned from.
    pub fn new(glyphs: Vec<PlacedGlyph>, runs: &Vec<RunMetrics>, shaped_for: UVec2) -> (r: Text)
        requires
            forall|i: int| 0 <= i < glyphs@.len() ==> (#[trigger] glyphs@[i]).wf(),
        ensures
            r.glyphs == glyphs,
            (UVec2 { x: r.width, y: r.height }) == spec_intrinsic_size(runs@),
            r.shaped_for == shaped_for,
            r.wf(),
    {
        let size = intrinsic_size(runs);
        Text { glyphs, width: size.x, height: size.y, shaped_for }
    }

    /// Whether the offered bounds differ from the bounds the text was shaped
    /// against, so the driver must re-shape; equal bounds reuse the shaping.
    pub fn needs_reshape(&self, bounds: UVec2) -> (r: bool)
        ensures
            r == (bounds != self.shaped_for),
    {
        bounds.x != self.shaped_for.x || bounds.y != self.shaped_for.y
    }

    /// Draws every glyph at the widget origin: on a cache miss the glyph is
    /// colorized once and cached, on a hit the cached bitmap is reused
    /// whatever color it was cached with; glyphs without a bitmap are skipped
    /// silently.
    pub fn draw_glyphs(&self, pos: UVec2, cache: &mut GlyphCache, draw: &mut DrawHandle)
        requires
            self.wf(),
            old(cache).wf(),
            old(draw).surface_wf(),
        ensures
            final(cache).wf(),
            final(cache).contents() == spec_text_cache(self.glyphs@, old(cache).contents()),
            final(draw).surface_wf(),
            final(draw).width_spec() == old(draw).width_spec(),
            final(draw).height_spec() == old(draw).height_spec(),
            final(draw).bytes_spec() == spec_text_bytes(
                self.glyphs@,
                pos,
                old(draw).bytes_spec(),
                old(cache).contents(),
                old(draw).width_spec(),
                old(draw).height_spec(),
            ),
    {
        let ghost orig_cache = cache.contents();
        let ghost orig_bytes = draw.bytes_spec();
        let ghost w = draw.width_spec();
        let ghost h = draw.height_spec();
        let mut i: usize = 0;
        while i < self.glyphs.len()
            invariant
                i <= self.glyphs@.len(),
                self.wf(),
                cache.wf(),
                draw.surface_wf(),
                draw.width_spec() == w,
                draw.height_spec() == h,
                cache.contents() == spec_text_cache(self.glyphs@.subrange(0, i as int), orig_cache),
                draw.bytes_spec() == spec_text_bytes(
                    self.glyphs@.subrange(0, i as int),
                    pos,
                    orig_bytes,
                    orig_cache,
                    w,
                    h,
                ),
            decreases self.glyphs@.len() - i,
    {
            let g = &self.glyphs[i];
            proof {
                assert(self.glyphs@[i as int].wf());
                assert(self.glyphs@.subrange(0, i + 1).drop_last() == self.glyphs@.subrange(
                    0,
                    i as int,
                ));
                assert(self.glyphs@.subrange(0, i + 1).last() == self.glyphs@[i as int]);
            }
            match cache.lookup(g.key) {
                Some(slot) => {
                    match slot {
                        Some(cg) => {
                            draw_one_glyph(g, cg, pos, draw);
                        },
                        None => (),
                    }
                },
                None => {
                    let color = match g.color {
                        Some(c) => c,
                        None => Color::from_rgba(255, 255, 255, 255),
                    };
                    let computed = convert_image(&g.image, color);
                    match &computed {
                        Some(cg) => {
                            draw_one_glyph(g, cg, pos, draw);
                        },
                        None => (),
                    }
                    cache.insert(g.key, computed);
                },
            }
            i += 1;
        }
        proof {
            assert(self.glyphs@.subrange(0, self.glyphs@.len() as int) == self.glyphs@);
        }
    }
}

impl GlyphImage {
    /// Checks [`Self::wf`] executably.
    pub fn is_wf(&self) -> (r: bool)
        ensures
            r == self.wf(),
    {
        proof {
            assert((self.width as u64) * (self.height as u64) <= 0xffff_ffff_0000_0001u64)
                by (nonlinear_arith)
                requires
                    self.width <= u32::MAX,
                    self.height <= u32::MAX,
            ;
            assert((self.width as u64) * (self.height as u64) == self.width * self.height)
                by (nonlinear_arith);
            assert(self.width * self.height * 4 == (self.width * self.height) * 4)
                by (nonlinear_arith);
        }
        let pixels: u64 = (self.width as u64) * (self.height as u64);
        if pixels > u64::MAX / 4 {
            proof {
                assert(pixels * 4 > usize::MAX) by (nonlinear_arith)
                    requires
                        pixels > u64::MAX / 4,
                ;
            }
            return false;
        }
        let bytes: u64 = pixels * 4;
        if bytes > usize::MAX as u64 {
            return false;
        }
        if self.is_mask {
            self.data.len() as u64 == pixels
        } else {
            self.data.len() as u64 == bytes
        }
    }
}

impl PlacedGlyph {
    /// Checks [`Self::wf`] executably.
    pub fn is_wf(&self) -> (r: bool)
        ensures
            r == self.wf(),
    {
        let c = match self.color {
            Some(c) => c,
            None => Color { r: 255, g: 255, b: 255, a: 255 },
        };
        let color_ok = c.red() <= c.alpha() && c.green() <= c.alpha() && c.blue() <= c.alpha();
        let image_ok = match &self.image {
            Some(img) => img.is_wf(),
            None => true,
        };
        color_ok && image_ok
    }
}

impl Text {
    /// Checks [`Self::wf`] executably.
    pub fn is_wf(&self) -> (r: bool)
        ensures
            r == self.wf(),
    {
        let mut i: usize = 0;
        while i < self.glyphs.len()
            invariant
                i <= self.glyphs@.len(),
                forall|j: int| 0 <= j < i ==> (#[trigger] self.glyphs@[j]).wf(),
            decreases self.glyphs@.len() - i,
        {
            if !self.glyphs[i].is_wf() {
                return false;
            }
            i += 1;
        }
        true
    }
}

impl Widget for Text {
    open spec fn model(&self) -> DynWidget {
        DynWidget::Text(*self)
    }

    fn layout(&mut self, bounds: UVec2) -> (r: UVec2) {
        UVec2::new(self.width, self.height)
    }

    fn render(&self, pos: UVec2, cache: &mut GlyphCache, draw: &mut DrawHandle) {
        self.draw_glyphs(pos, cache, draw);
    }

    fn into_dyn(self) -> (r: DynWidget) {
        DynWidget::Text(self)
    }
}

/// Blits one cached glyph at the pen position offset by its placement.
fn draw_one_glyph(g: &PlacedGlyph, cg: &CachedGlyph, pos: UVec2, draw: &mut DrawHandle)
    requires
        cg.wf(),
        old(draw).surface_wf(),
    ensures
        final(draw).width_spec() == old(draw).width_spec(),
        final(draw).height_spec() == old(draw).height_spec(),
        final(draw).bytes_spec() == spec_draw_glyph(
            *g,
            Some(cg.model()),
            pos,
            old(draw).bytes_spec(),
            old(draw).width_spec(),
            old(draw).height_spec(),
        ),
{
    let gx: i64 = pos.x as i64 + g.x as i64 + cg.left as i64;
    let gy: i64 = pos.y as i64 + g.line_y as i64 + g.y as i64 - cg.top as i64;
    if gx < 0 || gy < 0 {
        return ;
    }
    let cx: u32 = if gx > u32::MAX as i64 {
        u32::MAX
    } else {
        gx as u32
    };
    let cy: u32 = if gy > u32::MAX as i64 {
        u32::MAX
    } else {
        gy as u32
    };
    let texture = BorrowedBuffer::from_bytes(cg.texture.as_slice(), cg.width, cg.height);
    draw.draw_texture(cx, cy, texture);
}

} // verus!
