//! The glyph cache of a font, and the widths of runs of text.

use fontdue::Font as Face;
use rustc_hash::{FxBuildHasher, FxHashMap};
use vstd::prelude::*;

use crate::error::Error;
use crate::graphics::Graphics;
use crate::texture::{Texture, TextureModel};
use crate::texture_atlas::{is_upload, pages_have_room, uploadable, Upload};

verus! {

#[verifier::external_type_specification]
#[verifier::external_body]
pub struct ExFace(Face);

#[verifier::external_type_specification]
#[verifier::external_body]
pub struct ExFxBuildHasher(FxBuildHasher);

/// Layout units in one pixel. Advances, kerning and the positions of placed
/// glyphs are whole numbers of layout units.
pub const UNITS_PER_PIXEL: i64 = 64;

/// What the rasterizer says of one glyph at one size: how far the pen moves
/// after it, in layout units, and the size and the vertical bearing of its
/// bitmap, in pixels.
#[derive(Clone, Copy, Debug, PartialEq, Eq, Structural)]
pub struct RasterMetrics {
    pub advance_width: i32,
    pub width: u32,
    pub height: u32,
    pub ymin: i32,
}

/// The pixels of a coverage bitmap: every texel is white, and its alpha is
/// the coverage.
pub open spec fn coverage_pixels(coverage: Seq<u8>) -> Seq<u8> {
    Seq::new(
        4 * coverage.len(),
        |i: int|
            if i % 4 == 3 {
                coverage[i / 4]
            } else {
                255u8
            },
    )
}

/// Turns one byte of coverage per texel into four bytes per texel: white,
/// with the coverage as alpha.
pub fn coverage_to_rgba(coverage: &[u8]) -> (pixels: Vec<u8>)
    ensures
        pixels@ == coverage_pixels(coverage@),
{
    let mut pixels: Vec<u8> = Vec::new();
    let mut i: usize = 0;
    while i < coverage.len()
        invariant
            i <= coverage@.len(),
            pixels@.len() == 4 * i,
            forall|k: int|
                0 <= k < 4 * i ==> #[trigger] pixels@[k] == coverage_pixels(coverage@)[k],
        decreases coverage@.len() - i,
    {
        pixels.push(255);
        pixels.push(255);
        pixels.push(255);
        pixels.push(coverage[i]);
        i += 1;
    }
    assert(pixels@ =~= coverage_pixels(coverage@));
    pixels
}

/// The key under which the glyph of `ch` at `size` is cached.
pub open spec fn glyph_key(ch: char, size: u32) -> u64 {
    (ch as u64 * 0x1_0000_0000 + size) as u64
}

fn key_for(ch: char, size: u32) -> (key: u64)
    ensures
        key == glyph_key(ch, size),
{
    (ch as u64) * 0x1_0000_0000 + (size as u64)
}

/// Names a loaded font by its place in the order of loading.
#[derive(Clone, Copy, Debug, PartialEq, Eq, Structural)]
pub struct FontHandle(u32);

impl FontHandle {
    /// The handle of the font loaded after `index` others.
    pub fn new(index: u32) -> (handle: FontHandle)
        ensures
            handle.index_spec() == index,
    {
        FontHandle(index)
    }

    pub closed spec fn index_spec(self) -> u32 {
        self.0
    }

    /// How many fonts were loaded before this one.
    #[verifier::when_used_as_spec(index_spec)]
    pub fn index(self) -> (index: u32)
        ensures
            index == self.index_spec(),
    {
        self.0
    }
}

/// A cached glyph: the texture that holds its bitmap, and its metrics.
pub type Glyph = (Texture, RasterMetrics);

/// The glyphs that a cache holds, by character and size.
pub type GlyphMap = Map<(char, u32), Glyph>;

/// The table behind a glyph cache: the hash map of `rustc_hash`, which is the
/// standard hash map with that crate's hasher.
pub type GlyphTable = FxHashMap<u64, Glyph>;

/// `get` of `rustc_hash::FxHashMap`. The map's hashers all start from the
/// same state, so equal keys hash alike: the table holds a key exactly when
/// it was inserted, and hands back a copy of the value that was inserted
/// with it.
#[verifier::external_body]
fn table_get(table: &GlyphTable, key: u64) -> (glyph: Option<Glyph>)
    ensures
        glyph == (if table@.contains_key(key) {
            Some(table@[key])
        } else {
            None
        }),
{
    table.get(&key).copied()
}

/// `insert` of `rustc_hash::FxHashMap`: afterwards the table maps `key` to
/// `glyph` and every other key to what it mapped to before.
#[verifier::external_body]
fn table_insert(table: &mut GlyphTable, key: u64, glyph: Glyph)
    ensures
        final(table)@ == old(table)@.insert(key, glyph),
{
    table.insert(key, glyph);
}

/// The cache after the glyph of `ch` at `size` has been asked for, when the
/// rasterizer would deliver `fresh`: a glyph that is cached stays, one that
/// is not is added.
pub open spec fn cache_after(cache: GlyphMap, ch: char, size: u32, fresh: Glyph) -> GlyphMap {
    if cache.contains_key((ch, size)) {
        cache
    } else {
        cache.insert((ch, size), fresh)
    }
}

/// The glyph that is handed out for `ch` at `size`, when the rasterizer
/// would deliver `fresh`: the cached one if there is one.
pub open spec fn glyph_after(cache: GlyphMap, ch: char, size: u32, fresh: Glyph) -> Glyph {
    if cache.contains_key((ch, size)) {
        cache[(ch, size)]
    } else {
        fresh
    }
}

/// What `Font::rasterize` hands back: the glyph, and, when the glyph was new
/// to the cache, the upload that the caller has to carry out with the
/// glyph's pixels.
#[derive(Debug)]
pub struct Rasterized {
    pub glyph: Glyph,
    pub upload: Option<(Upload, Vec<u8>)>,
}

/// A parsed font with the glyphs rasterized so far. A glyph enters the cache
/// the first time it is rasterized and is never changed or removed.
pub struct Font {
    font: Face,
    characters: GlyphTable,
}

impl View for Font {
    type V = GlyphMap;

    closed spec fn view(&self) -> GlyphMap {
        Map::new(
            |k: (char, u32)| self.characters@.contains_key(glyph_key(k.0, k.1)),
            |k: (char, u32)| self.characters@[glyph_key(k.0, k.1)],
        )
    }
}

impl Font {
    /// The parsed font.
    pub closed spec fn face(&self) -> Face {
        self.font
    }

    /// Makes a font of what the parser has made of a font file: a parsed
    /// font gets an empty cache, and the parser's words become the error.
    pub fn from_parsed(parsed: Result<Face, &'static str>) -> (r: Result<Font, Error>)
        ensures
            r is Ok <==> parsed is Ok,
            r matches Ok(font) ==> font@ == GlyphMap::empty() && font.face() == parsed->Ok_0,
            r matches Err(error) ==> error matches Error::FontError(message) && parsed
                == Err::<Face, &'static str>(message),
    {
        match parsed {
            Ok(font) => {
                let font = Font { font, characters: FxHashMap::default() };
                assert(font@ =~= GlyphMap::empty());
                Ok(font)
            },
            Err(message) => Err(Error::FontError(message)),
        }
    }

    /// The parsed font, for the calls that measure and rasterize.
    pub fn backend(&self) -> (face: &Face)
        ensures
            *face == self.face(),
    {
        &self.font
    }

    /// The cached glyph of `ch` at `size`, if it has been rasterized.
    pub fn cached(&self, ch: char, size: u32) -> (glyph: Option<Glyph>)
        ensures
            glyph == (if self@.contains_key((ch, size)) {
                Some(self@[(ch, size)])
            } else {
                None
            }),
    {
        table_get(&self.characters, key_for(ch, size))
    }

    /// The cached metrics of `ch` at `size`, if it has been rasterized. The
    /// atlas is not touched: for a glyph that is not cached the caller asks
    /// the rasterizer for the metrics alone.
    pub fn metrics(&self, ch: char, size: u32) -> (metrics: Option<RasterMetrics>)
        ensures
            metrics == (if self@.contains_key((ch, size)) {
                Some(self@[(ch, size)].1)
            } else {
                None
            }),
    {
        match self.cached(ch, size) {
            Some((_texture, metrics)) => Some(metrics),
            None => None,
        }
    }

    /// Hands out the glyph of `ch` at `size`. A cached glyph is handed out as
    /// it is, and neither the cache nor the atlas changes. Otherwise
    /// `metrics` and `coverage` are what the rasterizer has delivered for the
    /// glyph: the coverage becomes white pixels with the coverage as alpha,
    /// the atlas reserves room for them, and the glyph enters the cache.
    pub fn rasterize(
        &mut self,
        ch: char,
        size: u32,
        graphics: &mut Graphics,
        metrics: RasterMetrics,
        coverage: &[u8],
    ) -> (r: Rasterized)
        requires
            old(graphics).wf(),
            !old(self)@.contains_key((ch, size)) ==> {
                &&& pages_have_room(old(graphics)@.atlas)
                &&& uploadable(metrics.width as int, metrics.height as int)
                &&& coverage@.len() == metrics.width * metrics.height
            },
        ensures
            final(graphics).wf(),
            final(self).face() == old(self).face(),
            final(graphics)@.batch == old(graphics)@.batch,
            final(graphics)@.projection == old(graphics)@.projection,
            final(self)@ == cache_after(old(self)@, ch, size, r.glyph),
            r.glyph == glyph_after(old(self)@, ch, size, r.glyph),
            old(self)@.contains_key((ch, size)) ==> {
                &&& r.upload is None
                &&& final(graphics)@ == old(graphics)@
            },
            !old(self)@.contains_key((ch, size)) ==> {
                &&& r.glyph.1 == metrics
                &&& r.upload matches Some((up, pixels))
                &&& pixels@ == coverage_pixels(coverage@)
                &&& r.glyph.0@ == TextureModel::whole(
                    up.handle,
                    metrics.width as int,
                    metrics.height as int,
                )
                &&& is_upload(
                    old(graphics)@.atlas,
                    final(graphics)@.atlas,
                    metrics.width as int,
                    metrics.height as int,
                    up,
                )
            },
    {
        let key = key_for(ch, size);
        match table_get(&self.characters, key) {
            Some(glyph) => {
                assert(final(self)@ =~= old(self)@);
                Rasterized { glyph, upload: None }
            },
            None => {
                let pixels = coverage_to_rgba(coverage);
                assert(pixels@.len() == 4 * (metrics.width * metrics.height)) by (nonlinear_arith)
                    requires
                        pixels@.len() == 4 * coverage@.len(),
                        coverage@.len() == metrics.width * metrics.height,
                ;
                assert(4 * metrics.width * metrics.height == 4 * (metrics.width * metrics.height))
                    by (nonlinear_arith);
                let up = graphics.new_texture_from_bytes(
                    pixels.as_slice(),
                    metrics.width,
                    metrics.height,
                );
                let texture = Texture::new(up.handle, metrics.width, metrics.height);
                let glyph = (texture, metrics);
                table_insert(&mut self.characters, key, glyph);
                proof {
                    assert forall|k: (char, u32)|
                        (glyph_key(k.0, k.1) == key) == (k == (ch, size)) by {
                        lemma_glyph_key_unique(k.0, k.1, ch, size);
                    }
                    assert(final(self)@ =~= old(self)@.insert((ch, size), glyph));
                }
                Rasterized { glyph, upload: Some((up, pixels)) }
            },
        }
    }

    /// The width of a run of text, in layout units: the advances of its
    /// characters, and between neighbours the kerning that the font has for
    /// the pair.
    pub fn text_width(metrics: &Vec<RasterMetrics>, kerning: &Vec<Option<i32>>) -> (width: i64)
        requires
            metrics@.len() == kerning@.len(),
            metrics@.len() <= MAX_TEXT_LEN,
        ensures
            width == run_width(metrics@, kerning@, 0, metrics@.len() as int),
    {
        measure(metrics, kerning, 0, metrics.len())
    }

    /// The distance from one line of text to the next, in layout units: what
    /// the font says, and the size itself for a font that says nothing.
    pub fn line_height(line_metrics: Option<i32>, size: u32) -> (height: i64)
        ensures
            height == match line_metrics {
                Some(new_line_size) => new_line_size as int,
                None => size * UNITS_PER_PIXEL,
            },
            -MAX_LINE_HEIGHT <= height <= MAX_LINE_HEIGHT,
    {
        match line_metrics {
            Some(new_line_size) => new_line_size as i64,
            None => (size as i64) * UNITS_PER_PIXEL,
        }
    }
}

/// No two pairs of character and size share a cache key.
pub proof fn lemma_glyph_key_unique(a: char, s: u32, b: char, t: u32)
    ensures
        glyph_key(a, s) == glyph_key(b, t) <==> a == b && s == t,
{
    let x = a as u32;
    let y = b as u32;
    assert(glyph_key(a, s) == x * 0x1_0000_0000 + s);
    assert(glyph_key(b, t) == y * 0x1_0000_0000 + t);
    if glyph_key(a, s) == glyph_key(b, t) {
        assert(x == y);
        assert(x as char == a);
        assert(y as char == b);
    }
}

/// Asking twice for the same glyph hands out the same glyph both times, and
/// the second time nothing is added to the cache, whatever the rasterizer
/// would deliver then.
pub proof fn lemma_rasterize_twice(
    cache: GlyphMap,
    ch: char,
    size: u32,
    first: Glyph,
    second: Glyph,
)
    ensures
        cache_after(cache, ch, size, first).contains_key((ch, size)),
        glyph_after(cache_after(cache, ch, size, first), ch, size, second) == glyph_after(
            cache,
            ch,
            size,
            first,
        ),
        cache_after(cache_after(cache, ch, size, first), ch, size, second) == cache_after(
            cache,
            ch,
            size,
            first,
        ),
{
}

/// The most characters that a run of text may have, so that every position
/// in it fits 64 bits.
pub const MAX_TEXT_LEN: usize = 0x40_0000;

/// The largest line height, in layout units: the height of a line of the
/// largest size.
pub const MAX_LINE_HEIGHT: i64 = 0x40_0000_0000;

/// The kerning between character `i` and the one before it: zero where the
/// font has none for the pair.
pub open spec fn kern_at(kerning: Seq<Option<i32>>, i: int) -> int {
    match kerning[i] {
        Some(kern) => kern as int,
        None => 0,
    }
}

/// The width of characters `start` to `end` of a text, `end` not included:
/// their advances, and the kerning between each of them and the one before
/// it, but for the first.
pub open spec fn run_width(
    metrics: Seq<RasterMetrics>,
    kerning: Seq<Option<i32>>,
    start: int,
    end: int,
) -> int
    decreases end - start,
{
    if end <= start {
        0
    } else if end == start + 1 {
        metrics[start].advance_width as int
    } else {
        run_width(metrics, kerning, start, end - 1) + kern_at(kerning, end - 1) + metrics[end
            - 1].advance_width
    }
}

/// A run's width is at most `2^32` layout units per character, either way.
pub proof fn lemma_run_width_bound(
    metrics: Seq<RasterMetrics>,
    kerning: Seq<Option<i32>>,
    start: int,
    end: int,
)
    requires
        0 <= start <= end <= metrics.len(),
        metrics.len() == kerning.len(),
    ensures
        -0x1_0000_0000 * (end - start) <= run_width(metrics, kerning, start, end) <= 0x1_0000_0000
            * (end - start),
    decreases end - start,
{
    if end > start + 1 {
        lemma_run_width_bound(metrics, kerning, start, end - 1);
    }
}

/// Measures characters `start` to `end` of a text, `end` not included.
pub fn measure(
    metrics: &Vec<RasterMetrics>,
    kerning: &Vec<Option<i32>>,
    start: usize,
    end: usize,
) -> (width: i64)
    requires
        start <= end <= metrics@.len(),
        metrics@.len() == kerning@.len(),
        metrics@.len() <= MAX_TEXT_LEN,
    ensures
        width == run_width(metrics@, kerning@, start as int, end as int),
{
    let mut width: i64 = 0;
    let mut i: usize = start;
    while i < end
        invariant
            start <= i <= end <= metrics@.len(),
            metrics@.len() == kerning@.len(),
            metrics@.len() <= MAX_TEXT_LEN,
            width == run_width(metrics@, kerning@, start as int, i as int),
        decreases end - i,
    {
        proof {
            lemma_run_width_bound(metrics@, kerning@, start as int, i as int);
        }
        if i > start {
            if let Some(kern) = kerning[i] {
                width += kern as i64;
            }
        }
        width += metrics[i].advance_width as i64;
        i += 1;
    }
    width
}

} // verus!
