use vstd::prelude::*;
use vstd::arithmetic::div_mod::lemma_fundamental_div_mod_converse;
use crate::error::SetupError;
use crate::texture::{flip_rows, flipped_rows, Texture};

verus! {

/// The character code of the ASCII space character.
pub const SPACE_CODE: u32 = 32;

/// The fixed synthetic advance width, in pixels, cached for the space
/// character: rasterizers typically report a zero-size bitmap for whitespace.
pub const SPACE_ADVANCE: u32 = 50;

/// The largest bitmap dimension the cache accepts, in pixels.
pub const MAX_GLYPH_DIM: i32 = 65535;

/// What the font rasterizer reports for one character: a one-byte-per-pixel
/// coverage bitmap of `rows` rows spaced `pitch` bytes apart (top-down), the
/// glyph's width in pixels, and the ascent of the bitmap above the baseline.
#[derive(Debug)]
pub struct RasterGlyph {
    pub coverage: Vec<u8>,
    pub width: i32,
    pub rows: i32,
    pub pitch: i32,
    pub ascent: i32,
}

/// The metrics of one cached glyph: size in pixels and the vertical offset
/// that aligns it on a common baseline (bitmap height minus ascent).
#[derive(Clone, Copy, Debug, PartialEq, Eq, Structural)]
pub struct GlyphMetrics {
    pub width: u32,
    pub height: u32,
    pub offset: i64,
}

impl GlyphMetrics {
    pub open spec fn wf(self) -> bool {
        &&& self.width <= MAX_GLYPH_DIM
        &&& self.height <= MAX_GLYPH_DIM
        &&& -0x1_0000_0000 <= self.offset <= 0x1_0000_0000
    }
}

/// One cached glyph: metrics plus the RGBA texture of the rasterized bitmap.
#[derive(Debug)]
pub struct GlyphRecord {
    pub metrics: GlyphMetrics,
    pub texture: Texture,
}

impl GlyphRecord {
    pub open spec fn wf(self) -> bool {
        &&& self.metrics.wf()
        &&& self.texture.wf()
        &&& self.texture.width == self.metrics.width
        &&& self.texture.height == self.metrics.height
    }
}

/// The rows of a padded coverage bitmap with the padding dropped: `h` rows of
/// `w` bytes each, taken from rows spaced `pitch` bytes apart.
pub open spec fn tightened(cov: Seq<u8>, w: int, h: int, pitch: int) -> Seq<u8>
    recommends
        cov.len() == pitch * h,
        w <= pitch,
{
    Seq::new((w * h) as nat, |n: int| cov[pitch * (n / w) + n % w])
}

/// One coverage byte replicated into all four RGBA channels.
pub open spec fn expanded(a: Seq<u8>) -> Seq<u8> {
    Seq::new(4 * a.len(), |n: int| a[n / 4])
}

/// The RGBA pixel buffer of a rasterized glyph: padding dropped, each
/// coverage byte replicated into all four channels, rows flipped bottom-up.
pub open spec fn glyph_rgba(cov: Seq<u8>, w: int, h: int, pitch: int) -> Seq<u8> {
    flipped_rows(expanded(tightened(cov, w, h, pitch)), 4 * w, h)
}

/// Drops the row padding of a coverage bitmap: keeps the first `w` bytes of
/// each of the `h` rows, which are spaced `pitch` bytes apart.
pub fn tighten_rows(cov: &Vec<u8>, w: usize, h: usize, pitch: usize) -> (r: Vec<u8>)
    requires
        cov@.len() == (pitch as int) * (h as int),
        w <= pitch,
    ensures
        r@ == tightened(cov@, w as int, h as int, pitch as int),
{
    let ghost target = tightened(cov@, w as int, h as int, pitch as int);
    let mut out: Vec<u8> = Vec::new();
    let mut j: usize = 0;
    while j < h
        invariant
            j <= h,
            w <= pitch,
            cov@.len() == (pitch as int) * (h as int),
            out@.len() == (j as int) * (w as int),
            target == tightened(cov@, w as int, h as int, pitch as int),
            forall|n: int| 0 <= n < out@.len() ==> out@[n] == target[n],
        decreases h - j,
    {
        let mut i: usize = 0;
        while i < w
            invariant
                j < h,
                i <= w,
                w <= pitch,
                cov@.len() == (pitch as int) * (h as int),
                out@.len() == (j as int) * (w as int) + (i as int),
                target == tightened(cov@, w as int, h as int, pitch as int),
                forall|n: int| 0 <= n < out@.len() ==> out@[n] == target[n],
            decreases w - i,
        {
            proof {
                assert(cov@.len() <= usize::MAX) by {
                    assert(cov.len() == cov@.len());
                }
                assert((pitch as int) * (j as int) + (i as int) < (pitch as int) * (h as int)
                    && (j as int) * (w as int) + (i as int) < (w as int) * (h as int)
                    && (w as int) * (h as int) <= (pitch as int) * (h as int)
                    && 0 <= (pitch as int) * (j as int)) by (nonlinear_arith)
                    requires
                        0 <= i < w,
                        w <= pitch,
                        0 <= j < h,
                ;
            }
            let src: usize = pitch * j + i;
            proof {
                let n = (j as int) * (w as int) + (i as int);
                lemma_fundamental_div_mod_converse(n, w as int, j as int, i as int);
                assert(target[n] == cov@[src as int]);
            }
            out.push(cov[src]);
            i += 1;
        }
        proof {
            assert(((j + 1) as int) * (w as int) == (j as int) * (w as int) + (w as int))
                by (nonlinear_arith);
        }
        j += 1;
    }
    proof {
        assert((j as int) * (w as int) == (w as int) * (h as int)) by (nonlinear_arith)
            requires
                j == h,
        ;
        assert(out@ =~= target);
    }
    out
}

/// Replicates each coverage byte into all four RGBA channels.
pub fn expand_rgba(a: &Vec<u8>) -> (r: Vec<u8>)
    ensures
        r@ == expanded(a@),
{
    let ghost target = expanded(a@);
    let mut out: Vec<u8> = Vec::new();
    let mut i: usize = 0;
    while i < a.len()
        invariant
            i <= a@.len(),
            out@.len() == 4 * (i as int),
            target == expanded(a@),
            forall|n: int| 0 <= n < out@.len() ==> out@[n] == target[n],
        decreases a@.len() - i,
    {
        let byte = a[i];
        let mut k: usize = 0;
        while k < 4
            invariant
                i < a@.len(),
                k <= 4,
                byte == a@[i as int],
                out@.len() == 4 * (i as int) + (k as int),
                target == expanded(a@),
                forall|n: int| 0 <= n < out@.len() ==> out@[n] == target[n],
            decreases 4 - k,
        {
            proof {
                let n = 4 * (i as int) + (k as int);
                lemma_fundamental_div_mod_converse(n, 4, i as int, k as int);
                assert(target[n] == a@[i as int]);
            }
            out.push(byte);
            k += 1;
        }
        i += 1;
    }
    proof {
        assert(out@ =~= target);
    }
    out
}

/// A rasterizer report the cache accepts: non-negative dimensions within
/// range, width within the row pitch, and a coverage buffer of exactly
/// `pitch * rows` bytes.
pub open spec fn raster_valid(r: RasterGlyph) -> bool {
    &&& 0 <= r.width <= MAX_GLYPH_DIM
    &&& 0 <= r.rows <= MAX_GLYPH_DIM
    &&& r.width <= r.pitch
    &&& r.coverage@.len() == (r.pitch as int) * (r.rows as int)
}

/// Whether building a glyph record for this rasterizer report succeeds: the
/// report must be valid, and the space character's synthetic advance width
/// must agree with its bitmap unless that bitmap is empty.
pub open spec fn build_ok(r: RasterGlyph, code: u32) -> bool {
    raster_valid(r) && (code != SPACE_CODE || r.rows == 0 || r.width == SPACE_ADVANCE)
}

/// The relation between a rasterizer report and the cached glyph built from
/// it: the advance width is the bitmap width, except that the space character
/// gets the fixed `SPACE_ADVANCE` regardless of font metrics; the baseline
/// offset is the bitmap height minus the reported ascent; and the texture
/// holds the bitmap converted to bottom-up RGBA.
pub open spec fn glyph_built(r: RasterGlyph, code: u32, g: GlyphRecord) -> bool {
    &&& g.metrics.width == (if code == SPACE_CODE { SPACE_ADVANCE as int } else { r.width as int })
    &&& g.metrics.height == r.rows
    &&& g.metrics.offset == r.rows - r.ascent
    &&& g.texture.pixels@ == glyph_rgba(r.coverage@, r.width as int, r.rows as int, r.pitch as int)
    &&& g.wf()
}

/// Builds one cached glyph record from a rasterizer report.
pub fn build_glyph_record(raster: &RasterGlyph, code: u32) -> (r: Result<GlyphRecord, SetupError>)
    ensures
        r.is_ok() <==> build_ok(*raster, code),
        (r matches Ok(g) ==> glyph_built(*raster, code, g)),
        (r matches Err(e) ==> (e == SetupError::InvalidRaster <==> !raster_valid(*raster))),
        (r matches Err(e) ==> e == SetupError::InvalidRaster || e == SetupError::PixelCountMismatch),
{
    if !(raster.width >= 0 && raster.width <= MAX_GLYPH_DIM && raster.rows >= 0
        && raster.rows <= MAX_GLYPH_DIM && raster.pitch >= raster.width)
    {
        return Err(SetupError::InvalidRaster);
    }
    proof {
        assert(0 <= (raster.pitch as int) * (raster.rows as int)
            && (raster.pitch as int) * (raster.rows as int) <= 0x7fff_ffff * 0xffff)
            by (nonlinear_arith)
            requires
                0 <= raster.pitch <= 0x7fff_ffff,
                0 <= raster.rows <= 0xffff,
        ;
    }
    if raster.coverage.len() as u64 != (raster.pitch as u64) * (raster.rows as u64) {
        return Err(SetupError::InvalidRaster);
    }
    let w = raster.width as usize;
    let h = raster.rows as usize;
    let pitch = raster.pitch as usize;
    let tight = tighten_rows(&raster.coverage, w, h, pitch);
    let rgba = expand_rgba(&tight);
    proof {
        assert(4 * ((w as int) * (h as int)) == (4 * (w as int)) * (h as int))
            by (nonlinear_arith);
    }
    let fig = flip_rows(&rgba, 4 * w, h);
    let advance: u32 = if code == SPACE_CODE { SPACE_ADVANCE } else { raster.width as u32 };
    proof {
        assert((4 * (advance as int)) * (h as int) == (4 * (w as int)) * (h as int)
            <==> (advance == w || h == 0)) by (nonlinear_arith);
        assert(4 * (advance as int) * (h as int) == (4 * (advance as int)) * (h as int))
            by (nonlinear_arith);
    }
    match Texture::from_rgba_buffer(fig, advance, raster.rows as u32) {
        Ok(texture) => {
            let offset: i64 = (raster.rows as i64) - (raster.ascent as i64);
            Ok(GlyphRecord {
                metrics: GlyphMetrics { width: advance, height: raster.rows as u32, offset },
                texture,
            })
        },
        Err(_) => Err(SetupError::PixelCountMismatch),
    }
}

/// The glyph cache: one record per character code, built once per font and
/// resolution; the record for code `c` sits at index `c`.
#[derive(Debug)]
pub struct GlyphCache {
    pub records: Vec<GlyphRecord>,
}

impl GlyphCache {
    pub open spec fn wf(self) -> bool {
        forall|i: int| 0 <= i < self.records@.len() ==> (#[trigger] self.records@[i]).wf()
    }

    /// The cached metrics, by character code.
    pub open spec fn metrics_seq(self) -> Seq<GlyphMetrics> {
        self.records@.map_values(|g: GlyphRecord| g.metrics)
    }

    /// Whether a character code has a cached record.
    pub open spec fn spec_cached(self, code: u32) -> bool {
        (code as int) < self.records@.len()
    }

    /// How many character codes are cached.
    pub fn count(&self) -> (r: usize)
        ensures
            r == self.records@.len(),
    {
        self.records.len()
    }

    /// Looks a character code up. A code outside the cached range is a
    /// content error, reported by returning nothing.
    pub fn record(&self, code: u32) -> (r: Option<&GlyphRecord>)
        ensures
            match r {
                Some(g) => self.spec_cached(code) && *g == self.records@[code as int],
                None => !self.spec_cached(code),
            },
    {
        if (code as usize) < self.records.len() {
            Some(&self.records[code as usize])
        } else {
            None
        }
    }
}

/// Builds the glyph cache from the rasterizer reports for the codes
/// `0 .. rasters.len()`, in code order.
pub fn build_cache(rasters: &Vec<RasterGlyph>) -> (r: Result<GlyphCache, SetupError>)
    requires
        rasters@.len() <= 0xffff_ffff,
    ensures
        r.is_ok() <==> (forall|i: int| 0 <= i < rasters@.len()
            ==> build_ok(#[trigger] rasters@[i], i as u32)),
        (r matches Ok(c) ==> {
            &&& c.records@.len() == rasters@.len()
            &&& forall|i: int| 0 <= i < rasters@.len()
                ==> glyph_built(#[trigger] rasters@[i], i as u32, c.records@[i])
            &&& c.wf()
        }),
        (r matches Err(e) ==> e == SetupError::InvalidRaster || e == SetupError::PixelCountMismatch),
{
    let mut records: Vec<GlyphRecord> = Vec::new();
    let mut i: usize = 0;
    while i < rasters.len()
        invariant
            i <= rasters@.len(),
            rasters@.len() <= 0xffff_ffff,
            records@.len() == i as int,
            forall|k: int| 0 <= k < i as int
                ==> glyph_built(#[trigger] rasters@[k], k as u32, records@[k]),
            forall|k: int| 0 <= k < i as int ==> build_ok(#[trigger] rasters@[k], k as u32),
        decreases rasters@.len() - i,
    {
        match build_glyph_record(&rasters[i], i as u32) {
            Ok(g) => {
                records.push(g);
            },
            Err(e) => {
                return Err(e);
            },
        }
        i += 1;
    }
    let cache = GlyphCache { records };
    proof {
        assert forall|k: int| 0 <= k < cache.records@.len()
            implies (#[trigger] cache.records@[k]).wf() by {
            assert(glyph_built(rasters@[k], k as u32, cache.records@[k]));
        }
    }
    Ok(cache)
}

/// Law: rebuilding the cache from the same rasterizer reports yields
/// identical width/height/offset records and identical pixel data.
pub proof fn lemma_cache_rebuild_deterministic(
    rasters: Seq<RasterGlyph>,
    c1: GlyphCache,
    c2: GlyphCache,
)
    requires
        c1.records@.len() == rasters.len(),
        c2.records@.len() == rasters.len(),
        forall|i: int| 0 <= i < rasters.len()
            ==> glyph_built(#[trigger] rasters[i], i as u32, c1.records@[i]),
        forall|i: int| 0 <= i < rasters.len()
            ==> glyph_built(#[trigger] rasters[i], i as u32, c2.records@[i]),
    ensures
        c1.metrics_seq() == c2.metrics_seq(),
        forall|i: int| 0 <= i < rasters.len()
            ==> c1.records@[i].texture.pixels@ == #[trigger] c2.records@[i].texture.pixels@,
{
    assert forall|i: int| 0 <= i < rasters.len()
        implies c1.metrics_seq()[i] == c2.metrics_seq()[i] by {
        assert(glyph_built(rasters[i], i as u32, c1.records@[i]));
        assert(glyph_built(rasters[i], i as u32, c2.records@[i]));
    }
    assert(c1.metrics_seq() =~= c2.metrics_seq());
    assert forall|i: int| 0 <= i < rasters.len()
        implies c1.records@[i].texture.pixels@ == #[trigger] c2.records@[i].texture.pixels@ by {
        assert(glyph_built(rasters[i], i as u32, c1.records@[i]));
        assert(glyph_built(rasters[i], i as u32, c2.records@[i]));
    }
}

} // verus!
