use std::io::Cursor;

use vnscene::artifact::Artifact;
use vnscene::error::{ContentError, SetupError};
use vnscene::geom::{AnchorPoint, PixelVec, Position};
use vnscene::glyph::{
    build_cache, build_glyph_record, GlyphCache, GlyphMetrics, GlyphRecord, RasterGlyph,
    SPACE_ADVANCE, SPACE_CODE,
};
use vnscene::texture::{flip_rows, ImgFormat, Texture};

fn raster(coverage: Vec<u8>, width: i32, rows: i32, pitch: i32, ascent: i32) -> RasterGlyph {
    RasterGlyph { coverage, width, rows, pitch, ascent }
}

#[test]
fn flip_rows_reverses_row_order() {
    let p = vec![1u8, 2, 3, 4, 5, 6];
    assert_eq!(flip_rows(&p, 2, 3), vec![5, 6, 3, 4, 1, 2]);
    assert_eq!(flip_rows(&p, 6, 1), vec![1, 2, 3, 4, 5, 6]);
}

#[test]
fn from_rgba_buffer_checks_the_pixel_count() {
    let t = Texture::from_rgba_buffer(vec![0u8; 16], 2, 2).unwrap();
    assert_eq!(t.width, 2);
    assert_eq!(t.height, 2);
    let e = Texture::from_rgba_buffer(vec![0u8; 15], 2, 2).unwrap_err();
    assert_eq!(e, SetupError::PixelCountMismatch);
}

#[test]
fn from_bytes_decodes_and_flips_a_png() {
    // A 2x1 image: a red pixel above a blue pixel after decoding top-down.
    let top = [255u8, 0, 0, 255];
    let bottom = [0u8, 0, 255, 255];
    let mut raw = Vec::new();
    raw.extend_from_slice(&top);
    raw.extend_from_slice(&bottom);
    let img = image::RgbaImage::from_raw(1, 2, raw).unwrap();
    let mut bytes: Vec<u8> = Vec::new();
    img.write_to(&mut Cursor::new(&mut bytes), image::ImageFormat::Png).unwrap();

    let t = Texture::from_bytes(&bytes, ImgFormat::Png).unwrap();
    assert_eq!(t.width, 1);
    assert_eq!(t.height, 2);
    let mut expected = Vec::new();
    expected.extend_from_slice(&bottom);
    expected.extend_from_slice(&top);
    assert_eq!(t.pixels, expected);
}

#[test]
fn from_bytes_rejects_malformed_bytes() {
    let garbage = vec![7u8; 64];
    let e = Texture::from_bytes(&garbage, ImgFormat::Png).unwrap_err();
    assert_eq!(e, SetupError::DecodeFailed);
    let e = Texture::from_bytes(&garbage, ImgFormat::Jpeg).unwrap_err();
    assert_eq!(e, SetupError::DecodeFailed);
}

#[test]
fn glyph_conversion_replicates_channels_and_flips() {
    // Two rows of two pixels, padded to a pitch of three bytes.
    let r = raster(vec![1, 2, 99, 3, 4, 98], 2, 2, 3, 5);
    let g = build_glyph_record(&r, 65).unwrap();
    assert_eq!(g.metrics.width, 2);
    assert_eq!(g.metrics.height, 2);
    assert_eq!(g.metrics.offset, 2 - 5);
    assert_eq!(g.texture.width, 2);
    assert_eq!(g.texture.height, 2);
    assert_eq!(
        g.texture.pixels,
        vec![3, 3, 3, 3, 4, 4, 4, 4, 1, 1, 1, 1, 2, 2, 2, 2],
    );
}

#[test]
fn glyph_with_inconsistent_report_is_invalid() {
    let e = build_glyph_record(&raster(vec![0; 4], -1, 2, 2, 0), 65).unwrap_err();
    assert_eq!(e, SetupError::InvalidRaster);
    let e = build_glyph_record(&raster(vec![0; 3], 2, 2, 2, 0), 65).unwrap_err();
    assert_eq!(e, SetupError::InvalidRaster);
    let e = build_glyph_record(&raster(vec![0; 4], 2, 2, 1, 0), 65).unwrap_err();
    assert_eq!(e, SetupError::InvalidRaster);
}

#[test]
fn space_gets_the_fixed_advance_width() {
    // A rasterizer typically reports an empty bitmap for the space.
    let g = build_glyph_record(&raster(vec![], 0, 0, 0, 0), SPACE_CODE).unwrap();
    assert_eq!(g.metrics.width, SPACE_ADVANCE);
    assert_eq!(g.metrics.height, 0);
    assert!(g.texture.pixels.is_empty());

    // The same report for any other code keeps its own (zero) width.
    let g = build_glyph_record(&raster(vec![], 0, 0, 0, 0), 65).unwrap();
    assert_eq!(g.metrics.width, 0);
}

#[test]
fn space_with_a_conflicting_bitmap_is_a_pixel_count_mismatch() {
    let e = build_glyph_record(&raster(vec![9, 9], 2, 1, 2, 1), SPACE_CODE).unwrap_err();
    assert_eq!(e, SetupError::PixelCountMismatch);
}

#[test]
fn rebuilding_the_cache_gives_identical_records() {
    let mut rasters = Vec::new();
    for code in 0..40i32 {
        if code == SPACE_CODE as i32 {
            rasters.push(raster(vec![], 0, 0, 0, 0));
        } else {
            let w = 1 + (code % 3);
            let rows = 2;
            let pitch = w + 1;
            let coverage = vec![code as u8; (pitch * rows) as usize];
            rasters.push(raster(coverage, w, rows, pitch, code));
        }
    }
    let c1 = build_cache(&rasters).unwrap();
    let c2 = build_cache(&rasters).unwrap();
    assert_eq!(c1.records.len(), 40);
    for (a, b) in c1.records.iter().zip(c2.records.iter()) {
        assert_eq!(a.metrics, b.metrics);
        assert_eq!(a.texture.pixels, b.texture.pixels);
    }
    assert_eq!(c1.records[SPACE_CODE as usize].metrics.width, SPACE_ADVANCE);
}

#[test]
fn cache_build_fails_on_a_bad_report() {
    let rasters = vec![raster(vec![], 0, 0, 0, 0), raster(vec![0; 3], 2, 2, 2, 0)];
    let e = build_cache(&rasters).unwrap_err();
    assert_eq!(e, SetupError::InvalidRaster);
}

fn tiny_cache(count: u32) -> GlyphCache {
    let mut records = Vec::new();
    for _ in 0..count {
        records.push(GlyphRecord {
            metrics: GlyphMetrics { width: 8, height: 8, offset: 0 },
            texture: Texture { width: 8, height: 8, pixels: vec![0; 4 * 8 * 8] },
        });
    }
    GlyphCache { records }
}

#[test]
fn create_string_references_the_cache_by_code() {
    let cache = tiny_cache(128);
    let t = vnscene::artifact::create_string(
        "Hi!",
        &cache,
        Position::new(AnchorPoint::new(0, 0), PixelVec { x: 40, y: 200 }),
        800,
        6,
        "text".to_string(),
    )
    .unwrap();
    match t {
        Artifact::TextRun { name, glyphs, depth, font_scale, children, .. } => {
            assert_eq!(name, "text");
            assert_eq!(glyphs, vec![72, 105, 33]);
            assert_eq!(depth, 800);
            assert_eq!(font_scale, 6);
            assert!(children.is_empty());
        },
        _ => panic!("expected a text run"),
    }
}

#[test]
fn create_string_rejects_an_uncached_character() {
    let cache = tiny_cache(100);
    let e = vnscene::artifact::create_string(
        "Hi",
        &cache,
        Position::new(AnchorPoint::new(0, 0), PixelVec { x: 0, y: 0 }),
        800,
        6,
        "text".to_string(),
    )
    .unwrap_err();
    // 'i' is code 105, outside a 100-record cache.
    assert_eq!(e, ContentError::UncachedCharacter);
}
