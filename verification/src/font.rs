use vstd::prelude::*;
use crate::error::SetupError;
use crate::glyph::{build_glyph_record, GlyphCache, GlyphRecord, RasterGlyph, SPACE_ADVANCE, SPACE_CODE};

verus! {

#[verifier::external_type_specification]
#[verifier::external_body]
#[verifier::reject_recursive_types(BYTES)]
pub struct ExFace<BYTES>(freetype::face::Face<BYTES>);

/// Relies on freetype's Face::load_char with LoadFlag::RENDER, then the
/// glyph slot's bitmap accessors buffer(), width(), rows(), pitch() and
/// bitmap_top(). The rasterization is read out as plain values; nothing is
/// assumed of them, and the verified builder validates them before use.
#[verifier::external_body]
fn rasterize_glyph(face: &freetype::face::Face, code: u32) -> (r: Result<RasterGlyph, SetupError>)
{
    if face.load_char(code as usize, freetype::face::LoadFlag::RENDER).is_err() {
        return Err(SetupError::RasterizeFailed);
    }
    let slot = face.glyph();
    let bitmap = slot.bitmap();
    Ok(RasterGlyph {
        coverage: bitmap.buffer().to_vec(),
        width: bitmap.width(),
        rows: bitmap.rows(),
        pitch: bitmap.pitch(),
        ascent: slot.bitmap_top(),
    })
}

/// Rasterizes one character of the face and builds its cache record.
/// Whatever the rasterizer reports, a returned record is well-formed, and
/// the space character's record carries the fixed synthetic advance width.
pub fn load_char(face: &freetype::face::Face, code: u32) -> (r: Result<GlyphRecord, SetupError>)
    ensures
        (r matches Ok(g) ==> g.wf() && (code == SPACE_CODE ==> g.metrics.width == SPACE_ADVANCE)),
{
    match rasterize_glyph(face, code) {
        Err(e) => Err(e),
        Ok(raster) => build_glyph_record(&raster, code),
    }
}

/// Builds the glyph cache for the character codes `0 .. count` of a face,
/// fully, before any artifact tree that references it is constructed. A
/// returned cache is well-formed, holds one record per code, and its space
/// record carries the fixed synthetic advance width.
pub fn build_cache_from_face(face: &freetype::face::Face, count: u32) -> (r: Result<GlyphCache, SetupError>)
    ensures
        (r matches Ok(c) ==> {
            &&& c.wf()
            &&& c.records@.len() == count
            &&& (SPACE_CODE < count ==> c.records@[SPACE_CODE as int].metrics.width
                == SPACE_ADVANCE)
        }),
{
    let mut records: Vec<GlyphRecord> = Vec::new();
    let mut code: u32 = 0;
    while code < count
        invariant
            code <= count,
            records@.len() == code as int,
            forall|k: int| 0 <= k < code as int ==> (#[trigger] records@[k]).wf(),
            SPACE_CODE < code ==> records@[SPACE_CODE as int].metrics.width == SPACE_ADVANCE,
        decreases count - code,
    {
        match load_char(face, code) {
            Err(e) => {
                return Err(e);
            },
            Ok(g) => {
                records.push(g);
            },
        }
        code += 1;
    }
    Ok(GlyphCache { records })
}

} // verus!
