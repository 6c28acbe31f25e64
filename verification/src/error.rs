use vstd::prelude::*;

verus! {

/// A fatal error while building scene resources at startup: decoding an
/// image, converting a rasterized glyph, or sizing a pixel buffer.
#[derive(Clone, Copy, Debug, PartialEq, Eq, Structural)]
pub enum SetupError {
    /// The image bytes could not be decoded in the named format.
    DecodeFailed,
    /// A pixel buffer's length does not match its stated dimensions.
    PixelCountMismatch,
    /// The rasterizer reported no glyph, or failed, for a character code.
    RasterizeFailed,
    /// A rasterized bitmap's metrics are inconsistent or out of the
    /// supported range.
    InvalidRaster,
}

/// A recoverable content-validation error, surfaced at scene-construction
/// time rather than deferred to draw time.
#[derive(Clone, Copy, Debug, PartialEq, Eq, Structural)]
pub enum ContentError {
    /// A text run references a character code outside the glyph cache's range.
    UncachedCharacter,
}

} // verus!
